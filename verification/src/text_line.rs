//! A one-line text input with a cursor and a history of what was entered.

use vstd::prelude::*;
use vstd::utf8::encode_utf8;

verus! {

/// The line being edited, the position of the cursor in it, and the
/// lines entered before.
pub struct TextInputLine {
    pub history: std::vec::Vec<String>,
    pub history_pos: Option<u32>,
    pub cursor_pos: usize,
    pub text: String,
}

/// What the user can do to the line.
pub enum TextInputAction {
    Insert(String),
    Replace(String),
    Clear,
    CursorRight,
    CursorLeft,
    CursorBegin,
    CursorEnd,
    HistoryUp,
    HistoryDown,
}

/// The number of bytes a text takes.
pub open spec fn byte_len(text: Seq<char>) -> nat {
    encode_utf8(text).len()
}

/// `text` with `piece` put in after its first `at` characters, or at
/// the end if it has fewer.
pub open spec fn spliced(text: Seq<char>, at: int, piece: Seq<char>) -> Seq<char> {
    let cut = if at < text.len() {
        at
    } else {
        text.len() as int
    };
    text.take(cut) + piece + text.skip(cut)
}

impl TextInputLine {
    /// An empty line with no history.
    pub fn new() -> (line: TextInputLine)
        ensures
            line.history@.len() == 0,
            line.history_pos.is_none(),
            line.cursor_pos == 0,
            line.text@.len() == 0,
    {
        TextInputLine {
            history: Vec::new(),
            history_pos: None,
            cursor_pos: 0,
            text: String::new(),
        }
    }

    /// Whether `text` is what was entered last.
    pub open spec fn repeats(&self, text: Seq<char>) -> bool {
        self.history@.len() > 0 && self.history@.last()@ == text
    }

    /// Notes `text` as entered, unless it repeats the entry before it,
    /// and leaves the history.
    pub fn add_history(&mut self, text: String)
        ensures
            final(self).history_pos.is_none(),
            old(self).repeats(text@) ==> final(self).history@ == old(self).history@,
            !old(self).repeats(text@) ==> final(self).history@ == old(self).history@.push(text),
            final(self).cursor_pos == old(self).cursor_pos,
            final(self).text == old(self).text,
    {
        self.history_pos = None;
        if !self.history.is_empty() && self.history[self.history.len() - 1] == text {
            return ;
        }
        self.history.push(text);
    }

    /// Whether the line can take the action: the cursor stays within
    /// the machine's integers.
    pub open spec fn can_handle(&self, action: TextInputAction) -> bool {
        match action {
            TextInputAction::Insert(s) => self.cursor_pos + byte_len(s@) <= usize::MAX,
            TextInputAction::CursorRight => self.cursor_pos < usize::MAX,
            _ => true,
        }
    }

    /// The text after the action.
    pub open spec fn text_after(&self, action: TextInputAction) -> Seq<char> {
        match action {
            TextInputAction::Insert(s) => spliced(self.text@, self.cursor_pos as int, s@),
            TextInputAction::Replace(s) => s@,
            TextInputAction::Clear => Seq::empty(),
            _ => self.text@,
        }
    }

    /// The cursor after the action. It counts bytes: an insertion moves
    /// it on by the bytes put in, a step to the right stops at the
    /// number of bytes of the text.
    pub open spec fn cursor_after(&self, action: TextInputAction) -> int {
        match action {
            TextInputAction::Insert(s) => self.cursor_pos + byte_len(s@),
            TextInputAction::Replace(_) | TextInputAction::Clear | TextInputAction::CursorBegin => 0,
            TextInputAction::CursorLeft => if self.cursor_pos > 0 {
                self.cursor_pos - 1
            } else {
                0
            },
            TextInputAction::CursorRight => if self.cursor_pos + 1 > byte_len(self.text@) {
                byte_len(self.text@) as int
            } else {
                self.cursor_pos + 1
            },
            TextInputAction::CursorEnd => byte_len(self.text@) as int,
            _ => self.cursor_pos as int,
        }
    }

    /// Whether the action leaves the history: every change of the text does.
    pub open spec fn leaves_history(action: TextInputAction) -> bool {
        action is Insert || action is Replace || action is Clear
    }

    /// Carries out the action on the line.
    pub fn handle_input(&mut self, action: TextInputAction)
        requires
            old(self).can_handle(action),
        ensures
            final(self).text@ == old(self).text_after(action),
            final(self).cursor_pos == old(self).cursor_after(action),
            Self::leaves_history(action) ==> final(self).history_pos.is_none(),
            !Self::leaves_history(action) ==> final(self).history_pos == old(self).history_pos,
            final(self).history == old(self).history,
    {
        match action {
            TextInputAction::Insert(s) => {
                let count = self.text.as_str().unicode_len();
                let cut = if self.cursor_pos < count {
                    self.cursor_pos
                } else {
                    count
                };
                let left = self.text.as_str().substring_char(0, cut);
                let right = self.text.as_str().substring_char(cut, count);
                let joined = left.to_owned().concat(s.as_str()).concat(right);
                assert(self.text@.skip(cut as int) =~= self.text@.subrange(cut as int, count as int));
                self.text = joined;
                let added = s.as_str().as_bytes().len();
                self.cursor_pos += added;
                self.history_pos = None;
            },
            TextInputAction::Replace(s) => {
                self.text = s;
                self.cursor_pos = 0;
                self.history_pos = None;
            },
            TextInputAction::Clear => {
                self.text = String::new();
                self.cursor_pos = 0;
                self.history_pos = None;
            },
            TextInputAction::CursorLeft => {
                if self.cursor_pos > 0 {
                    self.cursor_pos -= 1;
                }
            },
            TextInputAction::CursorRight => {
                self.cursor_pos += 1;
                let end = self.text.as_str().as_bytes().len();
                if self.cursor_pos > end {
                    self.cursor_pos = end;
                }
            },
            TextInputAction::CursorBegin => {
                self.cursor_pos = 0;
            },
            TextInputAction::CursorEnd => {
                self.cursor_pos = self.text.as_str().as_bytes().len();
            },
            TextInputAction::HistoryUp => {},
            TextInputAction::HistoryDown => {},
        }
    }
}

} // verus!
