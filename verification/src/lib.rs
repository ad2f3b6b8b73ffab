//! A per-frame generative drawing engine: a register file driven by
//! operators, a tree of turtle commands interpreted against it, and the
//! paged table model of the accompanying file browser.
//!
//! Numbers are carried as IEEE 754 single-precision bit patterns
//! ([`registers::Value`]). The library moves them, stores them and decides
//! where they flow; arithmetic on them is done by the host through
//! [`signals::Arith`].

pub mod registers;
pub mod signals;
pub mod turtle;
pub mod canvas;
pub mod clcontext;
pub mod fm_page;
pub mod path_sheet;
pub mod text_line;
