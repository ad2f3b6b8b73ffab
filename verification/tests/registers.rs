use wctr_dem_engine::registers::{RegisterFile, ONE, ZERO};

#[test]
fn fresh_file_is_empty() {
    let regs = RegisterFile::new();
    assert_eq!(regs.len(), 0);
    assert_eq!(regs.get(0), ZERO);
}

#[test]
fn constants_are_the_bits_of_zero_and_one() {
    assert_eq!(f32::from_bits(ZERO), 0.0);
    assert_eq!(f32::from_bits(ONE), 1.0);
}

#[test]
fn allocate_grows_by_count_and_zeroes() {
    let mut regs = RegisterFile::new();
    assert_eq!(regs.allocate(3), 0);
    assert_eq!(regs.len(), 3);
    assert!(regs.set(1, 7.5f32.to_bits()));
    assert_eq!(regs.allocate(2), 3);
    assert_eq!(regs.len(), 5);
    assert_eq!(f32::from_bits(regs.get(1)), 7.5);
    for i in [0usize, 2, 3, 4] {
        assert_eq!(f32::from_bits(regs.get(i)), 0.0);
    }
}

#[test]
fn allocate_nothing_changes_nothing() {
    let mut regs = RegisterFile::new();
    regs.allocate(2);
    assert_eq!(regs.allocate(0), 2);
    assert_eq!(regs.len(), 2);
}

#[test]
fn out_of_range_reads_zero_and_refuses_writes() {
    let mut regs = RegisterFile::new();
    regs.allocate(2);
    regs.set(0, 1.5f32.to_bits());
    regs.set(1, 2.5f32.to_bits());
    for idx in [2usize, 3, 100, usize::MAX] {
        assert_eq!(f32::from_bits(regs.get(idx)), 0.0);
        assert!(!regs.set(idx, 9.0f32.to_bits()));
        assert_eq!(regs.len(), 2);
        assert_eq!(f32::from_bits(regs.get(0)), 1.5);
        assert_eq!(f32::from_bits(regs.get(1)), 2.5);
    }
}

#[test]
fn set_in_range_writes_only_that_register() {
    let mut regs = RegisterFile::new();
    regs.allocate(3);
    assert!(regs.set(2, 4.0f32.to_bits()));
    assert_eq!(f32::from_bits(regs.get(0)), 0.0);
    assert_eq!(f32::from_bits(regs.get(1)), 0.0);
    assert_eq!(f32::from_bits(regs.get(2)), 4.0);
}
