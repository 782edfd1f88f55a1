use gur::memory::{Acc, Tape};

#[test]
fn acc_starts_empty() {
    let acc = Acc::new();
    assert!(acc.is_empty());
    assert!(!acc.is_not_empty());
    assert_eq!(acc.get_value(), Err(()));
}

#[test]
fn acc_set_then_get() {
    let mut acc = Acc::new();
    acc.set_value(0);
    assert!(acc.is_not_empty());
    assert!(!acc.is_empty());
    assert_eq!(acc.get_value(), Ok(0));
    acc.set_value(-12);
    assert_eq!(acc.get_value(), Ok(-12));
}

#[test]
fn acc_clear_returns_prior_value() {
    let mut acc = Acc::new();
    assert_eq!(acc.clear(), None);
    acc.set_value(7);
    assert_eq!(acc.clear(), Some(7));
    assert!(acc.is_empty());
    assert_eq!(acc.clear(), None);
}

#[test]
fn acc_append_builds_base_ten() {
    let mut acc = Acc::new();
    assert_eq!(acc.append(1), Ok(()));
    assert_eq!(acc.get_value(), Ok(1));
    assert_eq!(acc.append(2), Ok(()));
    assert_eq!(acc.append(3), Ok(()));
    assert_eq!(acc.get_value(), Ok(123));
    assert_eq!(acc.append(0), Ok(()));
    assert_eq!(acc.get_value(), Ok(1230));
}

#[test]
fn acc_append_leading_zero() {
    let mut acc = Acc::new();
    assert_eq!(acc.append(0), Ok(()));
    assert_eq!(acc.get_value(), Ok(0));
    assert_eq!(acc.append(4), Ok(()));
    assert_eq!(acc.get_value(), Ok(4));
}

#[test]
fn acc_append_overflow_keeps_value() {
    let mut acc = Acc::new();
    acc.set_value(isize::MAX);
    assert_eq!(acc.append(1), Err(()));
    assert_eq!(acc.get_value(), Ok(isize::MAX));
    acc.set_value(isize::MAX / 10);
    assert_eq!(acc.append(isize::MAX % 10), Ok(()));
    assert_eq!(acc.get_value(), Ok(isize::MAX));
    acc.set_value(isize::MAX / 10);
    assert_eq!(acc.append(isize::MAX % 10 + 1), Err(()));
    assert_eq!(acc.get_value(), Ok(isize::MAX / 10));
}

#[test]
fn tape_empty_cell_is_not_zero() {
    let mut tape = Tape::new();
    assert_eq!(tape.get(0), None);
    assert!(tape.cell_is_empty(0));
    assert!(!tape.cell_is_full(0));
    tape.set(0, 0);
    assert_eq!(tape.get(0), Some(0));
    assert!(tape.cell_is_full(0));
    assert!(!tape.cell_is_empty(0));
}

#[test]
fn tape_set_overwrites_and_clear_empties() {
    let mut tape = Tape::new();
    tape.set(-3, 9);
    tape.set(-3, 10);
    assert_eq!(tape.get(-3), Some(10));
    assert_eq!(tape.clear(-3), Some(10));
    assert_eq!(tape.get(-3), None);
    assert_eq!(tape.clear(-3), None);
}

#[test]
fn tape_has_no_bounds() {
    let mut tape = Tape::new();
    tape.set(isize::MAX, 1);
    tape.set(isize::MIN, 2);
    assert_eq!(tape.get(isize::MAX), Some(1));
    assert_eq!(tape.get(isize::MIN), Some(2));
    assert_eq!(tape.get(0), None);
}

#[test]
fn tape_left_of() {
    let mut tape = Tape::new();
    tape.set(4, 44);
    assert_eq!(tape.left_of(5), Ok(Some(44)));
    assert_eq!(tape.left_of(4), Ok(None));
    assert_eq!(tape.left_of(isize::MIN), Err(()));
    assert_eq!(tape.left_of(isize::MIN + 1), Ok(None));
}

#[test]
fn acc_get_details() {
    let mut acc = Acc::new();
    assert_eq!(acc.get_details(), "accumulator was empty");
    acc.set_value(0);
    assert_eq!(acc.get_details(), "accumulator value: 0");
    acc.set_value(-305);
    assert_eq!(acc.get_details(), "accumulator value: -305");
}
