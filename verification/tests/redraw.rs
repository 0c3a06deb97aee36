use diorama::redraw::ChangeFlag;

#[test]
fn a_new_flag_asks_for_the_first_frame() {
    let mut flag = ChangeFlag::new();
    assert!(flag.is_changed());
}

#[test]
fn a_change_is_reported_once() {
    let mut flag = ChangeFlag::new();
    assert!(flag.is_changed());
    assert!(!flag.is_changed());
    assert!(!flag.is_changed());
    flag.mark();
    assert!(flag.is_changed());
    assert!(!flag.is_changed());
}

#[test]
fn several_changes_are_one_redraw() {
    let mut flag = ChangeFlag::new();
    flag.is_changed();
    flag.mark();
    flag.mark();
    flag.mark();
    assert!(flag.is_changed());
    assert!(!flag.is_changed());
}
