use console_engine::events::{KeyCode, KeyEvent, KeyEventKind, KeyModifiers, SHIFT};
use console_engine::utils::{intersect, outersect_left, union};

#[test]
fn union_keeps_each_value_once() {
    assert_eq!(union(&[1, 2, 3], &[3, 4, 2, 5, 5]), vec![1, 2, 3, 4, 5]);
    assert_eq!(union(&[1, 1], &[]), vec![1, 1]);
    assert_eq!(union::<u8>(&[], &[]), Vec::<u8>::new());
}

#[test]
fn intersect_keeps_common_values_in_first_order() {
    assert_eq!(intersect(&[5, 1, 2, 3], &[3, 5, 9]), vec![5, 3]);
    assert_eq!(intersect(&[1, 2], &[]), Vec::<i32>::new());
}

#[test]
fn outersect_left_removes_values_of_second() {
    assert_eq!(outersect_left(&[5, 1, 2, 3], &[3, 5, 9]), vec![1, 2]);
    assert_eq!(outersect_left(&[1, 2], &[]), vec![1, 2]);
}

#[test]
fn set_operations_work_on_strings() {
    let a = [String::from("a"), String::from("b")];
    let b = [String::from("b"), String::from("c")];
    assert_eq!(union(&a, &b), vec!["a", "b", "c"]);
    assert_eq!(intersect(&a, &b), vec!["b"]);
    assert_eq!(outersect_left(&a, &b), vec!["a"]);
}

#[test]
fn key_events_compare_after_normalizing_case() {
    let lower_shift = KeyEvent::new(KeyCode::Char('d'), KeyModifiers::from_bits(SHIFT));
    let upper_shift = KeyEvent::new(KeyCode::Char('D'), KeyModifiers::from_bits(SHIFT));
    let upper = KeyEvent::new(KeyCode::Char('D'), KeyModifiers::none());
    let lower = KeyEvent::new(KeyCode::Char('d'), KeyModifiers::none());
    assert!(lower_shift == upper_shift);
    assert!(upper == upper_shift);
    assert!(lower != upper);
    assert!(
        KeyEvent::new_with_kind(KeyCode::Enter, KeyModifiers::none(), KeyEventKind::Press)
            != KeyEvent::new_with_kind(KeyCode::Enter, KeyModifiers::none(), KeyEventKind::Release)
    );
    assert_eq!(upper.normalize_case().modifiers.bits, SHIFT);
    assert_eq!(lower_shift.normalize_case().code, KeyCode::Char('D'));
    assert_eq!(intersect(&[lower_shift], &[upper]).len(), 1);
}
