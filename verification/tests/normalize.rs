use excel_frames::cells::{Cell, i64_to_string, normalize_cell, u64_to_string};

#[test]
fn integer_normalizes_to_decimal_text() {
    assert_eq!(
        normalize_cell(&Cell::Integer(42)),
        Some("42".to_string())
    );
}

#[test]
fn boolean_normalizes_to_true_false() {
    assert_eq!(
        normalize_cell(&Cell::Boolean(true)),
        Some("true".to_string())
    );
    assert_eq!(
        normalize_cell(&Cell::Boolean(false)),
        Some("false".to_string())
    );
}

#[test]
fn empty_normalizes_to_absent() {
    assert_eq!(normalize_cell(&Cell::Empty), None);
}

#[test]
fn text_is_kept_unmodified() {
    assert_eq!(
        normalize_cell(&Cell::Text("  Alice ".to_string())),
        Some("  Alice ".to_string())
    );
}

#[test]
fn number_text_is_kept_unmodified() {
    assert_eq!(
        normalize_cell(&Cell::Number("3.25".to_string())),
        Some("3.25".to_string())
    );
}

#[test]
fn datetime_and_other_keep_their_text() {
    assert_eq!(
        normalize_cell(&Cell::DateTime("2024-01-31T09:30:00".to_string())),
        Some("2024-01-31T09:30:00".to_string())
    );
    assert_eq!(
        normalize_cell(&Cell::Other("Error(Div0)".to_string())),
        Some("Error(Div0)".to_string())
    );
}

#[test]
fn unsigned_rendering_matches_std() {
    for n in [0u64, 1, 9, 10, 99, 100, 12345, u64::MAX] {
        assert_eq!(u64_to_string(n), n.to_string());
    }
}

#[test]
fn signed_rendering_matches_std() {
    for i in [0i64, 7, -1, -10, 42, -12345, i64::MAX, i64::MIN] {
        assert_eq!(i64_to_string(i), i.to_string());
    }
}

#[test]
fn negative_integer_cell() {
    assert_eq!(
        normalize_cell(&Cell::Integer(-30)),
        Some("-30".to_string())
    );
}
