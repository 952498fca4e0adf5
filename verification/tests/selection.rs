use excel_frames::errors::{ExcelError, SheetKey};
use excel_frames::selector::{ResolvedSelection, SheetIndex, SheetName, resolve_selection};

fn two_sheets() -> Vec<String> {
    vec!["Sheet1".to_string(), "Sheet2".to_string()]
}

#[test]
fn both_name_and_index_fails() {
    let names = two_sheets();
    let r = resolve_selection(
        &names,
        Some(SheetName::Name("Sheet1")),
        Some(SheetIndex::Index(0)),
    );
    assert_eq!(r, Err(ExcelError::InvalidSelection));
}

#[test]
fn both_fail_even_when_neither_resolves() {
    let names = two_sheets();
    let r = resolve_selection(
        &names,
        Some(SheetName::Name("NoSuchSheet")),
        Some(SheetIndex::Index(99)),
    );
    assert_eq!(r, Err(ExcelError::InvalidSelection));
}

#[test]
fn default_selects_first_sheet() {
    let names = two_sheets();
    let by_default = resolve_selection(&names, None, None);
    let by_index = resolve_selection(&names, None, Some(SheetIndex::Index(0)));
    let by_name = resolve_selection(&names, Some(SheetName::Name("Sheet1")), None);
    assert_eq!(
        by_default,
        Ok(ResolvedSelection::Single("Sheet1".to_string()))
    );
    assert_eq!(by_default, by_index);
    assert_eq!(by_default, by_name);
}

#[test]
fn default_on_empty_workbook_fails() {
    let names: Vec<String> = Vec::new();
    let r = resolve_selection(&names, None, None);
    assert_eq!(r, Err(ExcelError::SheetNotFound(SheetKey::ByIndex(0))));
}

#[test]
fn out_of_range_index_fails() {
    let names = two_sheets();
    let r = resolve_selection(&names, None, Some(SheetIndex::Index(5)));
    assert_eq!(r, Err(ExcelError::SheetNotFound(SheetKey::ByIndex(5))));
}

#[test]
fn set_of_one_name_keeps_mapping_shape() {
    let names = two_sheets();
    let multi = resolve_selection(&names, Some(SheetName::Names(vec!["Sheet1"])), None);
    let single = resolve_selection(&names, Some(SheetName::Name("Sheet1")), None);
    assert_eq!(
        multi,
        Ok(ResolvedSelection::Multi(vec!["Sheet1".to_string()]))
    );
    assert_eq!(
        single,
        Ok(ResolvedSelection::Single("Sheet1".to_string()))
    );
    assert_ne!(multi, single);
}

#[test]
fn indices_resolve_in_request_order() {
    let names = two_sheets();
    let r = resolve_selection(&names, None, Some(SheetIndex::Indices(vec![1, 0])));
    assert_eq!(
        r,
        Ok(ResolvedSelection::Multi(vec![
            "Sheet2".to_string(),
            "Sheet1".to_string()
        ]))
    );
}

#[test]
fn indices_fail_on_first_out_of_range() {
    let names = two_sheets();
    let r = resolve_selection(&names, None, Some(SheetIndex::Indices(vec![0, 5, 7])));
    assert_eq!(r, Err(ExcelError::SheetNotFound(SheetKey::ByIndex(5))));
}

#[test]
fn names_pass_through_verbatim() {
    let names = two_sheets();
    let r = resolve_selection(
        &names,
        Some(SheetName::Names(vec!["Sheet2", "NotThere"])),
        None,
    );
    assert_eq!(
        r,
        Ok(ResolvedSelection::Multi(vec![
            "Sheet2".to_string(),
            "NotThere".to_string()
        ]))
    );
}
