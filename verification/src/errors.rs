use vstd::prelude::*;

verus! {

/// Identifies the sheet a failed selection referred to: either a requested
/// name or a requested position.
#[derive(Debug, Clone, PartialEq, Eq)]
pub enum SheetKey {
    ByName(String),
    ByIndex(usize),
}

/// The error kinds a read can end in. No partial result accompanies any of
/// them: a failure aborts the whole request.
#[derive(Debug, Clone, PartialEq, Eq)]
pub enum ExcelError {
    /// Both a name-based and an index-based selection were supplied.
    InvalidSelection,
    /// The workbook file could not be opened or parsed.
    WorkbookUnreadable,
    /// A requested sheet name or index does not resolve to a sheet.
    SheetNotFound(SheetKey),
    /// A header-row cell is absent or empty where a column name is required;
    /// carries the column index.
    EmptyHeaderCell(usize),
    /// The table-construction collaborator rejected columns of unequal
    /// lengths.
    ColumnLengthMismatch,
    /// Two columns normalized to the same header name; carries that name.
    DuplicateHeaderName(String),
}

/// Spec view of an error: the kind together with the views of what it
/// carries.
pub ghost enum ErrorView {
    Invalid,
    Unreadable,
    NotFoundName(Seq<char>),
    NotFoundIndex(usize),
    EmptyHeader(usize),
    LenMismatch,
    DupName(Seq<char>),
}

pub open spec fn error_view(e: ExcelError) -> ErrorView {
    match e {
        ExcelError::InvalidSelection => ErrorView::Invalid,
        ExcelError::WorkbookUnreadable => ErrorView::Unreadable,
        ExcelError::SheetNotFound(SheetKey::ByName(s)) => ErrorView::NotFoundName(s@),
        ExcelError::SheetNotFound(SheetKey::ByIndex(i)) => ErrorView::NotFoundIndex(i),
        ExcelError::EmptyHeaderCell(c) => ErrorView::EmptyHeader(c),
        ExcelError::ColumnLengthMismatch => ErrorView::LenMismatch,
        ExcelError::DuplicateHeaderName(s) => ErrorView::DupName(s@),
    }
}

} // verus!
