//! Typed, columnar tables out of spreadsheet workbooks.
//!
//! The library resolves a sheet selection (by name or by position) against a
//! workbook's ordered sheet list, reshapes each selected sheet's cell grid
//! into named columns of optional strings, and hands the columns to the
//! dataframe collaborator. Opening the workbook file itself is the caller's
//! business; the library works on plain cell grids.

pub mod cells;
pub mod errors;
pub mod frame;
pub mod grid;
pub mod selector;
pub mod transform;
