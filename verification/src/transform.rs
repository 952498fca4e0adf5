use vstd::prelude::*;
use crate::cells::{Cell, cell_text, opt_text, opt_texts, normalize_cell};
use crate::errors::{ExcelError, error_view};
use crate::frame::{col_name, col_values, df_cols, column_from_values, df_from_columns};
use crate::grid::{
    Grid, grid_wf, grid_cells_wf, cell_at, rows_spec, data_rows, grid_lookup, grid_row_count,
};

verus! {

/// The grids of the selected sheets, in the shape the selection asked for:
/// one bare grid, or name-keyed grids in resolution order.
///
/// The name-keyed collection is an ordered association list, not a hash map:
/// a name selected twice appears twice, in request order. The transform is a
/// function of the grid, so duplicate entries for one sheet carry equal
/// tables, and a consumer that reads the collection as a mapping may take
/// either.
#[derive(Debug, Clone)]
pub enum SheetData {
    SingleSheet(Grid),
    MultiSheet(Vec<(String, Grid)>),
}

/// The finished result, in the shape the selection asked for: one bare
/// table, or name-keyed tables in resolution order.
#[derive(Debug)]
pub enum ExcelDataFrame {
    SingleSheet(polars::prelude::DataFrame),
    MultiSheet(Vec<(String, polars::prelude::DataFrame)>),
}

/// Whether column `c`'s header cell normalizes to a name: it is present and
/// not empty.
pub open spec fn header_ok(cells: Seq<(usize, usize, Cell)>, c: int) -> bool {
    cell_text(cell_at(cells, 0, c)) is Some
}

/// The name column `c` carries: its header cell's normalized text.
pub open spec fn column_name_spec(cells: Seq<(usize, usize, Cell)>, c: int) -> Seq<char> {
    cell_text(cell_at(cells, 0, c)).unwrap()
}

/// The data values of column `c`, one slot per data row in row order: the
/// normalized text of the cell at each row below the header, with absent and
/// empty cells both read as nothing. The row count is taken over in-range
/// cells alone, so an out-of-range triple contributes no slot anywhere.
pub open spec fn column_values_spec(cells: Seq<(usize, usize, Cell)>, count: int, c: int) -> Seq<
    Option<Seq<char>>,
> {
    Seq::new(data_rows(cells, count), |i: int| cell_text(cell_at(cells, i + 1, c)))
}

/// Every column in range has a header name.
pub open spec fn headers_ok(cells: Seq<(usize, usize, Cell)>, count: int) -> bool {
    forall|c: int| 0 <= c < count ==> header_ok(cells, c)
}

/// No two columns in range share a header name.
pub open spec fn names_unique(cells: Seq<(usize, usize, Cell)>, count: int) -> bool {
    forall|c1: int, c2: int|
        0 <= c1 < c2 < count ==> column_name_spec(cells, c1) != column_name_spec(cells, c2)
}

/// A grid transforms into a table exactly when every column has a header
/// name and the names are pairwise distinct.
pub open spec fn sheet_ok(cells: Seq<(usize, usize, Cell)>, count: int) -> bool {
    headers_ok(cells, count) && names_unique(cells, count)
}

/// The table a grid transforms into: for each column index in range, the
/// header name paired with the column's data values.
pub open spec fn table_spec(cells: Seq<(usize, usize, Cell)>, count: nat) -> Seq<
    (Seq<char>, Seq<Option<Seq<char>>>),
> {
    Seq::new(
        count,
        |c: int| (column_name_spec(cells, c), column_values_spec(cells, count as int, c)),
    )
}

/// Whether `e` is the error the transform owes this grid: the least column
/// without a header name, or — with all headers in place — the name of the
/// least column that repeats an earlier one. No grid owes two different
/// errors, and a grid with `sheet_ok` owes none.
pub open spec fn sheet_err_ok(cells: Seq<(usize, usize, Cell)>, count: int, e: ExcelError) -> bool {
    ||| (e matches ExcelError::EmptyHeaderCell(c) && first_missing_header_at(
        cells,
        count,
        c as int,
    ))
    ||| (e matches ExcelError::DuplicateHeaderName(s) && dup_header_err(cells, count, s@))
}

/// Column `c` is the least column whose header cell has no name.
pub open spec fn first_missing_header_at(
    cells: Seq<(usize, usize, Cell)>,
    count: int,
    c: int,
) -> bool {
    &&& 0 <= c < count
    &&& !header_ok(cells, c)
    &&& forall|d: int| 0 <= d < c ==> header_ok(cells, d)
}

/// With every header in place, `s` is the name of the least column that
/// repeats an earlier column's name.
pub open spec fn dup_header_err(cells: Seq<(usize, usize, Cell)>, count: int, s: Seq<char>) -> bool {
    &&& headers_ok(cells, count)
    &&& exists|c: int| first_dup_at(cells, count, c, s)
}

/// Column `c` carries the name `s` and is the least column that repeats an
/// earlier column's name.
pub open spec fn first_dup_at(
    cells: Seq<(usize, usize, Cell)>,
    count: int,
    c: int,
    s: Seq<char>,
) -> bool {
    &&& 0 <= c < count
    &&& column_name_spec(cells, c) == s
    &&& exists|c2: int| 0 <= c2 < c && column_name_spec(cells, c2) == column_name_spec(cells, c)
    &&& forall|d1: int, d2: int|
        0 <= d1 < d2 < c ==> column_name_spec(cells, d1) != column_name_spec(cells, d2)
}

proof fn lemma_dup_err(cells: Seq<(usize, usize, Cell)>, count: int, c: int, s: String)
    requires
        headers_ok(cells, count),
        first_dup_at(cells, count, c, s@),
    ensures
        sheet_err_ok(cells, count, ExcelError::DuplicateHeaderName(s)),
{
    assert(exists|cc: int| first_dup_at(cells, count, cc, s@));
}

/// Builds one column of the table: the cells of column `column`, the header
/// first, each normalized; the header's text becomes the column name and the
/// remaining slots, one per data row, its values. A header with no text is
/// this column's contract violation.
pub fn excel_column_to_pl_series(
    data: &Vec<(usize, usize, Cell)>,
    column: usize,
    columns_count: usize,
) -> (r: Result<polars::prelude::Column, ExcelError>)
    requires
        grid_cells_wf(data@, columns_count as int),
    ensures
        match r {
            Ok(col) => {
                &&& header_ok(data@, column as int)
                &&& col_name(col) == column_name_spec(data@, column as int)
                &&& col_values(col) == column_values_spec(
                    data@,
                    columns_count as int,
                    column as int,
                )
            },
            Err(e) => {
                &&& !header_ok(data@, column as int)
                &&& e == ExcelError::EmptyHeaderCell(column)
            },
        },
{
    let header = grid_lookup(data, 0, column);
    let name_opt: Option<String> = match header {
        Option::None => None,
        Option::Some(cl) => normalize_cell(cl),
    };
    match name_opt {
        Option::None => Err(ExcelError::EmptyHeaderCell(column)),
        Option::Some(name) => {
            let rows = grid_row_count(data, columns_count);
            let mut values: Vec<Option<String>> = Vec::new();
            let mut rix: usize = 1;
            while rix < rows
                invariant
                    rows == rows_spec(data@, columns_count as int),
                    grid_cells_wf(data@, columns_count as int),
                    values@.len() + 1 == rix,
                    rix <= rows || rix == 1,
                    forall|i: int|
                        0 <= i < rix - 1 ==> opt_text(#[trigger] values@[i]) == cell_text(
                            cell_at(data@, i + 1, column as int),
                        ),
                decreases rows - rix,
            {
                let v: Option<String> = match grid_lookup(data, rix, column) {
                    Option::None => None,
                    Option::Some(cl) => normalize_cell(cl),
                };
                values.push(v);
                rix += 1;
            }
            proof {
                assert(opt_texts(values@) =~= column_values_spec(
                    data@,
                    columns_count as int,
                    column as int,
                ));
            }
            Ok(column_from_values(name.as_str(), values))
        },
    }
}

/// Transforms a whole grid into a dataframe: one column per header cell, in
/// header order, every column as long as the grid has data rows. Fails on
/// the least column without a header name, then on the least header name
/// that repeats an earlier one; succeeds exactly on `sheet_ok` grids.
pub fn filter_data(data: &Vec<(usize, usize, Cell)>, columns_count: &usize) -> (r: Result<
    polars::prelude::DataFrame,
    ExcelError,
>)
    requires
        grid_cells_wf(data@, *columns_count as int),
    ensures
        match r {
            Ok(df) => {
                &&& sheet_ok(data@, *columns_count as int)
                &&& df_cols(df) == table_spec(data@, *columns_count as nat)
            },
            Err(e) => {
                &&& !sheet_ok(data@, *columns_count as int)
                &&& sheet_err_ok(data@, *columns_count as int, e)
            },
        },
{
    let count = *columns_count;
    let mut names: Vec<String> = Vec::new();
    let mut c: usize = 0;
    while c < count
        invariant
            count == *columns_count,
            c <= count,
            grid_cells_wf(data@, count as int),
            names@.len() == c,
            forall|k: int| 0 <= k < c ==> header_ok(data@, k),
            forall|k: int|
                0 <= k < c ==> (#[trigger] names@[k])@ == column_name_spec(data@, k),
        decreases count - c,
    {
        let header = grid_lookup(data, 0, c);
        let name_opt: Option<String> = match header {
            Option::None => None,
            Option::Some(cl) => normalize_cell(cl),
        };
        match name_opt {
            Option::None => {
                proof {
                    assert(!header_ok(data@, c as int));
                    assert(!headers_ok(data@, count as int));
                }
                return Err(ExcelError::EmptyHeaderCell(c));
            },
            Option::Some(name) => {
                names.push(name);
            },
        }
        c += 1;
    }
    let mut i: usize = 1;
    while i < count
        invariant
            count == *columns_count,
            count >= 1 ==> 1 <= i,
            i <= count || count == 0,
            grid_cells_wf(data@, count as int),
            names@.len() == count,
            forall|k: int| 0 <= k < count ==> header_ok(data@, k),
            forall|k: int|
                0 <= k < count ==> (#[trigger] names@[k])@ == column_name_spec(data@, k),
            forall|k1: int, k2: int|
                0 <= k1 < k2 < i ==> column_name_spec(data@, k1) != column_name_spec(data@, k2),
        decreases count - i,
    {
        let mut j: usize = 0;
        while j < i
            invariant
                count == *columns_count,
                0 <= j <= i < count,
                forall|k: int| 0 <= k < count ==> header_ok(data@, k),
                forall|k1: int, k2: int|
                    0 <= k1 < k2 < i ==> column_name_spec(data@, k1) != column_name_spec(
                        data@,
                        k2,
                    ),
                names@.len() == count,
                forall|k: int|
                    0 <= k < count ==> (#[trigger] names@[k])@ == column_name_spec(data@, k),
                forall|k: int|
                    0 <= k < j ==> column_name_spec(data@, k) != column_name_spec(data@, i as int),
            decreases i - j,
        {
            if names[j] == names[i] {
                let dup = names[i].clone();
                proof {
                    assert(column_name_spec(data@, j as int) == column_name_spec(data@, i as int));
                    assert(!names_unique(data@, count as int));
                    assert(first_dup_at(data@, count as int, i as int, dup@));
                    lemma_dup_err(data@, count as int, i as int, dup);
                }
                return Err(ExcelError::DuplicateHeaderName(dup));
            }
            j += 1;
        }
        i += 1;
    }
    let mut cols: Vec<polars::prelude::Column> = Vec::new();
    let mut c2: usize = 0;
    while c2 < count
        invariant
            count == *columns_count,
            c2 <= count,
            grid_cells_wf(data@, count as int),
            sheet_ok(data@, count as int),
            cols@.len() == c2,
            forall|k: int|
                0 <= k < c2 ==> col_name(#[trigger] cols@[k]) == column_name_spec(data@, k),
            forall|k: int|
                0 <= k < c2 ==> col_values(#[trigger] cols@[k]) == column_values_spec(
                    data@,
                    count as int,
                    k,
                ),
        decreases count - c2,
    {
        match excel_column_to_pl_series(data, c2, count) {
            Ok(col) => {
                cols.push(col);
            },
            Err(e) => {
                return Err(e);
            },
        }
        c2 += 1;
    }
    let df = df_from_columns(cols);
    proof {
        assert(df_cols(df) =~= table_spec(data@, count as nat));
    }
    Ok(df)
}

/// Transforms one sheet's grid into its dataframe.
pub fn process_single_sheet(data: &Grid) -> (r: Result<polars::prelude::DataFrame, ExcelError>)
    requires
        grid_wf(*data),
    ensures
        match r {
            Ok(df) => {
                &&& sheet_ok(data.cells@, data.column_count as int)
                &&& df_cols(df) == table_spec(data.cells@, data.column_count as nat)
            },
            Err(e) => {
                &&& !sheet_ok(data.cells@, data.column_count as int)
                &&& sheet_err_ok(data.cells@, data.column_count as int, e)
            },
        },
{
    filter_data(&data.cells, &data.column_count)
}

/// Transforms the named grids in order, keeping each name with its
/// dataframe. The first failing sheet aborts the whole request: no partial
/// collection is returned. A name that was requested twice keeps both
/// entries, with equal tables; nothing is collapsed or reordered.
pub fn process_multi_sheet(data: Vec<(String, Grid)>) -> (r: Result<
    Vec<(String, polars::prelude::DataFrame)>,
    ExcelError,
>)
    requires
        forall|k: int| 0 <= k < data@.len() ==> grid_wf((#[trigger] data@[k]).1),
    ensures
        match r {
            Ok(out) => {
                &&& out@.len() == data@.len()
                &&& forall|k: int|
                    0 <= k < data@.len() ==> (#[trigger] out@[k]).0 == data@[k].0
                &&& forall|k: int|
                    0 <= k < data@.len() ==> sheet_ok(
                        (#[trigger] data@[k]).1.cells@,
                        data@[k].1.column_count as int,
                    )
                &&& forall|k: int|
                    0 <= k < data@.len() ==> df_cols((#[trigger] out@[k]).1) == table_spec(
                        data@[k].1.cells@,
                        data@[k].1.column_count as nat,
                    )
            },
            Err(e) => exists|k: int| first_sheet_err(data@, k, e),
        },
{
    let n = data.len();
    let mut out: Vec<(String, polars::prelude::DataFrame)> = Vec::new();
    let mut k: usize = 0;
    while k < n
        invariant
            k <= n,
            n == data@.len(),
            out@.len() == k,
            forall|j: int| 0 <= j < n ==> grid_wf((#[trigger] data@[j]).1),
            forall|j: int| 0 <= j < k ==> (#[trigger] out@[j]).0 == data@[j].0,
            forall|j: int|
                0 <= j < k ==> sheet_ok(
                    (#[trigger] data@[j]).1.cells@,
                    data@[j].1.column_count as int,
                ),
            forall|j: int|
                0 <= j < k ==> df_cols((#[trigger] out@[j]).1) == table_spec(
                    data@[j].1.cells@,
                    data@[j].1.column_count as nat,
                ),
        decreases n - k,
    {
        let name = data[k].0.clone();
        match process_single_sheet(&data[k].1) {
            Ok(df) => {
                out.push((name, df));
            },
            Err(e) => {
                proof {
                    assert(first_sheet_err(data@, k as int, e));
                }
                return Err(e);
            },
        }
        k += 1;
    }
    Ok(out)
}

/// Turns the selected grids into the final result, keeping the shape the
/// selection asked for: one grid yields one table, name-keyed grids yield
/// name-keyed tables even where only one name was selected.
pub fn sheet_data_to_dataframe(sheetdata: SheetData) -> (r: Result<ExcelDataFrame, ExcelError>)
    requires
        sheet_data_wf(sheetdata),
    ensures
        result_view_ok(sheetdata, r),
{
    match sheetdata {
        SheetData::SingleSheet(sheet) => match process_single_sheet(&sheet) {
            Ok(df) => Ok(ExcelDataFrame::SingleSheet(df)),
            Err(e) => Err(e),
        },
        SheetData::MultiSheet(sheets) => match process_multi_sheet(sheets) {
            Ok(out) => Ok(ExcelDataFrame::MultiSheet(out)),
            Err(e) => Err(e),
        },
    }
}

/// Machine limit on the selected grids, as `grid_wf` states it per grid.
pub open spec fn sheet_data_wf(sd: SheetData) -> bool {
    match sd {
        SheetData::SingleSheet(g) => grid_wf(g),
        SheetData::MultiSheet(v) => forall|k: int|
            0 <= k < v@.len() ==> grid_wf((#[trigger] v@[k]).1),
    }
}

/// What the final result owes the selected grids: the transformed tables in
/// the selection's shape, or the first sheet's owed error.
pub open spec fn result_view_ok(sd: SheetData, r: Result<ExcelDataFrame, ExcelError>) -> bool {
    match sd {
        SheetData::SingleSheet(g) => match r {
            Ok(ExcelDataFrame::SingleSheet(df)) => {
                &&& sheet_ok(g.cells@, g.column_count as int)
                &&& df_cols(df) == table_spec(g.cells@, g.column_count as nat)
            },
            Ok(_) => false,
            Err(e) => {
                &&& !sheet_ok(g.cells@, g.column_count as int)
                &&& sheet_err_ok(g.cells@, g.column_count as int, e)
            },
        },
        SheetData::MultiSheet(v) => match r {
            Ok(ExcelDataFrame::MultiSheet(out)) => {
                &&& out@.len() == v@.len()
                &&& forall|k: int| 0 <= k < v@.len() ==> (#[trigger] out@[k]).0 == v@[k].0
                &&& forall|k: int|
                    0 <= k < v@.len() ==> sheet_ok(
                        (#[trigger] v@[k]).1.cells@,
                        v@[k].1.column_count as int,
                    )
                &&& forall|k: int|
                    0 <= k < v@.len() ==> df_cols((#[trigger] out@[k]).1) == table_spec(
                        v@[k].1.cells@,
                        v@[k].1.column_count as nat,
                    )
            },
            Ok(_) => false,
            Err(e) => exists|k: int| first_sheet_err(v@, k, e),
        },
    }
}

/// Sheet `k` is the least of the selected sheets that owes an error, and
/// `e` is the error it owes.
pub open spec fn first_sheet_err(v: Seq<(String, Grid)>, k: int, e: ExcelError) -> bool {
    &&& 0 <= k < v.len()
    &&& sheet_err_ok(v[k].1.cells@, v[k].1.column_count as int, e)
    &&& forall|j: int|
        0 <= j < k ==> sheet_ok((#[trigger] v[j]).1.cells@, v[j].1.column_count as int)
}

/// Spec view of a finished result: the tables' names and contents, in the
/// selection's shape.
pub ghost enum ResultSetView {
    Single(Seq<(Seq<char>, Seq<Option<Seq<char>>>)>),
    Multi(Seq<(Seq<char>, Seq<(Seq<char>, Seq<Option<Seq<char>>>)>)>),
}

pub open spec fn edf_view(r: ExcelDataFrame) -> ResultSetView {
    match r {
        ExcelDataFrame::SingleSheet(df) => ResultSetView::Single(df_cols(df)),
        ExcelDataFrame::MultiSheet(v) => ResultSetView::Multi(
            v@.map_values(|p: (String, polars::prelude::DataFrame)| (p.0@, df_cols(p.1))),
        ),
    }
}

/// Shape preservation: a transformed grid yields exactly one table column
/// per header column, and every table column holds exactly one value per
/// data row (all the grid's rows but the header row).
pub proof fn lemma_table_shape(cells: Seq<(usize, usize, Cell)>, count: nat)
    ensures
        table_spec(cells, count).len() == count,
        forall|c: int|
            0 <= c < count ==> (#[trigger] table_spec(cells, count)[c]).1.len() == data_rows(
                cells,
                count as int,
            ),
{
}

proof fn lemma_sheet_err_not_ok(cells: Seq<(usize, usize, Cell)>, count: int, e: ExcelError)
    requires
        sheet_err_ok(cells, count, e),
    ensures
        !sheet_ok(cells, count),
{
    match e {
        ExcelError::EmptyHeaderCell(c) => {
            assert(headers_ok(cells, count) ==> header_ok(cells, c as int));
        },
        ExcelError::DuplicateHeaderName(s) => {
            let c = choose|c: int| first_dup_at(cells, count, c, s@);
            let c2 = choose|c2: int|
                0 <= c2 < c && column_name_spec(cells, c2) == column_name_spec(cells, c);
            assert(names_unique(cells, count) ==> column_name_spec(cells, c2)
                != column_name_spec(cells, c));
        },
        _ => {},
    }
}

proof fn lemma_sheet_err_unique(
    cells: Seq<(usize, usize, Cell)>,
    count: int,
    e1: ExcelError,
    e2: ExcelError,
)
    requires
        sheet_err_ok(cells, count, e1),
        sheet_err_ok(cells, count, e2),
    ensures
        error_view(e1) == error_view(e2),
{
    match (e1, e2) {
        (ExcelError::EmptyHeaderCell(a), ExcelError::EmptyHeaderCell(b)) => {
            if a < b {
                assert(header_ok(cells, a as int));
            }
            if b < a {
                assert(header_ok(cells, b as int));
            }
        },
        (ExcelError::EmptyHeaderCell(a), ExcelError::DuplicateHeaderName(_)) => {
            assert(header_ok(cells, a as int));
        },
        (ExcelError::DuplicateHeaderName(_), ExcelError::EmptyHeaderCell(b)) => {
            assert(header_ok(cells, b as int));
        },
        (ExcelError::DuplicateHeaderName(s1), ExcelError::DuplicateHeaderName(s2)) => {
            let ca = choose|c: int| first_dup_at(cells, count, c, s1@);
            let cb = choose|c: int| first_dup_at(cells, count, c, s2@);
            if ca < cb {
                let ca2 = choose|c2: int|
                    0 <= c2 < ca && column_name_spec(cells, c2) == column_name_spec(cells, ca);
                assert(column_name_spec(cells, ca2) != column_name_spec(cells, ca));
            }
            if cb < ca {
                let cb2 = choose|c2: int|
                    0 <= c2 < cb && column_name_spec(cells, c2) == column_name_spec(cells, cb);
                assert(column_name_spec(cells, cb2) != column_name_spec(cells, cb));
            }
            assert(s1@ == s2@);
        },
        _ => {},
    }
}

/// Idempotence: the result is a function of the selected grids alone. Two
/// results for the same grids agree — either both succeed, with tables of
/// the same shape, the same names and the same contents, or both fail with
/// the same error.
pub proof fn lemma_result_deterministic(
    sd: SheetData,
    r1: Result<ExcelDataFrame, ExcelError>,
    r2: Result<ExcelDataFrame, ExcelError>,
)
    requires
        result_view_ok(sd, r1),
        result_view_ok(sd, r2),
    ensures
        match (r1, r2) {
            (Ok(a), Ok(b)) => edf_view(a) == edf_view(b),
            (Err(e1), Err(e2)) => error_view(e1) == error_view(e2),
            _ => false,
        },
{
    match sd {
        SheetData::SingleSheet(g) => {
            match (r1, r2) {
                (Ok(_), Ok(_)) => {
                },
                (Ok(_), Err(e2)) => {
                    lemma_sheet_err_not_ok(g.cells@, g.column_count as int, e2);
                },
                (Err(e1), Ok(_)) => {
                    lemma_sheet_err_not_ok(g.cells@, g.column_count as int, e1);
                },
                (Err(e1), Err(e2)) => {
                    lemma_sheet_err_unique(g.cells@, g.column_count as int, e1, e2);
                },
            }
        },
        SheetData::MultiSheet(v) => {
            match (r1, r2) {
                (Ok(a), Ok(b)) => {
                    match (a, b) {
                        (ExcelDataFrame::MultiSheet(out1), ExcelDataFrame::MultiSheet(out2)) => {
                            assert(out1@.map_values(
                                |p: (String, polars::prelude::DataFrame)| (p.0@, df_cols(p.1)),
                            ) =~= out2@.map_values(
                                |p: (String, polars::prelude::DataFrame)| (p.0@, df_cols(p.1)),
                            ));
                        },
                        _ => {
                        },
                    }
                },
                (Ok(_), Err(e2)) => {
                    let k = choose|k: int| first_sheet_err(v@, k, e2);
                    lemma_sheet_err_not_ok(v@[k].1.cells@, v@[k].1.column_count as int, e2);
                },
                (Err(e1), Ok(_)) => {
                    let k = choose|k: int| first_sheet_err(v@, k, e1);
                    lemma_sheet_err_not_ok(v@[k].1.cells@, v@[k].1.column_count as int, e1);
                },
                (Err(e1), Err(e2)) => {
                    let k1 = choose|k: int| first_sheet_err(v@, k, e1);
                    let k2 = choose|k: int| first_sheet_err(v@, k, e2);
                    if k1 < k2 {
                        lemma_sheet_err_not_ok(v@[k1].1.cells@, v@[k1].1.column_count as int, e1);
                        assert(sheet_ok(v@[k1].1.cells@, v@[k1].1.column_count as int));
                    }
                    if k2 < k1 {
                        lemma_sheet_err_not_ok(v@[k2].1.cells@, v@[k2].1.column_count as int, e2);
                        assert(sheet_ok(v@[k2].1.cells@, v@[k2].1.column_count as int));
                    }
                    lemma_sheet_err_unique(
                        v@[k1].1.cells@,
                        v@[k1].1.column_count as int,
                        e1,
                        e2,
                    );
                },
            }
        },
    }
}

/// Shape preservation at the aggregator, mapping half: a set-of-one-name
/// selection keeps the mapping shape. With the selected grid transformable
/// (every header named, names pairwise distinct), the result is the
/// name-keyed collection holding exactly that name with the grid's table —
/// never the bare single table.
pub proof fn lemma_set_of_one_name_shape(
    name: String,
    g: Grid,
    v: Vec<(String, Grid)>,
    r: Result<ExcelDataFrame, ExcelError>,
)
    requires
        v@ == seq![(name, g)],
        sheet_ok(g.cells@, g.column_count as int),
        result_view_ok(SheetData::MultiSheet(v), r),
    ensures
        r matches Ok(out) && out matches ExcelDataFrame::MultiSheet(ts) && ts@.len() == 1
            && ts@[0].0 == name && df_cols(ts@[0].1) == table_spec(
            g.cells@,
            g.column_count as nat,
        ),
{
    assert(v@[0] == (name, g));
    match r {
        Ok(_) => {
        },
        Err(e) => {
            let k = choose|k: int| first_sheet_err(v@, k, e);
            lemma_sheet_err_not_ok(v@[k].1.cells@, v@[k].1.column_count as int, e);
        },
    }
}

/// Shape preservation at the aggregator, single half: a bare-name selection
/// yields the bare single table of the grid's transform, never the mapping
/// shape. The grid is assumed transformable, as above.
pub proof fn lemma_bare_name_shape(g: Grid, r: Result<ExcelDataFrame, ExcelError>)
    requires
        sheet_ok(g.cells@, g.column_count as int),
        result_view_ok(SheetData::SingleSheet(g), r),
    ensures
        r matches Ok(out) && out matches ExcelDataFrame::SingleSheet(df) && df_cols(df)
            == table_spec(g.cells@, g.column_count as nat),
{
    match r {
        Ok(_) => {
        },
        Err(e) => {
            lemma_sheet_err_not_ok(g.cells@, g.column_count as int, e);
        },
    }
}

} // verus!
