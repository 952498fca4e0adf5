use excel_frames::cells::Cell;
use excel_frames::errors::ExcelError;
use excel_frames::frame::{df_cell, df_column_height, df_column_name, df_width};
use excel_frames::grid::Grid;
use excel_frames::transform::{
    process_multi_sheet, process_single_sheet, sheet_data_to_dataframe, ExcelDataFrame, SheetData,
};

fn text(s: &str) -> Cell {
    Cell::Text(s.to_string())
}

fn table_of(df: &polars::prelude::DataFrame) -> Vec<(String, Vec<Option<String>>)> {
    let mut out = Vec::new();
    for c in 0..df_width(df) {
        let mut values = Vec::new();
        for r in 0..df_column_height(df, c) {
            values.push(df_cell(df, c, r));
        }
        out.push((df_column_name(df, c), values));
    }
    out
}

fn name_age_grid() -> Grid {
    Grid {
        column_count: 2,
        cells: vec![
            (0, 0, text("Name")),
            (0, 1, text("Age")),
            (1, 0, text("Alice")),
            (1, 1, text("30")),
            (2, 0, text("Bob")),
            (2, 1, text("25")),
        ],
    }
}

#[test]
fn scenario_name_age_table() {
    let df = process_single_sheet(&name_age_grid()).unwrap();
    assert_eq!(
        table_of(&df),
        vec![
            (
                "Name".to_string(),
                vec![Some("Alice".to_string()), Some("Bob".to_string())]
            ),
            (
                "Age".to_string(),
                vec![Some("30".to_string()), Some("25".to_string())]
            ),
        ]
    );
}

#[test]
fn index_zero_of_two_sheets_yields_first_table() {
    let sd = SheetData::SingleSheet(name_age_grid());
    match sheet_data_to_dataframe(sd).unwrap() {
        ExcelDataFrame::SingleSheet(df) => {
            assert_eq!(df_width(&df), 2);
            assert_eq!(df_column_name(&df, 0), "Name");
            assert_eq!(df_cell(&df, 0, 1), Some("Bob".to_string()));
        }
        ExcelDataFrame::MultiSheet(_) => panic!("single selection must yield a single table"),
    }
}

#[test]
fn one_sheet_set_keeps_mapping_shape() {
    let sd = SheetData::MultiSheet(vec![("Sheet1".to_string(), name_age_grid())]);
    match sheet_data_to_dataframe(sd).unwrap() {
        ExcelDataFrame::MultiSheet(tables) => {
            assert_eq!(tables.len(), 1);
            assert_eq!(tables[0].0, "Sheet1");
            assert_eq!(df_width(&tables[0].1), 2);
        }
        ExcelDataFrame::SingleSheet(_) => panic!("set selection must yield the mapping shape"),
    }
}

#[test]
fn shape_one_column_per_header_one_value_per_data_row() {
    let df = process_single_sheet(&name_age_grid()).unwrap();
    assert_eq!(df_width(&df), 2);
    for c in 0..2 {
        assert_eq!(df_column_height(&df, c), 2);
    }
}

#[test]
fn sparse_grid_pads_missing_cells_to_null() {
    // Column 1 has no cells below the header: every slot is padded, so both
    // columns still hold one value per data row.
    let g = Grid {
        column_count: 2,
        cells: vec![
            (0, 0, text("A")),
            (0, 1, text("B")),
            (1, 0, text("x")),
            (2, 0, text("y")),
        ],
    };
    let df = process_single_sheet(&g).unwrap();
    assert_eq!(
        table_of(&df),
        vec![
            (
                "A".to_string(),
                vec![Some("x".to_string()), Some("y".to_string())]
            ),
            ("B".to_string(), vec![None, None]),
        ]
    );
}

#[test]
fn empty_cell_yields_null_not_a_word() {
    let g = Grid {
        column_count: 1,
        cells: vec![(0, 0, text("A")), (1, 0, Cell::Empty)],
    };
    let df = process_single_sheet(&g).unwrap();
    assert_eq!(df_cell(&df, 0, 0), None);
}

#[test]
fn integer_and_boolean_cells_through_the_transform() {
    let g = Grid {
        column_count: 2,
        cells: vec![
            (0, 0, text("N")),
            (0, 1, text("B")),
            (1, 0, Cell::Integer(42)),
            (1, 1, Cell::Boolean(true)),
        ],
    };
    let df = process_single_sheet(&g).unwrap();
    assert_eq!(df_cell(&df, 0, 0), Some("42".to_string()));
    assert_eq!(df_cell(&df, 1, 0), Some("true".to_string()));
}

#[test]
fn empty_header_cell_fails_with_column_index() {
    let g = Grid {
        column_count: 2,
        cells: vec![(0, 0, text("A")), (0, 1, Cell::Empty), (1, 1, text("v"))],
    };
    assert_eq!(
        process_single_sheet(&g),
        Err(ExcelError::EmptyHeaderCell(1))
    );
}

#[test]
fn absent_header_cell_fails_like_an_empty_one() {
    let g = Grid {
        column_count: 3,
        cells: vec![(0, 0, text("A")), (0, 1, text("B"))],
    };
    assert_eq!(
        process_single_sheet(&g),
        Err(ExcelError::EmptyHeaderCell(2))
    );
}

#[test]
fn duplicate_header_names_fail_fast() {
    let g = Grid {
        column_count: 3,
        cells: vec![
            (0, 0, text("A")),
            (0, 1, text("B")),
            (0, 2, text("A")),
            (1, 0, text("x")),
        ],
    };
    assert_eq!(
        process_single_sheet(&g),
        Err(ExcelError::DuplicateHeaderName("A".to_string()))
    );
}

#[test]
fn multi_sheet_aborts_on_first_failing_sheet() {
    let bad = Grid {
        column_count: 1,
        cells: vec![(1, 0, text("orphan"))],
    };
    let r = process_multi_sheet(vec![
        ("S1".to_string(), name_age_grid()),
        ("S2".to_string(), bad),
    ]);
    assert_eq!(r, Err(ExcelError::EmptyHeaderCell(0)));
}

#[test]
fn transform_is_idempotent_on_equal_grids() {
    let df1 = process_single_sheet(&name_age_grid()).unwrap();
    let df2 = process_single_sheet(&name_age_grid()).unwrap();
    assert_eq!(table_of(&df1), table_of(&df2));
}

#[test]
fn header_only_grid_yields_empty_columns() {
    let g = Grid {
        column_count: 1,
        cells: vec![(0, 0, text("A"))],
    };
    let df = process_single_sheet(&g).unwrap();
    assert_eq!(table_of(&df), vec![("A".to_string(), vec![])]);
}

#[test]
fn out_of_range_columns_are_ignored() {
    // Stray cells at column index 5 lie past the header's width and must
    // not show up in the table — not even the one at row 7, far below the
    // last in-range row: it contributes no rows either.
    let g = Grid {
        column_count: 1,
        cells: vec![
            (0, 0, text("A")),
            (1, 0, text("x")),
            (1, 5, text("stray")),
            (7, 5, text("stray below")),
        ],
    };
    let df = process_single_sheet(&g).unwrap();
    assert_eq!(
        table_of(&df),
        vec![("A".to_string(), vec![Some("x".to_string())])]
    );
}

#[test]
fn out_of_range_cell_adds_no_rows() {
    // The only cell below the header is out of range; the single in-range
    // column therefore has no data rows at all.
    let g = Grid {
        column_count: 1,
        cells: vec![(0, 0, text("A")), (2, 1, text("x"))],
    };
    let df = process_single_sheet(&g).unwrap();
    assert_eq!(table_of(&df), vec![("A".to_string(), vec![])]);
}
