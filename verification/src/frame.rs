use vstd::prelude::*;
use polars::prelude::IntoColumn;
use polars::prelude::NamedFrom;

verus! {

/// No function here returns this type; the declaration exists because the
/// verifier, once `Column` is declared, reads the operator impls polars
/// gives that type, whose results mention `PolarsError` — without the
/// declaration it refuses the crate.
#[verifier::external_type_specification]
#[verifier::external_body]
pub struct ExPolarsError(polars::prelude::PolarsError);

#[verifier::external_type_specification]
#[verifier::external_body]
pub struct ExColumn(polars::prelude::Column);

#[verifier::external_type_specification]
#[verifier::external_body]
pub struct ExDataFrame(polars::prelude::DataFrame);

/// The name a dataframe column carries.
pub uninterp spec fn col_name(c: polars::prelude::Column) -> Seq<char>;

/// The optional string values a dataframe column holds, in order.
pub uninterp spec fn col_values(c: polars::prelude::Column) -> Seq<Option<Seq<char>>>;

/// The named columns a dataframe holds, in order: each column's name paired
/// with its values.
pub uninterp spec fn df_cols(d: polars::prelude::DataFrame) -> Seq<
    (Seq<char>, Seq<Option<Seq<char>>>),
>;

/// Relies on polars `Series::new` (through `NamedFrom` for `Vec<Option<String>>`)
/// and `IntoColumn`: the column built holds exactly the given name and, in
/// order, the given optional string values.
#[verifier::external_body]
pub(crate) fn column_from_values(name: &str, values: Vec<Option<String>>) -> (r:
    polars::prelude::Column)
    ensures
        col_name(r) == name@,
        col_values(r) == crate::cells::opt_texts(values@),
{
    polars::series::Series::new(name.into(), values).into_column()
}

/// Relies on polars `DataFrame::new_infer_height`: with columns of pairwise
/// equal heights and pairwise distinct names its validation passes and the
/// frame holds exactly those columns in order.
#[verifier::external_body]
pub(crate) fn df_from_columns(columns: Vec<polars::prelude::Column>) -> (r:
    polars::prelude::DataFrame)
    requires
        forall|i: int, j: int|
            0 <= i < columns@.len() && 0 <= j < columns@.len() ==> #[trigger] col_values(
                columns@[i],
            ).len() == #[trigger] col_values(columns@[j]).len(),
        forall|i: int, j: int|
            0 <= i < j < columns@.len() ==> col_name(#[trigger] columns@[i]) != col_name(
                #[trigger] columns@[j],
            ),
    ensures
        df_cols(r) == columns@.map_values(
            |c: polars::prelude::Column| (col_name(c), col_values(c)),
        ),
{
    polars::prelude::DataFrame::new_infer_height(columns).unwrap()
}

/// Relies on polars `DataFrame::width`: the number of columns.
#[verifier::external_body]
pub fn df_width(d: &polars::prelude::DataFrame) -> (r: usize)
    ensures
        r == df_cols(*d).len(),
{
    d.width()
}

/// Relies on polars `DataFrame::columns` and `Column::name`: the name of
/// the column at position `i`.
#[verifier::external_body]
pub fn df_column_name(d: &polars::prelude::DataFrame, i: usize) -> (r: String)
    requires
        i < df_cols(*d).len(),
    ensures
        r@ == df_cols(*d)[i as int].0,
{
    d.columns()[i].name().as_str().to_owned()
}

/// Relies on polars `DataFrame::columns` and `Column::len`: the number of
/// values the column at position `i` holds.
#[verifier::external_body]
pub fn df_column_height(d: &polars::prelude::DataFrame, i: usize) -> (r: usize)
    requires
        i < df_cols(*d).len(),
    ensures
        r == df_cols(*d)[i as int].1.len(),
{
    d.columns()[i].len()
}

/// Relies on polars `DataFrame::columns` and `Column::get`: the value at
/// row `row` of the column at position `i`, with a null cell read as nothing.
#[verifier::external_body]
pub fn df_cell(d: &polars::prelude::DataFrame, i: usize, row: usize) -> (r: Option<String>)
    requires
        i < df_cols(*d).len(),
        row < df_cols(*d)[i as int].1.len(),
    ensures
        crate::cells::opt_text(r) == df_cols(*d)[i as int].1[row as int],
{
    match d.columns()[i].get(row).unwrap() {
        polars::prelude::AnyValue::String(s) => Some(s.to_owned()),
        polars::prelude::AnyValue::StringOwned(s) => Some(s.to_string()),
        _ => None,
    }
}

} // verus!
