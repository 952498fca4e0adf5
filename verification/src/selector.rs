use vstd::prelude::*;
use crate::errors::{ExcelError, SheetKey};

verus! {

/// A name-based sheet request: one sheet by name, or a set of sheets by
/// name. The set keeps the mapping result shape even with one element.
#[derive(Debug)]
pub enum SheetName<'a> {
    Name(&'a str),
    Names(Vec<&'a str>),
}

/// An index-based sheet request: one sheet by position, or a set of sheets
/// by position. The set keeps the mapping result shape even with one
/// element.
#[derive(Debug)]
pub enum SheetIndex {
    Index(usize),
    Indices(Vec<usize>),
}

/// The concrete sheet names a request resolved to, in request order,
/// carrying the request's cardinality: a single sheet or a name-keyed set.
#[derive(Debug, Clone, PartialEq, Eq)]
pub enum ResolvedSelection {
    Single(String),
    Multi(Vec<String>),
}

/// Spec view of a name-based request.
pub ghost enum NameSel {
    One(Seq<char>),
    Many(Seq<Seq<char>>),
}

/// Spec view of an index-based request.
pub ghost enum IndexSel {
    One(usize),
    Many(Seq<usize>),
}

/// Spec view of a resolution outcome.
pub ghost enum Resolution {
    Single(Seq<char>),
    Multi(Seq<Seq<char>>),
    Fail(ExcelError),
}

pub open spec fn name_sel_view(s: SheetName<'_>) -> NameSel {
    match s {
        SheetName::Name(n) => NameSel::One(n@),
        SheetName::Names(v) => NameSel::Many(v@.map_values(|x: &str| x@)),
    }
}

pub open spec fn opt_name_view(s: Option<SheetName<'_>>) -> Option<NameSel> {
    match s {
        Option::None => None,
        Option::Some(x) => Some(name_sel_view(x)),
    }
}

pub open spec fn index_sel_view(s: SheetIndex) -> IndexSel {
    match s {
        SheetIndex::Index(i) => IndexSel::One(i),
        SheetIndex::Indices(v) => IndexSel::Many(v@),
    }
}

pub open spec fn opt_index_view(s: Option<SheetIndex>) -> Option<IndexSel> {
    match s {
        Option::None => None,
        Option::Some(x) => Some(index_sel_view(x)),
    }
}

/// The views of the workbook's sheet names.
pub open spec fn name_views(names: Seq<String>) -> Seq<Seq<char>> {
    names.map_values(|s: String| s@)
}

pub open spec fn selection_view(r: ResolvedSelection) -> Resolution {
    match r {
        ResolvedSelection::Single(s) => Resolution::Single(s@),
        ResolvedSelection::Multi(v) => Resolution::Multi(v@.map_values(|s: String| s@)),
    }
}

pub open spec fn resolution_of(r: Result<ResolvedSelection, ExcelError>) -> Resolution {
    match r {
        Ok(sel) => selection_view(sel),
        Err(e) => Resolution::Fail(e),
    }
}

/// Positional lookup of each requested index, left to right: the selected
/// names in request order, or the first out-of-range index.
pub open spec fn resolve_indices_spec(names: Seq<Seq<char>>, v: Seq<usize>) -> Result<
    Seq<Seq<char>>,
    usize,
>
    decreases v.len(),
{
    if v.len() == 0 {
        Ok(Seq::empty())
    } else if v[0] >= names.len() {
        Err(v[0])
    } else {
        match resolve_indices_spec(names, v.drop_first()) {
            Ok(rest) => Ok(seq![names[v[0] as int]] + rest),
            Err(i) => Err(i),
        }
    }
}

/// The selection policy. An index-based request takes precedence and
/// resolves positionally, failing on an out-of-range index; a name-based
/// request passes its names through verbatim (an unknown name surfaces at
/// grid-load time); no request selects exactly the first sheet, which an
/// empty workbook does not have. Supplying both kinds of request is
/// invalid, whatever either would resolve to.
pub open spec fn resolve_spec(
    names: Seq<Seq<char>>,
    nsel: Option<NameSel>,
    isel: Option<IndexSel>,
) -> Resolution {
    if nsel is Some && isel is Some {
        Resolution::Fail(ExcelError::InvalidSelection)
    } else {
        match isel {
            Option::Some(IndexSel::One(i)) => {
                if (i as int) < names.len() {
                    Resolution::Single(names[i as int])
                } else {
                    Resolution::Fail(ExcelError::SheetNotFound(SheetKey::ByIndex(i)))
                }
            },
            Option::Some(IndexSel::Many(v)) => {
                match resolve_indices_spec(names, v) {
                    Ok(resolved) => Resolution::Multi(resolved),
                    Err(i) => Resolution::Fail(ExcelError::SheetNotFound(SheetKey::ByIndex(i))),
                }
            },
            Option::None => match nsel {
                Option::Some(NameSel::One(n)) => Resolution::Single(n),
                Option::Some(NameSel::Many(v)) => Resolution::Multi(v),
                Option::None => {
                    if names.len() > 0 {
                        Resolution::Single(names[0])
                    } else {
                        Resolution::Fail(ExcelError::SheetNotFound(SheetKey::ByIndex(0)))
                    }
                },
            },
        }
    }
}

proof fn lemma_resolve_indices_ok(names: Seq<Seq<char>>, v: Seq<usize>)
    requires
        forall|j: int| 0 <= j < v.len() ==> (#[trigger] v[j]) < names.len(),
    ensures
        resolve_indices_spec(names, v) == Ok::<Seq<Seq<char>>, usize>(
            Seq::new(v.len(), |j: int| names[v[j] as int]),
        ),
    decreases v.len(),
{
    if v.len() == 0 {
        assert(Seq::new(v.len(), |j: int| names[v[j] as int]) =~= Seq::empty());
    } else {
        assert(forall|j: int|
            0 <= j < v.drop_first().len() ==> (#[trigger] v.drop_first()[j]) == v[j + 1]);
        lemma_resolve_indices_ok(names, v.drop_first());
        assert(seq![names[v[0] as int]] + Seq::new(
            v.drop_first().len(),
            |j: int| names[v.drop_first()[j] as int],
        ) =~= Seq::new(v.len(), |j: int| names[v[j] as int]));
    }
}

proof fn lemma_resolve_indices_err(names: Seq<Seq<char>>, v: Seq<usize>, k: int)
    requires
        0 <= k < v.len(),
        v[k] >= names.len(),
        forall|j: int| 0 <= j < k ==> (#[trigger] v[j]) < names.len(),
    ensures
        resolve_indices_spec(names, v) == Err::<Seq<Seq<char>>, usize>(v[k]),
    decreases k,
{
    if k == 0 {
    } else {
        assert(forall|j: int|
            0 <= j < v.drop_first().len() ==> (#[trigger] v.drop_first()[j]) == v[j + 1]);
        lemma_resolve_indices_err(names, v.drop_first(), k - 1);
    }
}

/// Resolves a selection request against the workbook's ordered sheet names,
/// exactly as `resolve_spec` states it.
#[verifier::loop_isolation(false)]
pub fn resolve_selection<'a>(
    names: &Vec<String>,
    sheet_name: Option<SheetName<'a>>,
    sheet_index: Option<SheetIndex>,
) -> (r: Result<ResolvedSelection, ExcelError>)
    ensures
        resolution_of(r) == resolve_spec(
            name_views(names@),
            opt_name_view(sheet_name),
            opt_index_view(sheet_index),
        ),
{
    if sheet_name.is_some() && sheet_index.is_some() {
        return Err(ExcelError::InvalidSelection);
    }
    match sheet_index {
        Option::Some(SheetIndex::Index(i)) => {
            if i < names.len() {
                Ok(ResolvedSelection::Single(names[i].clone()))
            } else {
                Err(ExcelError::SheetNotFound(SheetKey::ByIndex(i)))
            }
        },
        Option::Some(SheetIndex::Indices(v)) => {
            let n = v.len();
            let mut out: Vec<String> = Vec::new();
            let mut k: usize = 0;
            while k < n
                invariant
                    k <= n,
                    n == v@.len(),
                    out@.len() == k,
                    forall|j: int| 0 <= j < k ==> (#[trigger] v@[j]) < names@.len(),
                    forall|j: int|
                        0 <= j < k ==> (#[trigger] out@[j])@ == names@[v@[j] as int]@,
                decreases n - k,
            {
                let idx = v[k];
                if idx >= names.len() {
                    proof {
                        lemma_resolve_indices_err(name_views(names@), v@, k as int);
                    }
                    return Err(ExcelError::SheetNotFound(SheetKey::ByIndex(idx)));
                }
                out.push(names[idx].clone());
                k += 1;
            }
            proof {
                lemma_resolve_indices_ok(name_views(names@), v@);
                assert(out@.map_values(|s: String| s@) =~= Seq::new(
                    v@.len(),
                    |j: int| name_views(names@)[v@[j] as int],
                ));
            }
            Ok(ResolvedSelection::Multi(out))
        },
        Option::None => match sheet_name {
            Option::Some(SheetName::Name(n)) => Ok(ResolvedSelection::Single(n.to_owned())),
            Option::Some(SheetName::Names(v)) => {
                let n = v.len();
                let mut out: Vec<String> = Vec::new();
                let mut k: usize = 0;
                while k < n
                    invariant
                        k <= n,
                        n == v@.len(),
                        out@.len() == k,
                        forall|j: int| 0 <= j < k ==> (#[trigger] out@[j])@ == v@[j]@,
                    decreases n - k,
                {
                    out.push(v[k].to_owned());
                    k += 1;
                }
                proof {
                    assert(out@.map_values(|s: String| s@) =~= v@.map_values(|x: &str| x@));
                }
                Ok(ResolvedSelection::Multi(out))
            },
            Option::None => {
                if names.len() > 0 {
                    Ok(ResolvedSelection::Single(names[0].clone()))
                } else {
                    Err(ExcelError::SheetNotFound(SheetKey::ByIndex(0)))
                }
            },
        },
    }
}

/// A request with both a name-based and an index-based selection always
/// fails with `InvalidSelection`, whatever either part would resolve to on
/// its own.
pub proof fn lemma_selection_precedence(names: Seq<Seq<char>>, nsel: NameSel, isel: IndexSel)
    ensures
        resolve_spec(names, Some(nsel), Some(isel)) == Resolution::Fail(
            ExcelError::InvalidSelection,
        ),
{
}

/// An absent selection selects exactly the first sheet: it resolves as
/// selecting index 0 does, and as selecting the first sheet's name does.
pub proof fn lemma_default_selection(names: Seq<Seq<char>>)
    requires
        names.len() > 0,
    ensures
        resolve_spec(names, None, None) == Resolution::Single(names[0]),
        resolve_spec(names, None, None) == resolve_spec(names, None, Some(IndexSel::One(0))),
        resolve_spec(names, None, None) == resolve_spec(names, Some(NameSel::One(names[0])), None),
{
}

/// A set of names keeps the mapping shape even with exactly one element,
/// unlike the bare name, which yields the single-table shape.
pub proof fn lemma_shape_preservation(names: Seq<Seq<char>>, n: Seq<char>)
    ensures
        resolve_spec(names, Some(NameSel::Many(seq![n])), None) == Resolution::Multi(seq![n]),
        resolve_spec(names, Some(NameSel::One(n)), None) == Resolution::Single(n),
{
}

} // verus!
