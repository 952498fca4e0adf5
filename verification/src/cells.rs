use vstd::prelude::*;
use vstd::string::StringExecFns;

verus! {

/// One spreadsheet cell's content, already reduced to plain values.
///
/// The kinds that only an external reader can render faithfully (floating
/// point numbers, date-times, and the reader's unusual variants) are carried
/// as their default textual form, produced by whoever filled the grid; the
/// kinds with an exact in-library rendering (integers, booleans) are carried
/// as values and rendered here.
#[derive(Debug, Clone, PartialEq, Eq)]
pub enum Cell {
    Empty,
    Text(String),
    Number(String),
    Integer(i64),
    Boolean(bool),
    DateTime(String),
    Other(String),
}

/// The decimal digit character for `d` in `0..10`.
pub open spec fn digit_char(d: nat) -> char {
    if d == 0 {
        '0'
    } else if d == 1 {
        '1'
    } else if d == 2 {
        '2'
    } else if d == 3 {
        '3'
    } else if d == 4 {
        '4'
    } else if d == 5 {
        '5'
    } else if d == 6 {
        '6'
    } else if d == 7 {
        '7'
    } else if d == 8 {
        '8'
    } else {
        '9'
    }
}

/// The base-10 digit string of `n`, without sign and without leading zeros
/// (except for `n == 0`, which is written "0").
pub open spec fn dec_digits(n: nat) -> Seq<char>
    decreases n,
{
    if n < 10 {
        seq![digit_char(n)]
    } else {
        dec_digits(n / 10) + seq![digit_char(n % 10)]
    }
}

/// The default base-10 textual form of a signed integer.
pub open spec fn int_text(i: int) -> Seq<char> {
    if i >= 0 {
        dec_digits(i as nat)
    } else {
        seq!['-'] + dec_digits((-i) as nat)
    }
}

/// The textual form of a boolean: "true" or "false".
pub open spec fn bool_text(b: bool) -> Seq<char> {
    if b {
        "true"@
    } else {
        "false"@
    }
}

/// The normalization policy: every cell kind is reduced to at most one
/// string. An empty cell has no text at all (it is absent, not the empty
/// string); the textual kinds keep their text unmodified.
pub open spec fn cell_text(c: Cell) -> Option<Seq<char>> {
    match c {
        Cell::Empty => None,
        Cell::Text(s) => Some(s@),
        Cell::Number(s) => Some(s@),
        Cell::Integer(i) => Some(int_text(i as int)),
        Cell::Boolean(b) => Some(bool_text(b)),
        Cell::DateTime(s) => Some(s@),
        Cell::Other(s) => Some(s@),
    }
}

/// The view of an optional string as an optional character sequence.
pub open spec fn opt_text(o: Option<String>) -> Option<Seq<char>> {
    match o {
        Option::None => None,
        Option::Some(s) => Some(s@),
    }
}

/// The views of a sequence of optional strings.
pub open spec fn opt_texts(s: Seq<Option<String>>) -> Seq<Option<Seq<char>>> {
    s.map_values(|o: Option<String>| opt_text(o))
}

fn digit_str(d: u64) -> (r: &'static str)
    requires
        d < 10,
    ensures
        r@ == seq![digit_char(d as nat)],
{
    let r: &'static str = match d {
        0 => "0",
        1 => "1",
        2 => "2",
        3 => "3",
        4 => "4",
        5 => "5",
        6 => "6",
        7 => "7",
        8 => "8",
        _ => "9",
    };
    proof {
        reveal_strlit("0");
        reveal_strlit("1");
        reveal_strlit("2");
        reveal_strlit("3");
        reveal_strlit("4");
        reveal_strlit("5");
        reveal_strlit("6");
        reveal_strlit("7");
        reveal_strlit("8");
        reveal_strlit("9");
        assert(r@ =~= seq![digit_char(d as nat)]);
    }
    r
}

/// Renders an unsigned integer in its default base-10 form.
pub fn u64_to_string(n: u64) -> (r: String)
    ensures
        r@ == dec_digits(n as nat),
    decreases n,
{
    if n < 10 {
        String::from_str(digit_str(n))
    } else {
        let mut s = u64_to_string(n / 10);
        s.append(digit_str(n % 10));
        proof {
            assert(s@ =~= dec_digits(n as nat));
        }
        s
    }
}

/// Renders a signed integer in its default base-10 form: a minus sign for a
/// negative value, then the digits of its magnitude.
pub fn i64_to_string(i: i64) -> (r: String)
    ensures
        r@ == int_text(i as int),
{
    if i >= 0 {
        u64_to_string(i as u64)
    } else {
        let mag: u64 = if i == i64::MIN {
            9223372036854775808u64
        } else {
            (-i) as u64
        };
        proof {
            assert(mag as int == -(i as int));
        }
        let mut s = String::from_str("-");
        let digits = u64_to_string(mag);
        s.append(digits.as_str());
        proof {
            reveal_strlit("-");
            assert(s@ =~= int_text(i as int));
        }
        s
    }
}

/// Normalizes one cell to its optional textual form, exactly as `cell_text`
/// states it.
pub fn normalize_cell(c: &Cell) -> (r: Option<String>)
    ensures
        opt_text(r) == cell_text(*c),
{
    match c {
        Cell::Empty => None,
        Cell::Text(s) => Some(s.clone()),
        Cell::Number(s) => Some(s.clone()),
        Cell::Integer(i) => Some(i64_to_string(*i)),
        Cell::Boolean(b) => {
            if *b {
                Some(String::from_str("true"))
            } else {
                Some(String::from_str("false"))
            }
        },
        Cell::DateTime(s) => Some(s.clone()),
        Cell::Other(s) => Some(s.clone()),
    }
}

} // verus!
