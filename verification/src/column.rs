//! Naming a column: by the text of its header cell, or by its position.

use crate::file_handling::Table;
use crate::text::{decimal_of, decimal_text, i32_value, lemma_numeral_round_trip, numeral, parse_i32, unsigned_part};
use vstd::prelude::*;
use vstd::string::*;

verus! {

/// What a user writes to pick a column: a name, or a number.
#[derive(Debug, PartialEq, Eq, Clone)]
pub enum StringOrNumber {
    String(String),
    Number(i32),
}

/// A `StringOrNumber` as contracts speak of it.
pub enum ColumnId {
    Name(Seq<char>),
    Position(int),
}

impl ColumnId {
    /// The identifier as text: a name as it is, a number in decimal.
    pub open spec fn text(self) -> Seq<char> {
        match self {
            ColumnId::Name(name) => name,
            ColumnId::Position(n) => decimal_text(n),
        }
    }
}

impl View for StringOrNumber {
    type V = ColumnId;

    open spec fn view(&self) -> ColumnId {
        match self {
            StringOrNumber::String(name) => ColumnId::Name(name@),
            StringOrNumber::Number(n) => ColumnId::Position(*n as int),
        }
    }
}

/// The identifier that a piece of user input stands for: a number where the
/// input reads as an `i32`, else the input as a name.
pub open spec fn identify(input: Seq<char>) -> ColumnId {
    match i32_value(input) {
        Some(n) => ColumnId::Position(n as int),
        None => ColumnId::Name(input),
    }
}

/// Where in `header` the column named by `id` sits. A name picks the first
/// header cell that equals it. A number is a position counted from 0, and
/// never a name: it picks a column only if the header is that long.
pub open spec fn position_of(header: Seq<Seq<char>>, id: ColumnId) -> Option<int> {
    match id {
        ColumnId::Name(name) => header.index_of_first(name),
        ColumnId::Position(n) => if 0 <= n < header.len() {
            Some(n)
        } else {
            None
        },
    }
}

/// A number written out and read again is the same number.
pub proof fn lemma_number_survives_text(n: i32)
    ensures
        identify(decimal_text(n as int)) == ColumnId::Position(n as int),
{
    let text = decimal_text(n as int);
    if n < 0 {
        let digits = numeral((-n) as nat);
        lemma_numeral_round_trip((-n) as nat);
        assert(text[0] == '-');
        assert(unsigned_part(text) =~= digits);
    } else {
        lemma_numeral_round_trip(n as nat);
        assert(text[0] != '-' && text[0] != '+');
        assert(unsigned_part(text) == text);
    }
}

impl StringOrNumber {
    /// The identifier as text: a name as it is, a number in decimal.
    pub fn as_str(&self) -> (r: String)
        ensures
            r@ == self@.text(),
    {
        match self {
            StringOrNumber::String(name) => name.clone(),
            StringOrNumber::Number(n) => decimal_of(*n),
        }
    }

    /// The identifier as a position: a number that is not negative. A name
    /// has none.
    pub fn as_number(&self) -> (r: Option<u32>)
        ensures
            r == match self@ {
                ColumnId::Position(n) => if n >= 0 {
                    Some(n as u32)
                } else {
                    None
                },
                ColumnId::Name(_) => None,
            },
    {
        match self {
            StringOrNumber::String(_) => None,
            StringOrNumber::Number(n) => if *n >= 0 {
                Some(*n as u32)
            } else {
                None
            },
        }
    }

    /// Reads user input: as a number if it is one, else as a name. This never
    /// fails.
    pub fn from_str(input: &str) -> (r: Result<StringOrNumber, String>)
        ensures
            r matches Ok(id) && id@ == identify(input@),
    {
        match parse_i32(input) {
            Some(n) => Ok(StringOrNumber::Number(n)),
            None => Ok(StringOrNumber::String(String::from_str(input))),
        }
    }
}

/// The position in the header of `table` of the column that `column` names,
/// or `None` if the table has no such column.
pub fn resolve(table: &Table, column: &StringOrNumber) -> (r: Option<usize>)
    ensures
        match r {
            Some(at) => position_of(table@.header, column@) == Some(at as int) && at
                < table@.header.len(),
            None => position_of(table@.header, column@) is None,
        },
        column@ matches ColumnId::Name(name) ==> match r {
            Some(at) => table@.header[at as int] == name && forall|j: int|
                0 <= j < at ==> table@.header[j] != name,
            None => !table@.header.contains(name),
        },
{
    let header: &Vec<String> = table.header();
    match column {
        StringOrNumber::Number(n) => {
            if *n >= 0 && (*n as usize) < header.len() {
                Some(*n as usize)
            } else {
                None
            }
        },
        StringOrNumber::String(name) => {
            let ghost cells = header.deep_view();
            let mut i: usize = 0;
            while i < header.len()
                invariant
                    i <= header.len(),
                    cells == header.deep_view(),
                    cells == table@.header,
                    column@ == ColumnId::Name(name@),
                    forall|j: int| 0 <= j < i ==> cells[j] != name@,
                decreases header.len() - i,
            {
                if header[i] == *name {
                    proof {
                        assert(cells[i as int] == name@);
                        cells.index_of_first_ensures(name@);
                    }
                    return Some(i);
                }
                i = i + 1;
            }
            proof {
                cells.index_of_first_ensures(name@);
            }
            None
        },
    }
}

} // verus!
