use crate::error::Error;
use vstd::prelude::*;

verus! {

/// A loosely typed cell value as the remote service returns it. A number is
/// kept as its decimal text.
#[derive(Debug, PartialEq, Eq)]
pub enum Cell {
    Null,
    Bool(bool),
    Number(String),
    Text(String),
    List(Vec<Cell>),
    Object(Vec<(String, Cell)>),
}

/// One record of a table: its fields in the order the service gave them.
#[derive(Debug, PartialEq, Eq)]
pub struct RawRecord {
    pub record_id: Option<String>,
    pub fields: Vec<(String, Cell)>,
}

/// One row of a cell range.
pub type RawRow = Vec<Cell>;

/// Index of the first field named `name`, or -1.
pub open spec fn field_index(fields: Seq<(String, Cell)>, name: Seq<char>) -> int {
    if exists|i: int| 0 <= i < fields.len() && fields[i].0@ == name {
        choose|i: int|
            0 <= i < fields.len() && fields[i].0@ == name && forall|j: int|
                0 <= j < i ==> fields[j].0@ != name
    } else {
        -1
    }
}

impl RawRecord {
    /// The first field called `name`.
    pub fn field(&self, name: &String) -> (r: Option<&Cell>)
        ensures
            match r {
                Some(c) => {
                    let i = field_index(self.fields@, name@);
                    0 <= i < self.fields@.len() && *c == self.fields@[i].1
                },
                None => field_index(self.fields@, name@) == -1,
            },
    {
        let mut i: usize = 0;
        while i < self.fields.len()
            invariant
                i <= self.fields.len(),
                forall|j: int| 0 <= j < i ==> self.fields@[j].0@ != name@,
            decreases self.fields.len() - i,
        {
            if self.fields[i].0 == *name {
                proof {
                    assert(0 <= i < self.fields@.len() && self.fields@[i as int].0@ == name@
                        && forall|j: int| 0 <= j < i ==> self.fields@[j].0@ != name@);
                    let p = field_index(self.fields@, name@);
                    if p < i {
                    } else if p > i {
                        assert(self.fields@[i as int].0@ != name@);
                    }
                }
                return Some(&self.fields[i].1);
            }
            i = i + 1;
        }
        None
    }
}

/// The rows of a cell-range answer: a list whose every element is a list.
pub open spec fn is_row_list(data: Cell) -> bool {
    match data {
        Cell::List(rows) => forall|i: int| 0 <= i < rows@.len() ==> rows@[i] is List,
        _ => false,
    }
}

/// The cells of a list cell, or nothing for any other cell.
pub open spec fn list_cells(c: Cell) -> Seq<Cell> {
    match c {
        Cell::List(v) => v@,
        _ => Seq::empty(),
    }
}

/// Reads the rows out of a cell-range answer. Anything but a list of lists is
/// a malformed answer.
pub fn rows_of(data: Cell) -> (r: Result<Vec<RawRow>, Error>)
    ensures
        match r {
            Ok(rows) => is_row_list(data) && rows@.len() == list_cells(data).len() && forall|i: int|
                0 <= i < rows@.len() ==> rows@[i]@ == list_cells(list_cells(data)[i]),
            Err(e) => !is_row_list(data) && e is Protocol,
        },
{
    let ghost d = data;
    match data {
        Cell::List(items) => {
            let mut rows: Vec<RawRow> = Vec::new();
            let mut rest = items;
            let ghost all = rest@;
            while rest.len() > 0
                invariant
                    d == data,
                    d is List,
                    list_cells(d) == all,
                    rows@.len() + rest@.len() == all.len(),
                    rest@ == all.subrange(rows@.len() as int, all.len() as int),
                    forall|i: int| 0 <= i < rows@.len() ==> all[i] is List && rows@[i]@ == list_cells(all[i]),
                decreases rest.len(),
            {
                let k = rows.len();
                match rest.remove(0) {
                    Cell::List(cells) => {
                        rows.push(cells);
                    },
                    _ => {
                        proof {
                            assert(!(all[k as int] is List));
                            assert(list_cells(d) == all);
                            assert(!(list_cells(d)[k as int] is List));
                        }
                        return Err(Error::Protocol(String::from_str("a row of the range is not a list")));
                    },
                }
            }
            Ok(rows)
        },
        _ => Err(Error::Protocol(String::from_str("the range answer is not a list"))),
    }
}

} // verus!
