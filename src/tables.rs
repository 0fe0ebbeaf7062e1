use crate::record::{RawRecord, RawRow};
use vstd::prelude::*;

verus! {

/// A table of the remote record service, described once by the type that
/// implements this trait: where it lives, the name it is cached under, and how
/// its records become a typed value. The `spec_` functions say what the
/// methods return; a verified implementation gives them, and until then they
/// stand for a fixed unknown value.
pub trait Table: Sized {
    type Output;

    open spec fn spec_app_token() -> Seq<char> {
        arbitrary()
    }

    open spec fn spec_table_id() -> Seq<char> {
        arbitrary()
    }

    open spec fn spec_table_name() -> Seq<char> {
        arbitrary()
    }

    /// What the records turn into; a pure function of them.
    open spec fn spec_from_records(records: Seq<RawRecord>) -> Result<Self::Output, String> {
        arbitrary()
    }

    fn app_token() -> (r: &'static str)
        ensures
            r@ == Self::spec_app_token(),
    ;

    fn table_id() -> (r: &'static str)
        ensures
            r@ == Self::spec_table_id(),
    ;

    /// The key the loaded value is cached under.
    fn table_name() -> (r: &'static str)
        ensures
            r@ == Self::spec_table_name(),
    ;

    /// Parses the records; an `Err` carries why they were rejected.
    fn from_records(records: Vec<RawRecord>) -> (r: Result<Self::Output, String>)
        ensures
            r == Self::spec_from_records(records@),
    ;
}

/// A rectangular range of a sheet in the configured spreadsheet, described once
/// by the type that implements this trait. The `spec_` functions play the same
/// part as in [`Table`].
pub trait SpreadSheet: Sized {
    type Output;

    open spec fn spec_sheet_id() -> Seq<char> {
        arbitrary()
    }

    open spec fn spec_range() -> Seq<char> {
        arbitrary()
    }

    open spec fn spec_table_name() -> Seq<char> {
        arbitrary()
    }

    /// What the rows turn into; a pure function of them.
    open spec fn spec_from_rows(rows: Seq<Seq<crate::record::Cell>>) -> Result<Self::Output, String> {
        arbitrary()
    }

    fn sheet_id() -> (r: &'static str)
        ensures
            r@ == Self::spec_sheet_id(),
    ;

    fn range() -> (r: &'static str)
        ensures
            r@ == Self::spec_range(),
    ;

    /// The key the loaded value is cached under.
    fn table_name() -> (r: &'static str)
        ensures
            r@ == Self::spec_table_name(),
    ;

    /// Parses the rows; an `Err` carries why they were rejected.
    fn from_rows(rows: Vec<RawRow>) -> (r: Result<Self::Output, String>)
        ensures
            r == Self::spec_from_rows(rows@.map_values(|row: RawRow| row@)),
    ;
}

} // verus!
