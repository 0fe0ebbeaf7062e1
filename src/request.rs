use crate::error::Error;
use crate::record::RawRecord;
use crate::tables::{SpreadSheet, Table};
use vstd::prelude::*;

verus! {

/// One search for the records of a table, from the page that `page_token`
/// names, or from the first page.
pub struct TableRequest {
    pub app_token: String,
    pub table_id: String,
    pub page_token: Option<String>,
}

/// One read of a cell range.
pub struct SheetRequest {
    pub spreadsheet_token: String,
    pub range: String,
}

/// A range written against its sheet: `sheet!range`.
pub open spec fn range_reference(sheet_id: Seq<char>, range: Seq<char>) -> Seq<char> {
    sheet_id + seq!['!'] + range
}

/// An owned copy of `s`.
pub(crate) fn owned(s: &str) -> (r: String)
    ensures
        r@ == s@,
{
    String::from_str(s)
}

/// The search for one page of the records of `T`.
pub fn table_request<T: Table>(page_token: Option<String>) -> (r: TableRequest)
    ensures
        r.app_token@ == T::spec_app_token(),
        r.table_id@ == T::spec_table_id(),
        r.page_token == page_token,
{
    TableRequest { app_token: owned(T::app_token()), table_id: owned(T::table_id()), page_token }
}

/// The read of the range of `S` in the spreadsheet `spreadsheet_token`; a range
/// cannot be read when no spreadsheet is configured.
pub fn sheet_request<S: SpreadSheet>(spreadsheet_token: &Option<String>) -> (r: Result<
    SheetRequest,
    Error,
>)
    ensures
        match spreadsheet_token {
            None => r == Err::<SheetRequest, Error>(Error::ConfigurationMissing),
            Some(t) => r is Ok && r->Ok_0.spreadsheet_token@ == t@ && r->Ok_0.range@
                == range_reference(S::spec_sheet_id(), S::spec_range()),
        },
{
    match spreadsheet_token {
        None => Err(Error::ConfigurationMissing),
        Some(t) => {
            proof {
                reveal_strlit("!");
            }
            let range = owned(S::sheet_id()).concat("!").concat(S::range());
            Ok(SheetRequest { spreadsheet_token: t.clone(), range })
        },
    }
}

/// One page of a record search as the service answered it.
pub struct Page {
    pub items: Vec<RawRecord>,
    pub has_more: bool,
    pub page_token: Option<String>,
}

/// Gathers the pages of a record search, in the order the service returns
/// them, until the service reports no more.
pub struct RecordPager {
    records: Vec<RawRecord>,
    cursor: Option<String>,
    finished: bool,
}

impl RecordPager {
    /// The records gathered so far.
    pub closed spec fn collected(&self) -> Seq<RawRecord> {
        self.records@
    }

    /// The page token of the next search.
    pub closed spec fn cursor(&self) -> Option<String> {
        self.cursor
    }

    /// Whether the last page has been seen.
    pub closed spec fn finished(&self) -> bool {
        self.finished
    }

    /// A search that starts at the first page.
    pub fn new() -> (r: Self)
        ensures
            r.collected() == Seq::<RawRecord>::empty(),
            r.cursor() is None,
            !r.finished(),
    {
        RecordPager { records: Vec::new(), cursor: None, finished: false }
    }

    /// The page token of the next search to make, or `None` when all pages are in.
    pub fn next_page(&self) -> (r: Option<Option<String>>)
        ensures
            match r {
                None => self.finished(),
                Some(c) => !self.finished() && c == self.cursor(),
            },
    {
        if self.finished {
            None
        } else {
            match &self.cursor {
                None => Some(None),
                Some(t) => Some(Some(t.clone())),
            }
        }
    }

    /// Takes in the next page. A page that announces more without saying where
    /// they start is a malformed answer, and leaves the pager as it was.
    pub fn accept(&mut self, page: Page) -> (r: Result<(), Error>)
        requires
            !old(self).finished(),
        ensures
            r is Err <==> (page.has_more && page.page_token is None),
            r is Err ==> r->Err_0 is Protocol && *final(self) == *old(self),
            r is Ok ==> final(self).collected() == old(self).collected() + page.items@
                && final(self).finished() == !page.has_more
                && final(self).cursor() == page.page_token,
    {
        if page.has_more && page.page_token.is_none() {
            return Err(Error::Protocol(owned("a page announces more records without a page token")));
        }
        let Page { items, has_more, page_token } = page;
        let mut items = items;
        self.records.append(&mut items);
        self.finished = !has_more;
        self.cursor = page_token;
        Ok(())
    }

    /// All records gathered, in order.
    pub fn into_records(self) -> (r: Vec<RawRecord>)
        ensures
            r@ == self.collected(),
    {
        self.records
    }
}

} // verus!
