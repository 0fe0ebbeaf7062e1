//! Loading of remote tables into typed values, with a bounded
//! least-recently-used cache keyed by table name.
//!
//! A table is described by a type that implements [`Table`] (records of the
//! record service) or [`SpreadSheet`] (a cell range of a sheet). A
//! [`DataManager`] answers a load from its cache when it can; on a miss the
//! caller fetches what [`table_request`] / [`sheet_request`] describe and hands
//! the answer to the manager, which parses it, caches a success and reports
//! any failure without touching the cache.
mod cache;
mod error;
pub mod gm;
mod laws;
mod manager;
mod record;
mod request;
mod tables;

pub use cache::{lookup, position, stored, touched, unique_keys, TypedCache};
pub use error::Error;
pub use gm::{Arg, ArgType, Command};
pub use laws::{
    lemma_first_load_stores, lemma_hit_keeps_values, lemma_least_recent_evicted,
    lemma_store_then_hit, lemma_stored_wf,
};
pub use manager::{row_cells, DataManager, DEFAULT_CAPACITY};
pub use record::{field_index, is_row_list, list_cells, rows_of, Cell, RawRecord, RawRow};
pub use request::{
    range_reference, sheet_request, table_request, Page, RecordPager, SheetRequest, TableRequest,
};
pub use tables::{SpreadSheet, Table};
