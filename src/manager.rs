use crate::cache::{lookup, share, stored, touched, unique_keys, TypedCache};
use crate::error::Error;
use crate::record::{list_cells, is_row_list, rows_of, Cell, RawRecord, RawRow};
use crate::request::owned;
use crate::tables::{SpreadSheet, Table};
use std::sync::Arc;
use vstd::prelude::*;

verus! {

/// How many loaded tables a manager keeps by default.
pub const DEFAULT_CAPACITY: usize = 64;

/// The rows held by a cell-range answer, each as its cells.
pub open spec fn row_cells(data: Cell) -> Seq<Seq<Cell>> {
    list_cells(data).map_values(|c: Cell| list_cells(c))
}

/// Serves loaded tables whose values have type `V`: a hit comes from the
/// cache, a miss is fetched by the caller and handed back to be parsed and
/// stored. A failed load never leaves an entry behind.
pub struct DataManager<V> {
    cache: TypedCache<V>,
}

impl<V> View for DataManager<V> {
    type V = Seq<(Seq<char>, Arc<V>)>;

    closed spec fn view(&self) -> Seq<(Seq<char>, Arc<V>)> {
        self.cache@
    }
}

impl<V> DataManager<V> {
    /// The most tables kept at once.
    pub closed spec fn cap(&self) -> nat {
        self.cache.cap()
    }

    pub open spec fn wf(&self) -> bool {
        &&& self.cap() > 0
        &&& self@.len() <= self.cap()
        &&& unique_keys(self@)
    }

    /// A manager with an empty cache of the default capacity.
    pub fn new() -> (r: Self)
        ensures
            r.wf(),
            r.cap() == DEFAULT_CAPACITY,
            r@.len() == 0,
    {
        DataManager { cache: TypedCache::new(DEFAULT_CAPACITY) }
    }

    /// A manager with an empty cache that keeps at most `capacity` tables.
    pub fn with_capacity(capacity: usize) -> (r: Self)
        requires
            capacity > 0,
        ensures
            r.wf(),
            r.cap() == capacity,
            r@.len() == 0,
    {
        DataManager { cache: TypedCache::new(capacity) }
    }

    pub fn capacity(&self) -> (r: usize)
        ensures
            r == self.cap(),
    {
        self.cache.capacity()
    }

    /// Whether a value is cached under `name`; the order of use is not changed.
    pub fn is_cached(&self, name: &str) -> (r: bool)
        requires
            self.wf(),
        ensures
            r == (lookup(self@, name@) is Some),
    {
        self.cache.contains_key(&owned(name))
    }

    fn cached(&mut self, name: &str) -> (r: Option<Arc<V>>)
        requires
            old(self).wf(),
        ensures
            final(self).wf(),
            final(self).cap() == old(self).cap(),
            r == lookup(old(self)@, name@),
            final(self)@ == touched(old(self)@, name@),
    {
        self.cache.get(&owned(name))
    }

    fn store(&mut self, name: &str, value: V) -> (r: Arc<V>)
        requires
            old(self).wf(),
        ensures
            final(self).wf(),
            final(self).cap() == old(self).cap(),
            *r == value,
            final(self)@ == stored(old(self)@, old(self).cap(), name@, r),
    {
        let shared = Arc::new(value);
        let kept = share(&shared);
        self.cache.insert(owned(name), kept);
        shared
    }

    /// The cached value of table `T`, if any; a hit makes it the most recently used.
    pub fn cached_table<T: Table<Output = V>>(&mut self) -> (r: Option<Arc<V>>)
        requires
            old(self).wf(),
        ensures
            final(self).wf(),
            final(self).cap() == old(self).cap(),
            r == lookup(old(self)@, T::spec_table_name()),
            final(self)@ == touched(old(self)@, T::spec_table_name()),
    {
        self.cached(T::table_name())
    }

    /// Finishes a load of table `T` from what the fetch gave: a fetch error is
    /// handed on, records are parsed, and a parsed value is cached under the
    /// table's name and returned. On any error the cache is left as it was.
    pub fn store_table<T: Table<Output = V>>(&mut self, fetched: Result<Vec<RawRecord>, Error>) -> (r:
        Result<Arc<V>, Error>)
        requires
            old(self).wf(),
        ensures
            final(self).wf(),
            final(self).cap() == old(self).cap(),
            match fetched {
                Err(e) => r == Err::<Arc<V>, Error>(e) && final(self)@ == old(self)@,
                Ok(records) => match T::spec_from_records(records@) {
                    Ok(value) => r is Ok && *r->Ok_0 == value && final(self)@ == stored(
                        old(self)@,
                        old(self).cap(),
                        T::spec_table_name(),
                        r->Ok_0,
                    ),
                    Err(m) => r == Err::<Arc<V>, Error>(Error::Transform(m)) && final(self)@ == old(
                        self,
                    )@,
                },
            },
    {
        match fetched {
            Err(e) => Err(e),
            Ok(records) => match T::from_records(records) {
                Ok(value) => Ok(self.store(T::table_name(), value)),
                Err(m) => Err(Error::Transform(m)),
            },
        }
    }

    /// The cached value of sheet range `S`, if any; a hit makes it the most recently used.
    pub fn cached_sheet<S: SpreadSheet<Output = V>>(&mut self) -> (r: Option<Arc<V>>)
        requires
            old(self).wf(),
        ensures
            final(self).wf(),
            final(self).cap() == old(self).cap(),
            r == lookup(old(self)@, S::spec_table_name()),
            final(self)@ == touched(old(self)@, S::spec_table_name()),
    {
        self.cached(S::table_name())
    }

    /// Finishes a load of sheet range `S` from what the range read gave: a read
    /// error is handed on, an answer that is not a list of rows is malformed,
    /// rows are parsed, and a parsed value is cached under the sheet's name and
    /// returned. On any error the cache is left as it was.
    pub fn store_sheet<S: SpreadSheet<Output = V>>(&mut self, fetched: Result<Cell, Error>) -> (r:
        Result<Arc<V>, Error>)
        requires
            old(self).wf(),
        ensures
            final(self).wf(),
            final(self).cap() == old(self).cap(),
            match fetched {
                Err(e) => r == Err::<Arc<V>, Error>(e) && final(self)@ == old(self)@,
                Ok(data) => if !is_row_list(data) {
                    r is Err && r->Err_0 is Protocol && final(self)@ == old(self)@
                } else {
                    match S::spec_from_rows(row_cells(data)) {
                        Ok(value) => r is Ok && *r->Ok_0 == value && final(self)@ == stored(
                            old(self)@,
                            old(self).cap(),
                            S::spec_table_name(),
                            r->Ok_0,
                        ),
                        Err(m) => r == Err::<Arc<V>, Error>(Error::Transform(m)) && final(self)@
                            == old(self)@,
                    }
                },
            },
    {
        match fetched {
            Err(e) => Err(e),
            Ok(data) => {
                let ghost d = data;
                match rows_of(data) {
                    Err(e) => Err(e),
                    Ok(rows) => {
                        assert(rows@.map_values(|row: RawRow| row@) =~= row_cells(d));
                        match S::from_rows(rows) {
                            Ok(value) => Ok(self.store(S::table_name(), value)),
                            Err(m) => Err(Error::Transform(m)),
                        }
                    },
                }
            },
        }
    }
}

} // verus!
