use ddt_loader::{
    rows_of, sheet_request, table_request, Cell, DataManager, Error, Page, RawRecord, RawRow,
    RecordPager, SpreadSheet, Table, TypedCache, DEFAULT_CAPACITY,
};
use std::sync::Arc;

#[derive(Debug, Clone, PartialEq)]
struct Hero {
    id: u32,
    name: String,
}

struct Heroes;

fn text_of(record: &RawRecord, name: &str) -> Option<String> {
    match record.field(&name.to_string()) {
        Some(Cell::Text(t)) => Some(t.clone()),
        Some(Cell::Number(n)) => Some(n.clone()),
        _ => None,
    }
}

impl Table for Heroes {
    type Output = Vec<Hero>;

    fn app_token() -> &'static str {
        "app-heroes"
    }

    fn table_id() -> &'static str {
        "tbl-heroes"
    }

    fn table_name() -> &'static str {
        "heroes"
    }

    fn from_records(records: Vec<RawRecord>) -> Result<Vec<Hero>, String> {
        let mut out = Vec::new();
        for r in &records {
            let id = text_of(r, "id").ok_or("missing id")?;
            let id = id.parse::<u32>().map_err(|e| e.to_string())?;
            let name = text_of(r, "name").ok_or("missing name")?;
            out.push(Hero { id, name });
        }
        Ok(out)
    }
}

struct Villains;

impl Table for Villains {
    type Output = Vec<Hero>;

    fn app_token() -> &'static str {
        "app-villains"
    }

    fn table_id() -> &'static str {
        "tbl-villains"
    }

    fn table_name() -> &'static str {
        "villains"
    }

    fn from_records(records: Vec<RawRecord>) -> Result<Vec<Hero>, String> {
        Heroes::from_records(records)
    }
}

/// A stand-in for the remote service that counts fetches and can be switched off.
struct FakeRemote {
    records: Vec<(String, String)>,
    enabled: bool,
    fetches: usize,
}

impl FakeRemote {
    fn new(records: &[(&str, &str)]) -> Self {
        FakeRemote {
            records: records.iter().map(|(i, n)| (i.to_string(), n.to_string())).collect(),
            enabled: true,
            fetches: 0,
        }
    }

    fn fetch(&mut self) -> Result<Vec<RawRecord>, Error> {
        self.fetches += 1;
        if !self.enabled {
            return Err(Error::Transport("remote disabled".to_string()));
        }
        Ok(self.records.iter().map(|(i, n)| record(i, n)).collect())
    }
}

fn record(id: &str, name: &str) -> RawRecord {
    RawRecord {
        record_id: None,
        fields: vec![
            ("id".to_string(), Cell::Text(id.to_string())),
            ("name".to_string(), Cell::Text(name.to_string())),
        ],
    }
}

fn load<T: Table>(
    mgr: &mut DataManager<T::Output>,
    remote: &mut FakeRemote,
) -> Result<Arc<T::Output>, Error> {
    if let Some(v) = mgr.cached_table::<T>() {
        return Ok(v);
    }
    let fetched = remote.fetch();
    mgr.store_table::<T>(fetched)
}

#[test]
fn heroes_scenario() {
    let mut mgr = DataManager::new();
    let mut remote = FakeRemote::new(&[("1", "Thor"), ("2", "Loki"), ("3", "Odin")]);
    let first = load::<Heroes>(&mut mgr, &mut remote).unwrap();
    let expected = vec![
        Hero { id: 1, name: "Thor".to_string() },
        Hero { id: 2, name: "Loki".to_string() },
        Hero { id: 3, name: "Odin".to_string() },
    ];
    assert_eq!(*first, expected);
    remote.enabled = false;
    let second = load::<Heroes>(&mut mgr, &mut remote).unwrap();
    assert_eq!(*second, expected);
    assert_eq!(remote.fetches, 1);
}

#[test]
fn cache_hit_returns_identical_value() {
    let mut mgr = DataManager::new();
    let mut remote = FakeRemote::new(&[("7", "Freya")]);
    let first = load::<Heroes>(&mut mgr, &mut remote).unwrap();
    remote.enabled = false;
    let second = load::<Heroes>(&mut mgr, &mut remote).unwrap();
    assert_eq!(*first, *second);
    assert!(Arc::ptr_eq(&first, &second));
}

#[test]
fn miss_then_store_fetches_once() {
    let mut mgr = DataManager::new();
    let mut remote = FakeRemote::new(&[("1", "Thor")]);
    assert!(!mgr.is_cached("heroes"));
    load::<Heroes>(&mut mgr, &mut remote).unwrap();
    assert_eq!(remote.fetches, 1);
    assert!(mgr.is_cached("heroes"));
    assert!(!mgr.is_cached("villains"));
}

#[test]
fn transform_is_deterministic() {
    let a = Heroes::from_records(vec![record("1", "Thor"), record("2", "Loki")]);
    let b = Heroes::from_records(vec![record("1", "Thor"), record("2", "Loki")]);
    assert_eq!(a, b);
}

#[test]
fn failed_fetch_leaves_cache_empty() {
    let mut mgr = DataManager::new();
    let mut remote = FakeRemote::new(&[("1", "Thor")]);
    remote.enabled = false;
    let r = load::<Heroes>(&mut mgr, &mut remote);
    assert_eq!(r, Err(Error::Transport("remote disabled".to_string())));
    assert!(!mgr.is_cached("heroes"));
    remote.enabled = true;
    let v = load::<Heroes>(&mut mgr, &mut remote).unwrap();
    assert_eq!(v.len(), 1);
    assert_eq!(remote.fetches, 2);
}

#[test]
fn failed_transform_leaves_cache_empty() {
    let mut mgr = DataManager::new();
    let mut remote = FakeRemote::new(&[("one", "Thor")]);
    let r = load::<Heroes>(&mut mgr, &mut remote);
    assert!(matches!(r, Err(Error::Transform(_))));
    assert!(!mgr.is_cached("heroes"));
    remote.records = vec![("1".to_string(), "Thor".to_string())];
    let v = load::<Heroes>(&mut mgr, &mut remote).unwrap();
    assert_eq!(v[0].id, 1);
    assert_eq!(remote.fetches, 2);
}

#[test]
fn capacity_eviction_drops_least_recent() {
    let mut cache: TypedCache<u32> = TypedCache::new(2);
    cache.insert("a".to_string(), Arc::new(1));
    cache.insert("b".to_string(), Arc::new(2));
    // "a" is used just before the insert that overflows the cache
    assert_eq!(cache.get(&"a".to_string()).map(|v| *v), Some(1));
    cache.insert("c".to_string(), Arc::new(3));
    assert_eq!(cache.len(), 2);
    assert_eq!(cache.get(&"b".to_string()), None);
    assert_eq!(cache.get(&"a".to_string()).map(|v| *v), Some(1));
    assert_eq!(cache.get(&"c".to_string()).map(|v| *v), Some(3));
}

#[test]
fn manager_evicts_least_recent_table() {
    let mut mgr = DataManager::with_capacity(1);
    let mut remote = FakeRemote::new(&[("1", "Thor")]);
    load::<Heroes>(&mut mgr, &mut remote).unwrap();
    load::<Villains>(&mut mgr, &mut remote).unwrap();
    assert!(!mgr.is_cached("heroes"));
    assert!(mgr.is_cached("villains"));
    load::<Heroes>(&mut mgr, &mut remote).unwrap();
    assert_eq!(remote.fetches, 3);
}

#[test]
fn insert_replaces_existing_key() {
    let mut cache: TypedCache<u32> = TypedCache::new(4);
    cache.insert("a".to_string(), Arc::new(1));
    cache.insert("a".to_string(), Arc::new(5));
    assert_eq!(cache.len(), 1);
    assert_eq!(cache.capacity(), 4);
    assert!(cache.contains_key(&"a".to_string()));
    assert_eq!(cache.get(&"a".to_string()).map(|v| *v), Some(5));
}

#[test]
fn default_capacity_is_sixty_four() {
    let mut mgr: DataManager<u32> = DataManager::new();
    assert_eq!(DEFAULT_CAPACITY, 64);
    assert_eq!(mgr.capacity(), 64);
    assert!(!mgr.is_cached("heroes"));
    assert_eq!(mgr.cached_table::<HeroCount>(), None);
}

struct HeroCount;

impl Table for HeroCount {
    type Output = u32;

    fn app_token() -> &'static str {
        "app-heroes"
    }

    fn table_id() -> &'static str {
        "tbl-heroes"
    }

    fn table_name() -> &'static str {
        "hero_count"
    }

    fn from_records(records: Vec<RawRecord>) -> Result<u32, String> {
        Ok(records.len() as u32)
    }
}

#[test]
fn table_request_carries_descriptor() {
    let r = table_request::<Heroes>(Some("page-2".to_string()));
    assert_eq!(r.app_token, "app-heroes");
    assert_eq!(r.table_id, "tbl-heroes");
    assert_eq!(r.page_token, Some("page-2".to_string()));
}

#[test]
fn record_field_finds_first_match() {
    let r = RawRecord {
        record_id: Some("rec1".to_string()),
        fields: vec![
            ("x".to_string(), Cell::Bool(true)),
            ("y".to_string(), Cell::Null),
            ("x".to_string(), Cell::Bool(false)),
        ],
    };
    assert_eq!(r.field(&"x".to_string()), Some(&Cell::Bool(true)));
    assert_eq!(r.field(&"y".to_string()), Some(&Cell::Null));
    assert_eq!(r.field(&"z".to_string()), None);
}

#[test]
fn pager_concatenates_pages_in_order() {
    let mut pager = RecordPager::new();
    assert_eq!(pager.next_page(), Some(None));
    pager
        .accept(Page { items: vec![record("1", "Thor")], has_more: true, page_token: Some("t2".to_string()) })
        .unwrap();
    assert_eq!(pager.next_page(), Some(Some("t2".to_string())));
    pager
        .accept(Page { items: vec![record("2", "Loki"), record("3", "Odin")], has_more: false, page_token: None })
        .unwrap();
    assert_eq!(pager.next_page(), None);
    let all = pager.into_records();
    assert_eq!(all, vec![record("1", "Thor"), record("2", "Loki"), record("3", "Odin")]);
}

#[test]
fn pager_rejects_more_without_token() {
    let mut pager = RecordPager::new();
    let r = pager.accept(Page { items: vec![record("1", "Thor")], has_more: true, page_token: None });
    assert!(matches!(r, Err(Error::Protocol(_))));
    assert_eq!(pager.next_page(), Some(None));
    assert_eq!(pager.into_records(), Vec::<RawRecord>::new());
}

#[derive(Debug, Clone, PartialEq)]
struct Balance {
    level: String,
    gold: String,
}

struct BalanceSheet;

impl SpreadSheet for BalanceSheet {
    type Output = Vec<Balance>;

    fn sheet_id() -> &'static str {
        "s1"
    }

    fn range() -> &'static str {
        "A1:B3"
    }

    fn table_name() -> &'static str {
        "balance"
    }

    fn from_rows(rows: Vec<RawRow>) -> Result<Vec<Balance>, String> {
        let mut out = Vec::new();
        for row in &rows {
            match (row.first(), row.get(1)) {
                (Some(Cell::Number(a)), Some(Cell::Number(b))) => {
                    out.push(Balance { level: a.clone(), gold: b.clone() })
                }
                _ => return Err("bad row".to_string()),
            }
        }
        Ok(out)
    }
}

fn num(s: &str) -> Cell {
    Cell::Number(s.to_string())
}

#[test]
fn sheet_request_formats_range() {
    let r = sheet_request::<BalanceSheet>(&Some("sp".to_string())).unwrap();
    assert_eq!(r.spreadsheet_token, "sp");
    assert_eq!(r.range, "s1!A1:B3");
}

#[test]
fn sheet_request_needs_spreadsheet() {
    assert!(matches!(sheet_request::<BalanceSheet>(&None), Err(Error::ConfigurationMissing)));
}

#[test]
fn rows_of_reads_list_of_lists() {
    let data = Cell::List(vec![Cell::List(vec![num("1"), num("10")]), Cell::List(vec![])]);
    let rows = rows_of(data).unwrap();
    assert_eq!(rows, vec![vec![num("1"), num("10")], vec![]]);
}

#[test]
fn rows_of_rejects_malformed_answers() {
    assert!(matches!(rows_of(Cell::Text("x".to_string())), Err(Error::Protocol(_))));
    let data = Cell::List(vec![Cell::List(vec![num("1")]), num("2")]);
    assert!(matches!(rows_of(data), Err(Error::Protocol(_))));
}

#[test]
fn sheet_load_caches_rows() {
    let mut mgr = DataManager::new();
    assert!(mgr.cached_sheet::<BalanceSheet>().is_none());
    let data = Cell::List(vec![Cell::List(vec![num("1"), num("10")]), Cell::List(vec![num("2"), num("25")])]);
    let v = mgr.store_sheet::<BalanceSheet>(Ok(data)).unwrap();
    assert_eq!(
        *v,
        vec![
            Balance { level: "1".to_string(), gold: "10".to_string() },
            Balance { level: "2".to_string(), gold: "25".to_string() },
        ]
    );
    let again = mgr.cached_sheet::<BalanceSheet>().unwrap();
    assert_eq!(*again, *v);
}

#[test]
fn sheet_load_errors_leave_cache_empty() {
    let mut mgr = DataManager::new();
    let r = mgr.store_sheet::<BalanceSheet>(Ok(Cell::Null));
    assert!(matches!(r, Err(Error::Protocol(_))));
    let r = mgr.store_sheet::<BalanceSheet>(Ok(Cell::List(vec![Cell::List(vec![Cell::Null])])));
    assert_eq!(r, Err(Error::Transform("bad row".to_string())));
    let r = mgr.store_sheet::<BalanceSheet>(Err(Error::ConfigurationMissing));
    assert_eq!(r, Err(Error::ConfigurationMissing));
    assert!(!mgr.is_cached("balance"));
}
