// Tests for the peer cache, on tables of an in-memory database.

use hatch_chat::peer_cache::{
    cached_count, current_timestamp, timestamp_for, written, CacheError, PeerCache, PeerRecord,
};
use hatch_chat::peer_table::{OpenFailure, PeerSnapshot, PeerTable, ReadRow, PEER_TABLE};

fn text(value: &serde_json::Value, field: &str) -> Result<String, String> {
    match value[field].as_str() {
        Some(text) => Ok(text.to_string()),
        None => Err(format!("{field} is missing")),
    }
}

fn encode(record: &PeerRecord) -> Result<Vec<u8>, String> {
    let mut fields = serde_json::Map::new();
    fields.insert("peer_id".to_string(), serde_json::Value::from(record.peer_id.clone()));
    fields.insert("multiaddrs".to_string(), serde_json::Value::from(record.multiaddrs.clone()));
    fields.insert("last_seen".to_string(), serde_json::Value::from(record.last_seen));
    fields.insert("connection_count".to_string(), serde_json::Value::from(record.connection_count));
    if let Some(rtt) = record.rtt_ms {
        fields.insert("rtt_ms".to_string(), serde_json::Value::from(rtt));
    }
    fields.insert("is_public".to_string(), serde_json::Value::from(record.is_public));
    serde_json::to_vec(&serde_json::Value::Object(fields)).map_err(|e| e.to_string())
}

fn decode(bytes: &[u8]) -> Result<PeerRecord, String> {
    let value: serde_json::Value = serde_json::from_slice(bytes).map_err(|e| e.to_string())?;
    let addrs = match value["multiaddrs"].as_array() {
        Some(addrs) => addrs.iter().map(|a| a.as_str().unwrap_or("").to_string()).collect(),
        None => Vec::new(),
    };
    Ok(PeerRecord {
        peer_id: text(&value, "peer_id")?,
        multiaddrs: addrs,
        i2p_destination: None,
        last_seen: value["last_seen"].as_u64().unwrap_or(0),
        connection_count: value["connection_count"].as_u64().unwrap_or(0) as u32,
        rtt_ms: value["rtt_ms"].as_u64().map(|rtt| rtt as u32),
        is_relay: false,
        is_public: value["is_public"].as_bool().unwrap_or(false),
    })
}

type Codec = PeerCache<
    fn(&PeerRecord) -> Result<Vec<u8>, String>,
    fn(&[u8]) -> Result<PeerRecord, String>,
>;

type Outcome<T> = Result<T, CacheError<String>>;

/// A cache on a database of its own.
struct Store {
    db: redb::Database,
    cache: Codec,
}

impl Store {
    fn open() -> Store {
        let backend = redb::backends::InMemoryBackend::new();
        let db = redb::Database::builder().create_with_backend(backend).expect("open");
        Store { db, cache: PeerCache::new(encode, decode) }
    }

    fn write<T>(&self, work: impl FnOnce(&mut PeerTable) -> T) -> T {
        let txn = self.db.begin_write().expect("begin");
        let outcome = {
            let mut table = PeerTable::open(&txn).expect("table");
            work(&mut table)
        };
        txn.commit().expect("commit");
        outcome
    }

    fn snapshot(&self) -> Option<PeerSnapshot> {
        PeerSnapshot::open(&self.db.begin_read().expect("begin")).expect("snapshot")
    }

    fn save_peer(&self, record: &PeerRecord) -> Outcome<()> {
        self.write(|table| self.cache.save_peer(table, record))
    }

    fn prune_stale(&self, max_age_secs: u64) -> Outcome<()> {
        self.write(|table| self.cache.prune_stale(table, max_age_secs))
    }

    fn get_peer(&self, peer_id: &str) -> Outcome<Option<PeerRecord>> {
        self.cache.get_peer(&self.snapshot(), peer_id)
    }

    fn all_peers(&self) -> Outcome<Vec<PeerRecord>> {
        self.cache.all_peers(&self.snapshot())
    }
}

fn make_record(peer_id: &str, addrs: &[&str], last_seen: u64) -> PeerRecord {
    PeerRecord {
        peer_id: peer_id.to_string(),
        multiaddrs: addrs.iter().map(|s| s.to_string()).collect(),
        i2p_destination: None,
        last_seen,
        connection_count: 1,
        rtt_ms: Some(50),
        is_relay: false,
        is_public: true,
    }
}

/// Puts a row into the table without encoding a record.
fn put_raw(store: &Store, key: &str, value: &[u8]) {
    let definition: redb::TableDefinition<&str, &[u8]> = redb::TableDefinition::new(PEER_TABLE);
    let txn = store.db.begin_write().expect("begin");
    {
        let mut table = txn.open_table(definition).expect("table");
        table.insert(key, value).expect("insert");
    }
    txn.commit().expect("commit");
}

#[test]
fn test_peer_cache_save_and_get() {
    let cache = Store::open();

    let record = make_record("12D3KooWTest", &["/ip4/1.2.3.4/tcp/4001"], current_timestamp());
    cache.save_peer(&record).expect("save");

    let got = cache.get_peer("12D3KooWTest").expect("get");
    assert!(got.is_some(), "peer should exist in cache");
    let got = got.unwrap();
    assert_eq!(got.peer_id, "12D3KooWTest");
    assert_eq!(got.multiaddrs, vec!["/ip4/1.2.3.4/tcp/4001"]);
    assert_eq!(got.connection_count, 1);
    assert_eq!(got.rtt_ms, Some(50));
    assert!(got.is_public);
}

#[test]
fn test_peer_cache_get_nonexistent() {
    let cache = Store::open();

    let got = cache.get_peer("nonexistent").expect("get");
    assert!(got.is_none(), "nonexistent peer should return None");
}

#[test]
fn test_peer_cache_all_peers() {
    let cache = Store::open();

    // Start empty.
    let all = cache.all_peers().expect("all");
    assert!(all.is_empty(), "cache should start empty");

    // Save three peers.
    let now = current_timestamp();
    cache
        .save_peer(&make_record("peer1", &["/ip4/1.1.1.1/tcp/4001"], now))
        .expect("save");
    cache
        .save_peer(&make_record("peer2", &["/ip4/2.2.2.2/tcp/4001"], now))
        .expect("save");
    cache
        .save_peer(&make_record("peer3", &["/ip4/3.3.3.3/tcp/4001"], now))
        .expect("save");

    let all = cache.all_peers().expect("all");
    assert_eq!(all.len(), 3, "cache should have 3 peers");
}

#[test]
fn test_peer_cache_update_existing() {
    let cache = Store::open();

    let now = current_timestamp();
    let mut record = make_record("peer1", &["/ip4/1.1.1.1/tcp/4001"], now);
    cache.save_peer(&record).expect("save");

    // Update with new address and higher connection count.
    record.multiaddrs.push("/ip4/1.1.1.1/udp/4001/quic-v1".to_string());
    record.connection_count = 5;
    cache.save_peer(&record).expect("update");

    let got = cache.get_peer("peer1").expect("get").unwrap();
    assert_eq!(got.multiaddrs.len(), 2, "should have 2 addresses");
    assert_eq!(got.connection_count, 5, "connection count should be updated");
}

#[test]
fn test_peer_cache_prune_stale() {
    let cache = Store::open();

    let now = current_timestamp();
    let old_time = now - 8 * 24 * 3600; // 8 days ago
    let recent_time = now - 3600; // 1 hour ago

    // Save a stale peer (8 days old).
    cache
        .save_peer(&make_record("stale_peer", &["/ip4/1.1.1.1/tcp/4001"], old_time))
        .expect("save");
    // Save a recent peer (1 hour old).
    cache
        .save_peer(&make_record("recent_peer", &["/ip4/2.2.2.2/tcp/4001"], recent_time))
        .expect("save");

    assert_eq!(cache.all_peers().expect("all").len(), 2);

    // Prune peers older than 7 days.
    cache.prune_stale(7 * 24 * 3600).expect("prune");

    let all = cache.all_peers().expect("all");
    assert_eq!(all.len(), 1, "only recent peer should remain");
    assert_eq!(all[0].peer_id, "recent_peer");
}

#[test]
fn a_peer_as_old_as_the_limit_stays() {
    let store = Store::open();
    store.save_peer(&make_record("limit", &[], 900)).expect("save");
    store.save_peer(&make_record("older", &[], 899)).expect("save");
    store.save_peer(&make_record("ahead", &[], 2000)).expect("save");
    for _ in 0..2 {
        store.write(|table| store.cache.prune_stale_at(table, 1000, 100)).expect("prune");
        let left: Vec<String> =
            store.all_peers().expect("all").into_iter().map(|r| r.peer_id).collect();
        assert_eq!(left, vec!["ahead", "limit"]);
    }
}

#[test]
fn peers_are_listed_in_order_of_their_keys() {
    let store = Store::open();
    for id in ["b", "é", "a", "ab"] {
        store.save_peer(&make_record(id, &[], 1)).expect("save");
    }
    let ids: Vec<String> = store.all_peers().expect("all").into_iter().map(|r| r.peer_id).collect();
    assert_eq!(ids, vec!["a", "ab", "b", "é"]);
}

#[test]
fn saving_a_peer_leaves_the_others() {
    let store = Store::open();
    store.save_peer(&make_record("a", &[], 1)).expect("save");
    store.save_peer(&make_record("b", &[], 2)).expect("save");
    store.save_peer(&make_record("a", &[], 3)).expect("save");
    assert_eq!(store.get_peer("a").expect("get").unwrap().last_seen, 3);
    assert_eq!(store.get_peer("b").expect("get").unwrap().last_seen, 2);
}

#[test]
fn a_table_that_does_not_exist_is_empty() {
    let store = Store::open();
    assert!(store.snapshot().is_none());
    assert!(store.get_peer("a").expect("get").is_none());
    assert!(store.all_peers().expect("all").is_empty());
    assert_eq!(store.cache.len(&None).expect("len"), 0);
    assert!(store.cache.is_empty(&None).expect("is_empty"));
}

#[test]
fn lengths_count_the_rows() {
    let store = Store::open();
    store.save_peer(&make_record("a", &[], 1)).expect("save");
    store.save_peer(&make_record("b", &[], 1)).expect("save");
    store.save_peer(&make_record("a", &[], 2)).expect("save");
    let snapshot = store.snapshot();
    assert_eq!(store.cache.len(&snapshot).expect("len"), 2);
    assert!(!store.cache.is_empty(&snapshot).expect("is_empty"));
}

#[test]
fn a_record_that_cannot_be_decoded_fails() {
    let store = Store::open();
    store.save_peer(&make_record("a", &[], 1)).expect("save");
    put_raw(&store, "b", b"no json");
    assert!(matches!(store.get_peer("b"), Err(CacheError::Record(_))));
    assert!(matches!(store.all_peers(), Err(CacheError::Record(_))));
    assert!(matches!(store.cache.len(&store.snapshot()), Err(CacheError::Record(_))));
    assert!(matches!(store.prune_stale(0), Err(CacheError::Record(_))));
    assert_eq!(store.get_peer("a").expect("get").unwrap().last_seen, 1);
}

#[test]
fn a_record_that_cannot_be_encoded_is_not_saved() {
    let store = Store::open();
    let refusing: Codec = PeerCache::new(|_| Err("refused".to_string()), decode);
    let record = make_record("a", &[], 1);
    let outcome = store.write(|table| refusing.save_peer(table, &record));
    assert!(matches!(outcome, Err(CacheError::Record(reason)) if reason == "refused"));
    assert!(store.get_peer("a").expect("get").is_none());
}

#[test]
fn counts_of_listings() {
    let listed: Result<Vec<PeerRecord>, String> = Ok(vec![make_record("a", &[], 1)]);
    assert_eq!(cached_count(&listed), 1);
    let failed: Result<Vec<PeerRecord>, String> = Err("unreadable".to_string());
    assert_eq!(cached_count(&failed), 0);
}

#[test]
fn timestamps() {
    assert_eq!(timestamp_for(Some(12)), 12);
    assert_eq!(timestamp_for(None), 0);
    // The clock is past the year 2020.
    assert!(current_timestamp() > 1_577_836_800);
}

#[test]
fn rows_are_read_up_to_the_first_failure() {
    let cache: Codec = PeerCache::new(encode, decode);
    let row = |id: &str| -> ReadRow {
        Ok((id.to_string(), encode(&make_record(id, &[], 1)).expect("encode")))
    };
    let pairs = cache.decode_rows(vec![row("a"), row("b")]).expect("rows");
    assert_eq!(pairs.len(), 2);
    assert_eq!(pairs[1].0, "b");
    assert_eq!(pairs[1].1.peer_id, "b");
    let unreadable: ReadRow = Err(redb::StorageError::PreviousIo);
    let outcome = cache.decode_rows(vec![row("a"), unreadable]);
    assert!(matches!(outcome, Err(CacheError::Storage(redb::StorageError::PreviousIo))));
    let undecodable: ReadRow = Ok(("b".to_string(), b"no json".to_vec()));
    let outcome = cache.decode_rows(vec![undecodable, Err(redb::StorageError::PreviousIo)]);
    assert!(matches!(outcome, Err(CacheError::Record(_))));
}

#[test]
fn storage_failures_are_passed_on() {
    let cache: Codec = PeerCache::new(encode, decode);
    let failed = cache.read_row(Err(redb::StorageError::PreviousIo));
    assert!(matches!(failed, Err(CacheError::Storage(redb::StorageError::PreviousIo))));
    assert!(cache.read_row(Ok(None)).expect("read").is_none());
    let bytes = encode(&make_record("a", &[], 8)).expect("encode");
    assert_eq!(cache.read_row(Ok(Some(bytes))).expect("read").unwrap().last_seen, 8);
    assert!(matches!(cache.read_row(Ok(Some(Vec::new()))), Err(CacheError::Record(_))));
    let outcome: Outcome<()> = written(Err(redb::StorageError::PreviousIo));
    assert!(matches!(outcome, Err(CacheError::Storage(redb::StorageError::PreviousIo))));
    let outcome: Outcome<()> = written(Ok(()));
    assert!(outcome.is_ok());
}

#[test]
fn only_a_missing_table_is_no_failure() {
    assert_eq!(PEER_TABLE, "peers");
    assert!(matches!(PeerSnapshot::existing(Err(OpenFailure::Missing)), Ok(None)));
    let other = redb::TableError::TableIsMultimap("peers".to_string());
    let outcome = PeerSnapshot::existing(Err(OpenFailure::Failed(other)));
    assert!(matches!(
        outcome,
        Err(OpenFailure::Failed(redb::TableError::TableIsMultimap(_)))
    ));
    let store = Store::open();
    store.save_peer(&make_record("a", &[], 1)).expect("save");
    assert!(store.snapshot().is_some());
}

#[test]
fn saving_again_changes_nothing() {
    let store = Store::open();
    let record = make_record("a", &["/ip4/1.1.1.1/tcp/1"], 5);
    store.save_peer(&record).expect("save");
    assert_eq!(store.cache.len(&store.snapshot()).expect("len"), 1);
    store.save_peer(&record).expect("save");
    assert_eq!(store.cache.len(&store.snapshot()).expect("len"), 1);
    let got = store.get_peer("a").expect("get").unwrap();
    assert_eq!(got.multiaddrs, record.multiaddrs);
    assert_eq!(got.last_seen, 5);
    store.save_peer(&make_record("b", &[], 1)).expect("save");
    assert_eq!(store.cache.len(&store.snapshot()).expect("len"), 2);
}

#[test]
fn the_list_agrees_with_lookups() {
    let store = Store::open();
    for (id, seen) in [("c", 3), ("a", 1), ("b", 2), ("a", 9)] {
        store.save_peer(&make_record(id, &[], seen)).expect("save");
    }
    store.write(|table| store.cache.prune_stale_at(table, 9, 6)).expect("prune");
    let all = store.all_peers().expect("all");
    let listed: Vec<(&str, u64)> = all.iter().map(|r| (r.peer_id.as_str(), r.last_seen)).collect();
    assert_eq!(listed, vec![("a", 9), ("c", 3)]);
    for record in &all {
        let got = store.get_peer(&record.peer_id).expect("get").unwrap();
        assert_eq!(got.last_seen, record.last_seen);
    }
    assert!(store.get_peer("b").expect("get").is_none());
}
