//! The peer cache: what is recorded of a peer, and how records are kept in the stored table.
//!
//! The table maps a peer id to the encoded record of that peer. How a record is encoded is up to
//! the caller.
use vstd::prelude::*;

use crate::peer_table::{PeerSnapshot, PeerTable, ReadRow};

verus! {

/// All the information that is kept about a single remote peer.
#[derive(Debug, Clone)]
pub struct PeerRecord {
    /// The peer id in base58.
    pub peer_id: String,
    /// Every known multiaddress of this peer (as strings).
    pub multiaddrs: Vec<String>,
    /// I2P destination string.
    pub i2p_destination: Option<String>,
    /// Unix timestamp (seconds) of the last successful connection.
    pub last_seen: u64,
    /// How many times we have connected to this peer.
    pub connection_count: u32,
    /// Measured round-trip time in milliseconds, if known.
    pub rtt_ms: Option<u32>,
    /// Does this peer offer Circuit Relay v2 service?
    pub is_relay: bool,
    /// Is this peer publicly reachable (not behind NAT)?
    pub is_public: bool,
}

/// The content of a [`PeerRecord`].
#[verifier::ext_equal]
pub struct PeerRecordView {
    pub peer_id: Seq<char>,
    pub multiaddrs: Seq<Seq<char>>,
    pub i2p_destination: Option<Seq<char>>,
    pub last_seen: u64,
    pub connection_count: u32,
    pub rtt_ms: Option<u32>,
    pub is_relay: bool,
    pub is_public: bool,
}

impl View for PeerRecord {
    type V = PeerRecordView;

    open spec fn view(&self) -> PeerRecordView {
        PeerRecordView {
            peer_id: self.peer_id@,
            multiaddrs: Seq::new(self.multiaddrs@.len(), |i: int| self.multiaddrs@[i]@),
            i2p_destination: match self.i2p_destination {
                Some(destination) => Some(destination@),
                None => None,
            },
            last_seen: self.last_seen,
            connection_count: self.connection_count,
            rtt_ms: self.rtt_ms,
            is_relay: self.is_relay,
            is_public: self.is_public,
        }
    }
}

/// Why an operation of the cache failed.
#[derive(Debug)]
pub enum CacheError<E> {
    /// The storage failed.
    Storage(redb::StorageError),
    /// A record could not be encoded or decoded.
    Record(E),
}

/// Whether a peer was last seen more than `max_age_secs` before `now`.
pub open spec fn stale(last_seen: u64, now: u64, max_age_secs: u64) -> bool {
    now - last_seen > max_age_secs
}

/// Whether decoding these bytes may end so.
pub open spec fn decodes<E, D: Fn(&[u8]) -> Result<PeerRecord, E>>(
    decode: D,
    bytes: Seq<u8>,
    outcome: Result<PeerRecord, E>,
) -> bool {
    exists|slice: &[u8]| slice@ == bytes && #[trigger] decode.ensures((slice,), outcome)
}

/// Whether these are the decoded records of the listing's rows, in their order.
pub open spec fn decoded<E, D: Fn(&[u8]) -> Result<PeerRecord, E>>(
    decode: D,
    listing: Seq<(Seq<char>, Seq<u8>)>,
    records: Seq<PeerRecord>,
) -> bool {
    &&& records.len() == listing.len()
    &&& forall|i: int|
        0 <= i < listing.len() ==> decodes(decode, (#[trigger] listing[i]).1, Ok(records[i]))
}

/// Whether decoding the listing's rows in their order first fails with this error.
pub open spec fn undecodable<E, D: Fn(&[u8]) -> Result<PeerRecord, E>>(
    decode: D,
    listing: Seq<(Seq<char>, Seq<u8>)>,
    error: E,
) -> bool {
    exists|records: Seq<PeerRecord>|
        records.len() < listing.len() && #[trigger] decoded(
            decode,
            listing.take(records.len() as int),
            records,
        ) && decodes(decode, listing[records.len() as int].1, Err(error))
}

/// Whether the row was read, and the pair is its key and its decoded record.
pub open spec fn decoded_row<E, D: Fn(&[u8]) -> Result<PeerRecord, E>>(
    decode: D,
    item: ReadRow,
    pair: (String, PeerRecord),
) -> bool {
    item is Ok && pair.0@ == item->Ok_0.0@ && decodes(decode, item->Ok_0.1@, Ok(pair.1))
}

/// Whether all rows were read, and the pairs are their keys and decoded records, in their order.
pub open spec fn all_decoded<E, D: Fn(&[u8]) -> Result<PeerRecord, E>>(
    decode: D,
    items: Seq<ReadRow>,
    pairs: Seq<(String, PeerRecord)>,
) -> bool {
    &&& pairs.len() == items.len()
    &&& forall|i: int| 0 <= i < items.len() ==> decoded_row(decode, #[trigger] items[i], pairs[i])
}

/// Whether the row could not be read or decoded, with this failure.
pub open spec fn failing_row<E, D: Fn(&[u8]) -> Result<PeerRecord, E>>(
    decode: D,
    item: ReadRow,
    failure: CacheError<E>,
) -> bool {
    match failure {
        CacheError::Storage(error) => item == Err::<(String, Vec<u8>), redb::StorageError>(error),
        CacheError::Record(error) => item is Ok && decodes(decode, item->Ok_0.1@, Err(error)),
    }
}

/// Whether the first row that could not be read or decoded failed so.
pub open spec fn decoding_ends<E, D: Fn(&[u8]) -> Result<PeerRecord, E>>(
    decode: D,
    items: Seq<ReadRow>,
    failure: CacheError<E>,
) -> bool {
    exists|pairs: Seq<(String, PeerRecord)>|
        pairs.len() < items.len() && #[trigger] all_decoded(
            decode,
            items.take(pairs.len() as int),
            pairs,
        ) && failing_row(decode, items[pairs.len() as int], failure)
}

/// Whether this storage failure may end a listing of the snapshot: walking through its rows gave
/// it, at once or for the first row that could not be read, with all rows before that decoded.
pub open spec fn snapshot_unreadable<E, D: Fn(&[u8]) -> Result<PeerRecord, E>>(
    decode: D,
    snapshot: PeerSnapshot,
    error: redb::StorageError,
) -> bool {
    ||| snapshot.walk_answers(Err(error))
    ||| exists|items: Vec<ReadRow>| #[trigger]
        snapshot.walk_answers(Ok(items)) && decoding_ends(
            decode,
            items@,
            CacheError::Storage(error),
        )
}

/// Whether this storage failure may end a listing of the table: walking through its rows gave it,
/// at once or for the first row that could not be read, with all rows before that decoded.
pub open spec fn table_unreadable<E, D: Fn(&[u8]) -> Result<PeerRecord, E>>(
    decode: D,
    table: PeerTable,
    error: redb::StorageError,
) -> bool {
    ||| table.walk_answers(Err(error))
    ||| exists|items: Vec<ReadRow>| #[trigger]
        table.walk_answers(Ok(items)) && decoding_ends(decode, items@, CacheError::Storage(error))
}

/// The rows of the snapshot; a table that does not exist has none.
pub open spec fn rows_of(snapshot: Option<PeerSnapshot>) -> Map<Seq<char>, Seq<u8>> {
    match snapshot {
        Some(table) => table@,
        None => Map::empty(),
    }
}

/// Whether the rows `after` are those `before` with the encoded record under its peer id, in
/// place of what was there.
pub open spec fn saved<E, N: Fn(&PeerRecord) -> Result<Vec<u8>, E>>(
    encode: N,
    before: Map<Seq<char>, Seq<u8>>,
    after: Map<Seq<char>, Seq<u8>>,
    record: &PeerRecord,
) -> bool {
    exists|bytes: Vec<u8>| #[trigger]
        encode.ensures((record,), Ok(bytes)) && after == before.insert(record@.peer_id, bytes@)
}

/// Whether looking up the peer in the rows may end so: `None` just where there is no row for it,
/// and otherwise what decoding that row gave.
pub open spec fn found<E, D: Fn(&[u8]) -> Result<PeerRecord, E>>(
    decode: D,
    rows: Map<Seq<char>, Seq<u8>>,
    peer_id: Seq<char>,
    outcome: Result<Option<PeerRecord>, E>,
) -> bool {
    match outcome {
        Ok(None) => !rows.contains_key(peer_id),
        Ok(Some(record)) => rows.contains_key(peer_id) && decodes(
            decode,
            rows[peer_id],
            Ok(record),
        ),
        Err(error) => rows.contains_key(peer_id) && decodes(decode, rows[peer_id], Err(error)),
    }
}

/// Whether listing all peers of the rows may end so: the decoded records in ascending order of
/// their keys, or the first failure to decode one.
pub open spec fn listed<E, D: Fn(&[u8]) -> Result<PeerRecord, E>>(
    decode: D,
    rows: Map<Seq<char>, Seq<u8>>,
    outcome: Result<Seq<PeerRecord>, E>,
) -> bool {
    exists|listing: Seq<(Seq<char>, Seq<u8>)>| #[trigger]
        crate::peer_table::in_order(listing, rows) && match outcome {
            Ok(records) => decoded(decode, listing, records),
            Err(error) => undecodable(decode, listing, error),
        }
}

/// The rows without those whose record was last seen more than `max_age_secs` before `now`.
pub open spec fn fresh_rows(
    rows: Map<Seq<char>, Seq<u8>>,
    listing: Seq<(Seq<char>, Seq<u8>)>,
    records: Seq<PeerRecord>,
    now: u64,
    max_age_secs: u64,
) -> Map<Seq<char>, Seq<u8>> {
    rows.restrict(
        Set::new(
            |key: Seq<char>|
                forall|i: int|
                    0 <= i < listing.len() && (#[trigger] listing[i]).0 == key ==> !stale(
                        records[i].last_seen,
                        now,
                        max_age_secs,
                    ),
        ),
    )
}

/// Whether the rows `after` are those `before` without the stale ones.
pub open spec fn pruned<E, D: Fn(&[u8]) -> Result<PeerRecord, E>>(
    decode: D,
    before: Map<Seq<char>, Seq<u8>>,
    after: Map<Seq<char>, Seq<u8>>,
    now: u64,
    max_age_secs: u64,
) -> bool {
    exists|listing: Seq<(Seq<char>, Seq<u8>)>, records: Seq<PeerRecord>| #[trigger]
        decoded(decode, listing, records) && crate::peer_table::in_order(listing, before) && after
            == fresh_rows(before, listing, records, now, max_age_secs)
}

/// Whether the listing has a row under this key whose record is stale.
pub open spec fn lists_stale(
    listing: Seq<(Seq<char>, Seq<u8>)>,
    records: Seq<PeerRecord>,
    key: Seq<char>,
    now: u64,
    max_age_secs: u64,
) -> bool {
    exists|i: int|
        0 <= i < listing.len() && (#[trigger] listing[i]).0 == key && stale(
            records[i].last_seen,
            now,
            max_age_secs,
        )
}

/// Whether this storage failure may end a pruning: removing a stale row gave it, when none but
/// stale rows had been removed before.
pub open spec fn removal_failed<E, D: Fn(&[u8]) -> Result<PeerRecord, E>>(
    decode: D,
    before: Map<Seq<char>, Seq<u8>>,
    now: u64,
    max_age_secs: u64,
    error: redb::StorageError,
) -> bool {
    exists|
        listing: Seq<(Seq<char>, Seq<u8>)>,
        records: Seq<PeerRecord>,
        partly: PeerTable,
        key: Seq<char>,
    |
        #[trigger] decoded(decode, listing, records) && crate::peer_table::in_order(listing, before)
            && lists_stale(listing, records, key, now, max_age_secs) && fresh_rows(
            before,
            listing,
            records,
            now,
            max_age_secs,
        ).submap_of(partly@) && partly@.submap_of(before) && #[trigger] PeerTable::remove_answers(
            partly,
            key,
            Err(error),
        )
}

/// The peer cache: stores records under the ids of their peers, encoded by `encode`, and reads
/// them back with `decode`.
pub struct PeerCache<N, D> {
    pub encode: N,
    pub decode: D,
}

impl<E, N: Fn(&PeerRecord) -> Result<Vec<u8>, E>, D: Fn(&[u8]) -> Result<PeerRecord, E>> PeerCache<
    N,
    D,
> {
    /// Any record can be handed to the encoder and any bytes to the decoder.
    pub open spec fn well_formed(self) -> bool {
        &&& forall|record: &PeerRecord| #[trigger] self.encode.requires((record,))
        &&& forall|bytes: &[u8]| #[trigger] self.decode.requires((bytes,))
    }

    pub fn new(encode: N, decode: D) -> (cache: Self)
        requires
            forall|record: &PeerRecord| #[trigger] encode.requires((record,)),
            forall|bytes: &[u8]| #[trigger] decode.requires((bytes,)),
        ensures
            cache.well_formed(),
            cache.encode == encode,
            cache.decode == decode,
    {
        PeerCache { encode, decode }
    }

    /// Inserts or updates a peer record.
    pub fn save_peer(&self, table: &mut PeerTable, record: &PeerRecord) -> (outcome: Result<
        (),
        CacheError<E>,
    >)
        requires
            self.well_formed(),
        ensures
            match outcome {
                Ok(()) => saved(self.encode, old(table)@, final(table)@, record),
                Err(CacheError::Record(error)) => self.encode.ensures((record,), Err(error))
                    && *final(table) == *old(table),
                Err(CacheError::Storage(error)) => exists|bytes: Vec<u8>| #[trigger]
                    self.encode.ensures((record,), Ok(bytes)) && PeerTable::insert_answers(
                        *old(table),
                        record@.peer_id,
                        bytes@,
                        Err(error),
                    ),
            },
    {
        match (self.encode)(record) {
            Ok(bytes) => written(table.put_row(record.peer_id.as_str(), bytes.as_slice())),
            Err(error) => Err(CacheError::Record(error)),
        }
    }

    /// Looks up a single peer by its id.
    pub fn get_peer(&self, snapshot: &Option<PeerSnapshot>, peer_id: &str) -> (outcome: Result<
        Option<PeerRecord>,
        CacheError<E>,
    >)
        requires
            self.well_formed(),
        ensures
            match outcome {
                Ok(record) => found(self.decode, rows_of(*snapshot), peer_id@, Ok(record)),
                Err(CacheError::Record(error)) => found(
                    self.decode,
                    rows_of(*snapshot),
                    peer_id@,
                    Err(error),
                ),
                Err(CacheError::Storage(error)) => snapshot is Some && snapshot->0.get_answers(
                    peer_id@,
                    Err(error),
                ),
            },
    {
        let table = match snapshot {
            Some(table) => table,
            None => {
                return Ok(None);
            },
        };
        self.read_row(table.read_value(peer_id))
    }

    /// The record of a row, from what reading the row gave.
    pub fn read_row(&self, read: Result<Option<Vec<u8>>, redb::StorageError>) -> (outcome: Result<
        Option<PeerRecord>,
        CacheError<E>,
    >)
        requires
            self.well_formed(),
        ensures
            match read {
                Ok(None) => outcome == Ok::<Option<PeerRecord>, CacheError<E>>(None),
                Ok(Some(bytes)) => match outcome {
                    Ok(record) => record is Some && decodes(self.decode, bytes@, Ok(record->0)),
                    Err(CacheError::Record(error)) => decodes(self.decode, bytes@, Err(error)),
                    Err(CacheError::Storage(_)) => false,
                },
                Err(error) => outcome == Err::<Option<PeerRecord>, CacheError<E>>(
                    CacheError::Storage(error),
                ),
            },
    {
        match read {
            Ok(Some(bytes)) => {
                let slice = bytes.as_slice();
                match (self.decode)(slice) {
                    Ok(record) => {
                        assert(self.decode.ensures((slice,), Ok(record)));
                        Ok(Some(record))
                    },
                    Err(error) => {
                        assert(self.decode.ensures((slice,), Err(error)));
                        Err(CacheError::Record(error))
                    },
                }
            },
            Ok(None) => Ok(None),
            Err(error) => Err(CacheError::Storage(error)),
        }
    }

    /// The keys of the rows with their decoded records, in the order of the rows, or the first
    /// failure to read or decode one.
    pub fn decode_rows(&self, items: Vec<ReadRow>) -> (outcome: Result<
        Vec<(String, PeerRecord)>,
        CacheError<E>,
    >)
        requires
            self.well_formed(),
        ensures
            match outcome {
                Ok(pairs) => all_decoded(self.decode, items@, pairs@),
                Err(error) => decoding_ends(self.decode, items@, error),
            },
    {
        let ghost all = items@;
        let mut pairs: Vec<(String, PeerRecord)> = Vec::new();
        for item in it: items
            invariant
                self.well_formed(),
                it.seq() == all,
                all_decoded(self.decode, all.take(it.index() as int), pairs@),
        {
            let ghost at = it.index() as int;
            assert(all[at] == item);
            assert(all.take(pairs@.len() as int) == all.take(at));
            match item {
                Ok((key, bytes)) => {
                    let slice = bytes.as_slice();
                    match (self.decode)(slice) {
                        Ok(record) => {
                            assert(self.decode.ensures((slice,), Ok(record)));
                            let ghost before = pairs@;
                            pairs.push((key, record));
                            assert forall|i: int| 0 <= i < at + 1 implies decoded_row(
                                self.decode,
                                #[trigger] all.take(at + 1)[i],
                                pairs@[i],
                            ) by {
                                if i < at {
                                    assert(decoded_row(self.decode, all.take(at)[i], before[i]));
                                }
                            }
                        },
                        Err(error) => {
                            assert(self.decode.ensures((slice,), Err(error)));
                            assert(failing_row(
                                self.decode,
                                all[pairs@.len() as int],
                                CacheError::Record(error),
                            ));
                            return Err(CacheError::Record(error));
                        },
                    }
                },
                Err(error) => {
                    assert(failing_row(
                        self.decode,
                        all[pairs@.len() as int],
                        CacheError::Storage(error),
                    ));
                    return Err(CacheError::Storage(error));
                },
            }
        }
        assert(all.take(all.len() as int) =~= all);
        Ok(pairs)
    }

    /// Returns every cached peer record, in ascending order of the peer ids they are stored under.
    pub fn all_peers(&self, snapshot: &Option<PeerSnapshot>) -> (outcome: Result<
        Vec<PeerRecord>,
        CacheError<E>,
    >)
        requires
            self.well_formed(),
        ensures
            match outcome {
                Ok(records) => listed(self.decode, rows_of(*snapshot), Ok(records@)),
                Err(CacheError::Record(error)) => listed(
                    self.decode,
                    rows_of(*snapshot),
                    Err(error),
                ),
                Err(CacheError::Storage(error)) => snapshot is Some && snapshot_unreadable(
                    self.decode,
                    snapshot->0,
                    error,
                ),
            },
    {
        let table = match snapshot {
            Some(table) => table,
            None => {
                let none: Vec<PeerRecord> = Vec::new();
                proof {
                    let listing: Seq<(Seq<char>, Seq<u8>)> = seq![];
                    assert(crate::peer_table::in_order(listing, rows_of(*snapshot)));
                    assert(decoded(self.decode, listing, none@));
                }
                return Ok(none);
            },
        };
        let items = match table.read_rows() {
            Ok(items) => items,
            Err(error) => {
                return Err(CacheError::Storage(error));
            },
        };
        let ghost listing = choose|listing: Seq<(Seq<char>, Seq<u8>)>|
            crate::peer_table::in_order(listing, table@) && #[trigger] crate::peer_table::walked(
                items@,
                listing,
            );
        let ghost read = items@;
        match self.decode_rows(items) {
            Ok(pairs) => {
                proof {
                    lemma_all_decoded(self.decode, read, listing, pairs@);
                }
                let records = records_only(pairs);
                assert(crate::peer_table::in_order(listing, rows_of(*snapshot)));
                Ok(records)
            },
            Err(error) => {
                proof {
                    lemma_decoding_ends(self.decode, read, listing, error);
                    assert(crate::peer_table::in_order(listing, rows_of(*snapshot)));
                }
                Err(error)
            },
        }
    }

    /// Removes the peers that were last seen more than `max_age_secs` before `now`. Where a record
    /// cannot be decoded, the table stays as it is.
    pub fn prune_stale_at(&self, table: &mut PeerTable, now: u64, max_age_secs: u64) -> (outcome:
        Result<(), CacheError<E>>)
        requires
            self.well_formed(),
        ensures
            match outcome {
                Ok(()) => pruned(self.decode, old(table)@, final(table)@, now, max_age_secs),
                Err(CacheError::Record(error)) => listed(self.decode, old(table)@, Err(error))
                    && *final(table) == *old(table),
                Err(CacheError::Storage(error)) => {
                    ||| table_unreadable(self.decode, *old(table), error) && *final(table) == *old(
                        table,
                    )
                    ||| removal_failed(self.decode, old(table)@, now, max_age_secs, error)
                },
            },
    {
        let items = match table.read_rows() {
            Ok(items) => items,
            Err(error) => {
                return Err(CacheError::Storage(error));
            },
        };
        let ghost before = table@;
        let ghost listing = choose|listing: Seq<(Seq<char>, Seq<u8>)>|
            crate::peer_table::in_order(listing, before) && #[trigger] crate::peer_table::walked(
                items@,
                listing,
            );
        let ghost read = items@;
        let pairs = match self.decode_rows(items) {
            Ok(pairs) => pairs,
            Err(error) => {
                proof {
                    lemma_decoding_ends(self.decode, read, listing, error);
                    assert(crate::peer_table::in_order(listing, before));
                }
                return Err(error);
            },
        };
        proof {
            lemma_all_decoded(self.decode, read, listing, pairs@);
        }
        let keys = stale_keys(&pairs, now, max_age_secs);
        let ghost gone = keys@;
        for key in it: keys
            invariant
                it.seq() == gone,
                before == old(table)@,
                decoded(self.decode, listing, records_of(pairs@)),
                keyed(pairs@, listing),
                crate::peer_table::in_order(listing, before),
                forall|id: Seq<char>| #[trigger]
                    has_key(gone, id) <==> has_stale(pairs@, id, now, max_age_secs),
                forall|id: Seq<char>| #[trigger]
                    table@.contains_key(id) <==> before.contains_key(id) && !has_key(
                        gone.take(it.index() as int),
                        id,
                    ),
                forall|id: Seq<char>| #[trigger]
                    table@.contains_key(id) ==> table@[id] == before[id],
        {
            let ghost at = it.index() as int;
            let ghost rows = table@;
            let ghost partly = *table;
            match written(table.drop_row(key.as_str())) {
                Ok(()) => {},
                Err(error) => {
                    proof {
                        lemma_removal_failed(
                            self.decode,
                            before,
                            listing,
                            pairs@,
                            gone,
                            at,
                            partly,
                            now,
                            max_age_secs,
                            error->Storage_0,
                        );
                    }
                    return Err(error);
                },
            }
            proof {
                assert(gone.take(at + 1) =~= gone.take(at).push(key));
                assert forall|id: Seq<char>| #[trigger]
                    table@.contains_key(id) <==> before.contains_key(id) && !has_key(
                        gone.take(at + 1),
                        id,
                    ) by {
                    lemma_has_key_push(gone.take(at), key, id);
                    assert(rows.contains_key(id) <==> before.contains_key(id) && !has_key(
                        gone.take(at),
                        id,
                    ));
                }
                assert forall|id: Seq<char>| #[trigger] table@.contains_key(id) implies table@[id]
                    == before[id] by {
                    assert(rows.contains_key(id));
                }
            }
        }
        proof {
            assert(gone.take(gone.len() as int) =~= gone);
            let fresh = fresh_rows(before, listing, records_of(pairs@), now, max_age_secs);
            assert forall|id: Seq<char>| #[trigger]
                table@.contains_key(id) <==> fresh.contains_key(id) by {
                lemma_stale_row(pairs@, listing, id, now, max_age_secs);
            }
            assert(table@ =~= fresh);
        }
        Ok(())
    }

    /// Removes the peers whose `last_seen` is older than `max_age_secs` ago.
    pub fn prune_stale(&self, table: &mut PeerTable, max_age_secs: u64) -> (outcome: Result<
        (),
        CacheError<E>,
    >)
        requires
            self.well_formed(),
        ensures
            match outcome {
                Ok(()) => exists|now: u64|
                    clock_shows(now) && #[trigger] pruned(
                        self.decode,
                        old(table)@,
                        final(table)@,
                        now,
                        max_age_secs,
                    ),
                Err(CacheError::Record(error)) => listed(self.decode, old(table)@, Err(error))
                    && *final(table) == *old(table),
                Err(CacheError::Storage(error)) => {
                    ||| table_unreadable(self.decode, *old(table), error) && *final(table) == *old(
                        table,
                    )
                    ||| exists|now: u64|
                        clock_shows(now) && #[trigger] removal_failed(
                            self.decode,
                            old(table)@,
                            now,
                            max_age_secs,
                            error,
                        )
                },
            },
    {
        let now = current_timestamp();
        self.prune_stale_at(table, now, max_age_secs)
    }

    /// Number of cached peers.
    pub fn len(&self, snapshot: &Option<PeerSnapshot>) -> (outcome: Result<usize, CacheError<E>>)
        requires
            self.well_formed(),
        ensures
            match outcome {
                Ok(count) => rows_of(*snapshot).dom().finite() && count == rows_of(
                    *snapshot,
                ).dom().len() && exists|records: Seq<PeerRecord>| #[trigger]
                    listed(self.decode, rows_of(*snapshot), Ok(records)),
                Err(CacheError::Record(error)) => listed(
                    self.decode,
                    rows_of(*snapshot),
                    Err(error),
                ),
                Err(CacheError::Storage(error)) => snapshot is Some && snapshot_unreadable(
                    self.decode,
                    snapshot->0,
                    error,
                ),
            },
    {
        match self.all_peers(snapshot) {
            Ok(records) => {
                proof {
                    all_peers_are_listed(self.decode, rows_of(*snapshot), records@);
                }
                Ok(records.len())
            },
            Err(error) => Err(error),
        }
    }

    /// Whether the cache is empty.
    pub fn is_empty(&self, snapshot: &Option<PeerSnapshot>) -> (outcome: Result<
        bool,
        CacheError<E>,
    >)
        requires
            self.well_formed(),
        ensures
            match outcome {
                Ok(empty) => empty == (rows_of(*snapshot) == Map::<Seq<char>, Seq<u8>>::empty())
                    && exists|records: Seq<PeerRecord>| #[trigger]
                    listed(self.decode, rows_of(*snapshot), Ok(records)),
                Err(CacheError::Record(error)) => listed(
                    self.decode,
                    rows_of(*snapshot),
                    Err(error),
                ),
                Err(CacheError::Storage(error)) => snapshot is Some && snapshot_unreadable(
                    self.decode,
                    snapshot->0,
                    error,
                ),
            },
    {
        match self.len(snapshot) {
            Ok(count) => {
                proof {
                    let rows = rows_of(*snapshot);
                    if count == 0 {
                        assert(rows.dom() =~= Set::<Seq<char>>::empty());
                        assert(rows =~= Map::<Seq<char>, Seq<u8>>::empty());
                    }
                }
                Ok(count == 0)
            },
            Err(error) => Err(error),
        }
    }
}

/// The outcome of a write to the table: nothing, or the storage's failure.
pub fn written<E>(outcome: Result<(), redb::StorageError>) -> (written: Result<(), CacheError<E>>)
    ensures
        written == match outcome {
            Ok(()) => Ok::<(), CacheError<E>>(()),
            Err(error) => Err(CacheError::Storage(error)),
        },
{
    match outcome {
        Ok(()) => Ok(()),
        Err(error) => Err(CacheError::Storage(error)),
    }
}

/// The number of cached peers, where a list that could not be read counts as empty.
pub fn cached_count<E>(listed: &Result<Vec<PeerRecord>, E>) -> (count: usize)
    ensures
        count == match *listed {
            Ok(peers) => peers@.len(),
            Err(_) => 0,
        },
{
    match listed {
        Ok(peers) => peers.len(),
        Err(_) => 0,
    }
}

/// Whether the pairs have the listing's keys, in their order.
spec fn keyed(
    pairs: Seq<(String, PeerRecord)>,
    listing: Seq<(Seq<char>, Seq<u8>)>,
) -> bool {
    &&& pairs.len() == listing.len()
    &&& forall|i: int| 0 <= i < listing.len() ==> (#[trigger] listing[i]).0 == pairs[i].0@
}

/// The records of the pairs.
spec fn records_of(pairs: Seq<(String, PeerRecord)>) -> Seq<PeerRecord> {
    Seq::new(pairs.len(), |i: int| pairs[i].1)
}

/// The records without their keys.
fn records_only(pairs: Vec<(String, PeerRecord)>) -> (records: Vec<PeerRecord>)
    ensures
        records@ == records_of(pairs@),
{
    let ghost all = pairs@;
    let mut records: Vec<PeerRecord> = Vec::new();
    for pair in it: pairs
        invariant
            it.seq() == all,
            records@ == records_of(all.take(it.index() as int)),
    {
        let ghost at = it.index() as int;
        records.push(pair.1);
        assert(records_of(all.take(at + 1)) =~= records_of(all.take(at)).push(all[at].1));
    }
    assert(all.take(all.len() as int) =~= all);
    records
}

/// Whether one of the keys is this one.
spec fn has_key(keys: Seq<String>, key: Seq<char>) -> bool {
    exists|j: int| 0 <= j < keys.len() && (#[trigger] keys[j])@ == key
}

/// Whether one of the pairs has this key and a stale record.
spec fn has_stale(
    pairs: Seq<(String, PeerRecord)>,
    key: Seq<char>,
    now: u64,
    max_age_secs: u64,
) -> bool {
    exists|i: int|
        0 <= i < pairs.len() && (#[trigger] pairs[i]).0@ == key && stale(
            pairs[i].1.last_seen,
            now,
            max_age_secs,
        )
}

/// The keys of the pairs whose record is stale.
fn stale_keys(pairs: &Vec<(String, PeerRecord)>, now: u64, max_age_secs: u64) -> (keys: Vec<String>)
    ensures
        forall|key: Seq<char>| #[trigger]
            has_key(keys@, key) <==> has_stale(pairs@, key, now, max_age_secs),
{
    let mut keys: Vec<String> = Vec::new();
    for at in 0..pairs.len()
        invariant
            forall|key: Seq<char>| #[trigger]
                has_key(keys@, key) <==> has_stale(
                    pairs@.take(at as int),
                    key,
                    now,
                    max_age_secs,
                ),
    {
        let ghost before = keys@;
        let seen: u64 = pairs[at].1.last_seen;
        let age: u64 = if now > seen {
            now - seen
        } else {
            0
        };
        if age > max_age_secs {
            keys.push(pairs[at].0.clone());
        }
        proof {
            let front = pairs@.take(at as int);
            let now_taken = pairs@.take(at + 1);
            assert(now_taken =~= front.push(pairs@[at as int]));
            assert forall|key: Seq<char>| #[trigger] has_key(keys@, key) <==> has_stale(
                now_taken,
                key,
                now,
                max_age_secs,
            ) by {
                lemma_has_stale_push(front, pairs@[at as int], key, now, max_age_secs);
                if age > max_age_secs {
                    lemma_has_key_push(before, keys@.last(), key);
                    assert(keys@ =~= before.push(keys@.last()));
                }
            }
        }
    }
    assert(pairs@.take(pairs@.len() as int) =~= pairs@);
    keys
}

proof fn lemma_all_decoded<E, D: Fn(&[u8]) -> Result<PeerRecord, E>>(
    decode: D,
    items: Seq<ReadRow>,
    listing: Seq<(Seq<char>, Seq<u8>)>,
    pairs: Seq<(String, PeerRecord)>,
)
    requires
        crate::peer_table::walked(items, listing),
        all_decoded(decode, items, pairs),
    ensures
        keyed(pairs, listing),
        decoded(decode, listing, records_of(pairs)),
{
    assert forall|i: int| 0 <= i < items.len() implies (#[trigger] items[i]) is Ok by {
        assert(decoded_row(decode, items[i], pairs[i]));
    }
    assert forall|i: int| 0 <= i < listing.len() implies (#[trigger] listing[i]).0 == pairs[i].0@
        && decodes(decode, listing[i].1, Ok(records_of(pairs)[i])) by {
        assert(decoded_row(decode, items[i], pairs[i]));
    }
}

proof fn lemma_decoding_ends<E, D: Fn(&[u8]) -> Result<PeerRecord, E>>(
    decode: D,
    items: Seq<ReadRow>,
    listing: Seq<(Seq<char>, Seq<u8>)>,
    failure: CacheError<E>,
)
    requires
        crate::peer_table::walked(items, listing),
        decoding_ends(decode, items, failure),
    ensures
        failure is Record ==> undecodable(decode, listing, failure->Record_0),
{
    if let CacheError::Record(error) = failure {
        let pairs = choose|pairs: Seq<(String, PeerRecord)>|
            pairs.len() < items.len() && #[trigger] all_decoded(
                decode,
                items.take(pairs.len() as int),
                pairs,
            ) && failing_row(decode, items[pairs.len() as int], failure);
        let n = pairs.len() as int;
        let records = records_of(pairs);
        assert(items[n] is Ok);
        let front = listing.take(n);
        assert forall|i: int| 0 <= i < front.len() implies decodes(
            decode,
            (#[trigger] front[i]).1,
            Ok(records[i]),
        ) by {
            assert(decoded_row(decode, items.take(n)[i], pairs[i]));
            assert(items[i] is Ok);
        }
        assert(decoded(decode, listing.take(records.len() as int), records));
    }
}

proof fn lemma_removal_failed<E, D: Fn(&[u8]) -> Result<PeerRecord, E>>(
    decode: D,
    before: Map<Seq<char>, Seq<u8>>,
    listing: Seq<(Seq<char>, Seq<u8>)>,
    pairs: Seq<(String, PeerRecord)>,
    gone: Seq<String>,
    at: int,
    partly: PeerTable,
    now: u64,
    max_age_secs: u64,
    error: redb::StorageError,
)
    requires
        decoded(decode, listing, records_of(pairs)),
        keyed(pairs, listing),
        crate::peer_table::in_order(listing, before),
        0 <= at < gone.len(),
        forall|id: Seq<char>| #[trigger]
            has_key(gone, id) <==> has_stale(pairs, id, now, max_age_secs),
        forall|id: Seq<char>| #[trigger]
            partly@.contains_key(id) <==> before.contains_key(id) && !has_key(gone.take(at), id),
        forall|id: Seq<char>| #[trigger] partly@.contains_key(id) ==> partly@[id] == before[id],
        PeerTable::remove_answers(partly, gone[at]@, Err(error)),
    ensures
        removal_failed(decode, before, now, max_age_secs, error),
{
    let records = records_of(pairs);
    let key = gone[at]@;
    assert(has_key(gone, key));
    lemma_stale_row(pairs, listing, key, now, max_age_secs);
    let fresh = fresh_rows(before, listing, records, now, max_age_secs);
    assert forall|id: Seq<char>| #[trigger] fresh.contains_key(id) implies partly@.contains_key(
        id,
    ) && partly@[id] == fresh[id] by {
        lemma_stale_row(pairs, listing, id, now, max_age_secs);
        if has_key(gone.take(at), id) {
            let j = choose|j: int|
                0 <= j < gone.take(at).len() && (#[trigger] gone.take(at)[j])@ == id;
            assert(gone[j]@ == id);
            assert(has_key(gone, id));
        }
    }
    assert(fresh.submap_of(partly@));
    assert(partly@.submap_of(before));
    assert(lists_stale(listing, records, key, now, max_age_secs));
}

/// A pair with the key and a stale record is a row of the listing with that key and record.
proof fn lemma_stale_row(
    pairs: Seq<(String, PeerRecord)>,
    listing: Seq<(Seq<char>, Seq<u8>)>,
    key: Seq<char>,
    now: u64,
    max_age_secs: u64,
)
    requires
        keyed(pairs, listing),
    ensures
        !has_stale(pairs, key, now, max_age_secs) <==> forall|i: int|
            0 <= i < listing.len() && (#[trigger] listing[i]).0 == key ==> !stale(
                records_of(pairs)[i].last_seen,
                now,
                max_age_secs,
            ),
{
    if has_stale(pairs, key, now, max_age_secs) {
        let i = choose|i: int|
            0 <= i < pairs.len() && (#[trigger] pairs[i]).0@ == key && stale(
                pairs[i].1.last_seen,
                now,
                max_age_secs,
            );
        assert(listing[i].0 == key);
    } else {
        assert forall|i: int|
            0 <= i < listing.len() && (#[trigger] listing[i]).0 == key implies !stale(
            records_of(pairs)[i].last_seen,
            now,
            max_age_secs,
        ) by {
            assert(pairs[i].0@ == key);
        }
    }
}

proof fn lemma_has_key_push(keys: Seq<String>, last: String, key: Seq<char>)
    ensures
        has_key(keys.push(last), key) <==> has_key(keys, key) || last@ == key,
{
    let pushed = keys.push(last);
    if has_key(keys, key) {
        let j = choose|j: int| 0 <= j < keys.len() && (#[trigger] keys[j])@ == key;
        assert(pushed[j]@ == key);
    }
    assert(pushed[keys.len() as int] == last);
    if has_key(pushed, key) && last@ != key {
        let j = choose|j: int| 0 <= j < pushed.len() && (#[trigger] pushed[j])@ == key;
        assert(keys[j]@ == key);
    }
}

proof fn lemma_has_stale_push(
    pairs: Seq<(String, PeerRecord)>,
    last: (String, PeerRecord),
    key: Seq<char>,
    now: u64,
    max_age_secs: u64,
)
    ensures
        has_stale(pairs.push(last), key, now, max_age_secs) <==> has_stale(
            pairs,
            key,
            now,
            max_age_secs,
        ) || (last.0@ == key && stale(last.1.last_seen, now, max_age_secs)),
{
    let pushed = pairs.push(last);
    if has_stale(pairs, key, now, max_age_secs) {
        let i = choose|i: int|
            0 <= i < pairs.len() && (#[trigger] pairs[i]).0@ == key && stale(
                pairs[i].1.last_seen,
                now,
                max_age_secs,
            );
        assert(pushed[i] == pairs[i]);
    }
    assert(pushed[pairs.len() as int] == last);
    if has_stale(pushed, key, now, max_age_secs) && !(last.0@ == key && stale(
        last.1.last_seen,
        now,
        max_age_secs,
    )) {
        let i = choose|i: int|
            0 <= i < pushed.len() && (#[trigger] pushed[i]).0@ == key && stale(
                pushed[i].1.last_seen,
                now,
                max_age_secs,
            );
        assert(pairs[i] == pushed[i]);
    }
}

/// Listing all peers gives as many records as there are rows.
pub proof fn all_peers_are_listed<E, D: Fn(&[u8]) -> Result<PeerRecord, E>>(
    decode: D,
    rows: Map<Seq<char>, Seq<u8>>,
    records: Seq<PeerRecord>,
)
    requires
        listed(decode, rows, Ok(records)),
    ensures
        rows.dom().finite(),
        records.len() == rows.dom().len(),
{
    let listing = choose|listing: Seq<(Seq<char>, Seq<u8>)>| #[trigger]
        crate::peer_table::in_order(listing, rows) && decoded(decode, listing, records);
    let keys = Seq::new(listing.len(), |i: int| listing[i].0);
    assert(keys.no_duplicates()) by {
        assert forall|i: int, j: int| 0 <= i < keys.len() && 0 <= j < keys.len() && i != j implies keys[i]
            != keys[j] by {
            crate::text::text_order_is_strict_total(keys[i], keys[j], keys[i]);
            if i < j {
                assert(crate::text::text_before(listing[i].0, listing[j].0));
            } else {
                assert(crate::text::text_before(listing[j].0, listing[i].0));
            }
        }
    }
    keys.unique_seq_to_set();
    assert forall|key: Seq<char>| keys.to_set().contains(key) <==> rows.dom().contains(key) by {
        if rows.contains_key(key) {
            let i = choose|i: int| 0 <= i < listing.len() && (#[trigger] listing[i]).0 == key;
            assert(keys[i] == key);
        }
        if keys.contains(key) {
            let i = choose|i: int| 0 <= i < keys.len() && keys[i] == key;
            assert(rows.contains_key(listing[i].0));
        }
    }
    assert(keys.to_set() =~= rows.dom());
}

/// Whether decoding gives back what was encoded.
pub open spec fn faithful<
    E,
    N: Fn(&PeerRecord) -> Result<Vec<u8>, E>,
    D: Fn(&[u8]) -> Result<PeerRecord, E>,
>(encode: N, decode: D) -> bool {
    forall|record: &PeerRecord, bytes: Vec<u8>, outcome: Result<PeerRecord, E>| #[trigger]
        encode.ensures((record,), Ok(bytes)) && #[trigger] decodes(decode, bytes@, outcome)
            ==> outcome is Ok && outcome->Ok_0@ == record@
}

/// Whether decoding the same bytes always ends the same way.
pub open spec fn repeatable<E, D: Fn(&[u8]) -> Result<PeerRecord, E>>(decode: D) -> bool {
    forall|bytes: Seq<u8>, first: Result<PeerRecord, E>, second: Result<PeerRecord, E>| #[trigger]
        decodes(decode, bytes, first) && #[trigger] decodes(decode, bytes, second) ==> first
            == second
}

/// A saved peer is found: looking it up in the rows that a save left gives the record that was
/// saved, in place of any earlier record of that peer.
pub proof fn saved_peer_is_found<
    E,
    N: Fn(&PeerRecord) -> Result<Vec<u8>, E>,
    D: Fn(&[u8]) -> Result<PeerRecord, E>,
>(
    encode: N,
    decode: D,
    before: Map<Seq<char>, Seq<u8>>,
    after: Map<Seq<char>, Seq<u8>>,
    record: &PeerRecord,
    outcome: Result<Option<PeerRecord>, E>,
)
    requires
        faithful(encode, decode),
        saved(encode, before, after, record),
        found(decode, after, record@.peer_id, outcome),
    ensures
        outcome is Ok && outcome->Ok_0 is Some && outcome->Ok_0->0@ == record@,
{
    let bytes = choose|bytes: Vec<u8>| #[trigger]
        encode.ensures((record,), Ok(bytes)) && after == before.insert(record@.peer_id, bytes@);
    assert(after.contains_key(record@.peer_id) && after[record@.peer_id] == bytes@);
    match outcome {
        Ok(Some(other)) => {
            assert(decodes(decode, bytes@, Ok(other)));
        },
        Ok(None) => {},
        Err(error) => {
            assert(decodes(decode, bytes@, Err(error)));
        },
    }
}

/// Saving a peer changes nothing for any other peer: looking it up ends as it would have before.
pub proof fn saving_leaves_other_peers<
    E,
    N: Fn(&PeerRecord) -> Result<Vec<u8>, E>,
    D: Fn(&[u8]) -> Result<PeerRecord, E>,
>(
    encode: N,
    decode: D,
    before: Map<Seq<char>, Seq<u8>>,
    after: Map<Seq<char>, Seq<u8>>,
    record: &PeerRecord,
    other: Seq<char>,
    outcome: Result<Option<PeerRecord>, E>,
)
    requires
        saved(encode, before, after, record),
        other != record@.peer_id,
    ensures
        found(decode, after, other, outcome) <==> found(decode, before, other, outcome),
{
}

/// After a save there is a row for the saved peer and for those that had one before, and for no
/// other; so there is one row more just if the peer is new.
pub proof fn saving_adds_at_most_one_row<E, N: Fn(&PeerRecord) -> Result<Vec<u8>, E>>(
    encode: N,
    before: Map<Seq<char>, Seq<u8>>,
    after: Map<Seq<char>, Seq<u8>>,
    record: &PeerRecord,
)
    requires
        saved(encode, before, after, record),
    ensures
        after.dom() == before.dom().insert(record@.peer_id),
        before.dom().finite() ==> after.dom().finite() && after.dom().len()
            == before.dom().len() + if before.contains_key(record@.peer_id) {
            0nat
        } else {
            1
        },
{
    assert(after.dom() =~= before.dom().insert(record@.peer_id));
}

/// Whether encoding the same record always gives the same bytes.
pub open spec fn steady<E, N: Fn(&PeerRecord) -> Result<Vec<u8>, E>>(encode: N) -> bool {
    forall|first: &PeerRecord, second: &PeerRecord, bytes: Vec<u8>, again: Vec<u8>| #[trigger]
        encode.ensures((first,), Ok(bytes)) && #[trigger] encode.ensures((second,), Ok(again))
            && first@ == second@ ==> bytes@ == again@
}

/// Saving the same record again changes nothing.
pub proof fn saving_again_changes_nothing<E, N: Fn(&PeerRecord) -> Result<Vec<u8>, E>>(
    encode: N,
    before: Map<Seq<char>, Seq<u8>>,
    once: Map<Seq<char>, Seq<u8>>,
    twice: Map<Seq<char>, Seq<u8>>,
    record: &PeerRecord,
    same: &PeerRecord,
)
    requires
        steady(encode),
        record@ == same@,
        saved(encode, before, once, record),
        saved(encode, once, twice, same),
    ensures
        twice == once,
{
    let first = choose|bytes: Vec<u8>| #[trigger]
        encode.ensures((record,), Ok(bytes)) && once == before.insert(record@.peer_id, bytes@);
    let second = choose|bytes: Vec<u8>| #[trigger]
        encode.ensures((same,), Ok(bytes)) && twice == once.insert(same@.peer_id, bytes@);
    assert(first@ == second@);
    assert(twice =~= once);
}

/// Whether the row under this key is an encoded record of the peer with that id.
pub open spec fn own_row<E, N: Fn(&PeerRecord) -> Result<Vec<u8>, E>>(
    encode: N,
    rows: Map<Seq<char>, Seq<u8>>,
    key: Seq<char>,
) -> bool {
    exists|record: PeerRecord, bytes: Vec<u8>| #[trigger]
        encode.ensures((&record,), Ok(bytes)) && bytes@ == rows[key] && record@.peer_id == key
}

/// Whether every row is an encoded record under the id of its own peer.
pub open spec fn filled<E, N: Fn(&PeerRecord) -> Result<Vec<u8>, E>>(
    encode: N,
    rows: Map<Seq<char>, Seq<u8>>,
) -> bool {
    forall|key: Seq<char>| #[trigger] rows.contains_key(key) ==> own_row(encode, rows, key)
}

/// Rows that come from saving and pruning alone are encoded records, each under the id of its own
/// peer: an empty table is so, and saving and pruning keep it.
pub proof fn saving_and_pruning_keep_rows_filled<
    E,
    N: Fn(&PeerRecord) -> Result<Vec<u8>, E>,
    D: Fn(&[u8]) -> Result<PeerRecord, E>,
>(
    encode: N,
    decode: D,
    before: Map<Seq<char>, Seq<u8>>,
    after: Map<Seq<char>, Seq<u8>>,
    record: &PeerRecord,
    now: u64,
    max_age_secs: u64,
)
    ensures
        filled(encode, Map::<Seq<char>, Seq<u8>>::empty()),
        filled(encode, before) && saved(encode, before, after, record) ==> filled(encode, after),
        filled(encode, before) && pruned(decode, before, after, now, max_age_secs) ==> filled(
            encode,
            after,
        ),
{
    if filled(encode, before) && saved(encode, before, after, record) {
        let bytes = choose|bytes: Vec<u8>| #[trigger]
            encode.ensures((record,), Ok(bytes)) && after == before.insert(
                record@.peer_id,
                bytes@,
            );
        assert forall|key: Seq<char>| #[trigger] after.contains_key(key) implies own_row(
            encode,
            after,
            key,
        ) by {
            if key == record@.peer_id {
                assert(encode.ensures((&*record,), Ok(bytes)));
            } else {
                assert(before.contains_key(key));
                assert(own_row(encode, before, key));
            }
        }
    }
    if filled(encode, before) && pruned(decode, before, after, now, max_age_secs) {
        assert forall|key: Seq<char>| #[trigger] after.contains_key(key) implies own_row(
            encode,
            after,
            key,
        ) by {
            assert(before.contains_key(key));
            assert(own_row(encode, before, key));
        }
    }
}

/// Listing rows that come from saving and pruning never fails to decode one, gives one record for
/// each row, and gives them in strictly ascending order of the records' own peer ids.
pub proof fn saved_peers_are_listed_in_order<
    E,
    N: Fn(&PeerRecord) -> Result<Vec<u8>, E>,
    D: Fn(&[u8]) -> Result<PeerRecord, E>,
>(
    encode: N,
    decode: D,
    rows: Map<Seq<char>, Seq<u8>>,
    outcome: Result<Seq<PeerRecord>, E>,
)
    requires
        faithful(encode, decode),
        filled(encode, rows),
        listed(decode, rows, outcome),
    ensures
        outcome is Ok,
        rows.dom().finite(),
        outcome->Ok_0.len() == rows.dom().len(),
        crate::discovery::ascending(outcome->Ok_0),
{
    let listing = choose|listing: Seq<(Seq<char>, Seq<u8>)>| #[trigger]
        crate::peer_table::in_order(listing, rows) && match outcome {
            Ok(records) => decoded(decode, listing, records),
            Err(error) => undecodable(decode, listing, error),
        };
    match outcome {
        Ok(records) => {
            all_peers_are_listed(decode, rows, records);
            assert forall|i: int| 0 <= i < records.len() implies (#[trigger] records[i]).peer_id@
                == listing[i].0 by {
                lemma_own_record(encode, decode, rows, listing[i].0, Ok(records[i]));
            }
        },
        Err(error) => {
            let records = choose|records: Seq<PeerRecord>|
                records.len() < listing.len() && #[trigger] decoded(
                    decode,
                    listing.take(records.len() as int),
                    records,
                ) && decodes(decode, listing[records.len() as int].1, Err(error));
            lemma_own_record(
                encode,
                decode,
                rows,
                listing[records.len() as int].0,
                Err(error),
            );
        },
    }
}

/// What decoding a row of filled rows gives is a record of the row's own peer.
proof fn lemma_own_record<
    E,
    N: Fn(&PeerRecord) -> Result<Vec<u8>, E>,
    D: Fn(&[u8]) -> Result<PeerRecord, E>,
>(
    encode: N,
    decode: D,
    rows: Map<Seq<char>, Seq<u8>>,
    key: Seq<char>,
    outcome: Result<PeerRecord, E>,
)
    requires
        faithful(encode, decode),
        filled(encode, rows),
        rows.contains_key(key),
        decodes(decode, rows[key], outcome),
    ensures
        outcome is Ok,
        outcome->Ok_0.peer_id@ == key,
        forall|other: Result<PeerRecord, E>| #[trigger]
            decodes(decode, rows[key], other) ==> other is Ok && other->Ok_0@ == outcome->Ok_0@,
{
    assert(own_row(encode, rows, key));
    let (record, bytes) = choose|record: PeerRecord, bytes: Vec<u8>| #[trigger]
        encode.ensures((&record,), Ok(bytes)) && bytes@ == rows[key] && record@.peer_id == key;
    assert(decodes(decode, bytes@, outcome));
    assert(outcome->Ok_0@ == record@);
    assert(outcome->Ok_0@.peer_id == outcome->Ok_0.peer_id@);
    assert forall|other: Result<PeerRecord, E>| #[trigger]
        decodes(decode, rows[key], other) implies other is Ok && other->Ok_0@
        == outcome->Ok_0@ by {
        assert(decodes(decode, bytes@, other));
    }
}

/// The list agrees with looking up each peer: on rows that come from saving and pruning, a lookup
/// finds no record just if the list has none with that id, and otherwise it finds the one record
/// that the list has with that id.
pub proof fn listing_agrees_with_lookup<
    E,
    N: Fn(&PeerRecord) -> Result<Vec<u8>, E>,
    D: Fn(&[u8]) -> Result<PeerRecord, E>,
>(
    encode: N,
    decode: D,
    rows: Map<Seq<char>, Seq<u8>>,
    records: Seq<PeerRecord>,
    peer_id: Seq<char>,
    outcome: Result<Option<PeerRecord>, E>,
)
    requires
        faithful(encode, decode),
        filled(encode, rows),
        listed(decode, rows, Ok(records)),
        found(decode, rows, peer_id, outcome),
    ensures
        outcome is Ok,
        outcome->Ok_0 is None <==> !crate::discovery::has_record(records, peer_id),
        outcome->Ok_0 is Some ==> outcome->Ok_0->0.peer_id@ == peer_id && forall|i: int|
            0 <= i < records.len() && (#[trigger] records[i]).peer_id@ == peer_id ==> records[i]@
                == outcome->Ok_0->0@,
        forall|i: int, j: int|
            0 <= i < records.len() && 0 <= j < records.len() && (#[trigger] records[i]).peer_id@
                == peer_id && (#[trigger] records[j]).peer_id@ == peer_id ==> i == j,
{
    let listing = choose|listing: Seq<(Seq<char>, Seq<u8>)>| #[trigger]
        crate::peer_table::in_order(listing, rows) && decoded(decode, listing, records);
    saved_peers_are_listed_in_order(encode, decode, rows, Ok::<Seq<PeerRecord>, E>(records));
    assert forall|i: int| 0 <= i < records.len() implies (#[trigger] records[i]).peer_id@
        == listing[i].0 && rows.contains_key(listing[i].0) && decodes(
        decode,
        rows[listing[i].0],
        Ok(records[i]),
    ) by {
        assert(decodes(decode, listing[i].1, Ok(records[i])));
        lemma_own_record(encode, decode, rows, listing[i].0, Ok(records[i]));
    }
    if rows.contains_key(peer_id) {
        let at = choose|i: int| 0 <= i < listing.len() && (#[trigger] listing[i]).0 == peer_id;
        assert(records[at].peer_id@ == peer_id);
        let read: Result<PeerRecord, E> = match outcome {
            Ok(record) => Ok(record->0),
            Err(error) => Err(error),
        };
        assert(decodes(decode, rows[peer_id], read));
        lemma_own_record(encode, decode, rows, peer_id, read);
    }
    assert forall|i: int, j: int|
        0 <= i < records.len() && 0 <= j < records.len() && (#[trigger] records[i]).peer_id@
            == peer_id && (#[trigger] records[j]).peer_id@ == peer_id implies i == j by {
        crate::text::text_order_is_strict_total(peer_id, peer_id, peer_id);
        if i < j {
            assert(crate::text::text_before(records[i].peer_id@, records[j].peer_id@));
        } else if j < i {
            assert(crate::text::text_before(records[j].peer_id@, records[i].peer_id@));
        }
    }
}

/// Pruning removes exactly the rows whose record is stale, and changes no other row.
pub proof fn pruning_removes_exactly_the_stale<E, D: Fn(&[u8]) -> Result<PeerRecord, E>>(
    decode: D,
    before: Map<Seq<char>, Seq<u8>>,
    after: Map<Seq<char>, Seq<u8>>,
    now: u64,
    max_age_secs: u64,
    key: Seq<char>,
    record: PeerRecord,
)
    requires
        repeatable(decode),
        pruned(decode, before, after, now, max_age_secs),
        before.contains_key(key),
        decodes(decode, before[key], Ok(record)),
    ensures
        after.contains_key(key) <==> !stale(record.last_seen, now, max_age_secs),
        after.contains_key(key) ==> after[key] == before[key],
        after.dom().subset_of(before.dom()),
{
    let (listing, records) = choose|
        listing: Seq<(Seq<char>, Seq<u8>)>,
        records: Seq<PeerRecord>,
    | #[trigger]
        decoded(decode, listing, records) && crate::peer_table::in_order(listing, before) && after
            == fresh_rows(before, listing, records, now, max_age_secs);
    assert forall|i: int| 0 <= i < listing.len() && (#[trigger] listing[i]).0 == key implies records[i]
        == record by {
        assert(decodes(decode, listing[i].1, Ok(records[i])));
    }
    let at = choose|i: int| 0 <= i < listing.len() && (#[trigger] listing[i]).0 == key;
    assert(records[at] == record);
}

/// Pruning again at the same moment, with the same age or a longer one, removes nothing more.
pub proof fn pruning_again_removes_nothing<E, D: Fn(&[u8]) -> Result<PeerRecord, E>>(
    decode: D,
    before: Map<Seq<char>, Seq<u8>>,
    once: Map<Seq<char>, Seq<u8>>,
    twice: Map<Seq<char>, Seq<u8>>,
    now: u64,
    max_age_secs: u64,
    longer: u64,
)
    requires
        repeatable(decode),
        max_age_secs <= longer,
        pruned(decode, before, once, now, max_age_secs),
        pruned(decode, once, twice, now, longer),
    ensures
        twice == once,
{
    let (listing, records) = choose|
        listing: Seq<(Seq<char>, Seq<u8>)>,
        records: Seq<PeerRecord>,
    | #[trigger]
        decoded(decode, listing, records) && crate::peer_table::in_order(listing, once) && twice
            == fresh_rows(once, listing, records, now, longer);
    assert forall|key: Seq<char>| #[trigger] once.contains_key(key) implies twice.contains_key(
        key,
    ) by {
        let at = choose|i: int| 0 <= i < listing.len() && (#[trigger] listing[i]).0 == key;
        assert(decodes(decode, listing[at].1, Ok(records[at])));
        pruning_removes_exactly_the_stale(
            decode,
            before,
            once,
            now,
            max_age_secs,
            key,
            records[at],
        );
        pruning_removes_exactly_the_stale(decode, once, twice, now, longer, key, records[at]);
    }
    assert(twice =~= once);
}

#[verifier::external_type_specification]
#[verifier::external_body]
pub struct ExSystemTime(std::time::SystemTime);

#[verifier::external_type_specification]
#[verifier::external_body]
pub struct ExSystemTimeError(std::time::SystemTimeError);

/// `SystemTime::now`: the machine's clock. Nothing is claimed of what it shows.
pub assume_specification[ std::time::SystemTime::now ]() -> (now: std::time::SystemTime)
;

/// `Duration::as_secs`: the whole seconds of a duration. Nothing is claimed of the number, as
/// durations are opaque here.
pub assume_specification[ std::time::Duration::as_secs ](duration: &std::time::Duration) -> (secs:
    u64)
;

/// `SystemTime::duration_since` the Unix epoch, which fails for a clock that is set before it.
/// Nothing is claimed of the outcome.
#[verifier::external_body]
fn since_epoch(time: &std::time::SystemTime) -> (elapsed: Result<
    std::time::Duration,
    std::time::SystemTimeError,
>) {
    time.duration_since(std::time::UNIX_EPOCH)
}

/// The timestamp for the seconds that have elapsed since the Unix epoch; a clock that is set
/// before the epoch counts as zero.
pub fn timestamp_for(elapsed_secs: Option<u64>) -> (timestamp: u64)
    ensures
        timestamp == match elapsed_secs {
            Some(secs) => secs,
            None => 0,
        },
{
    match elapsed_secs {
        Some(secs) => secs,
        None => 0,
    }
}

/// Whether the machine's clock may show this Unix timestamp: it is the whole seconds that have
/// elapsed since the Unix epoch at a time which the clock gave, or zero where that time is before
/// the epoch.
pub closed spec fn clock_shows(timestamp: u64) -> bool {
    exists|
        time: std::time::SystemTime,
        elapsed: Result<std::time::Duration, std::time::SystemTimeError>,
    |
        call_ensures(std::time::SystemTime::now, (), time) && #[trigger] call_ensures(
            since_epoch,
            (&time,),
            elapsed,
        ) && match elapsed {
            Ok(duration) => call_ensures(std::time::Duration::as_secs, (&duration,), timestamp),
            Err(_) => timestamp == 0,
        }
}

/// Current Unix timestamp in seconds. Which number it is depends on the machine's clock alone.
pub fn current_timestamp() -> (timestamp: u64)
    ensures
        clock_shows(timestamp),
{
    let elapsed = match since_epoch(&std::time::SystemTime::now()) {
        Ok(duration) => Some(duration.as_secs()),
        Err(_) => None,
    };
    timestamp_for(elapsed)
}

/// A timestamp rests on a time that the clock gave, and unless it is zero it is the whole seconds
/// of some duration, neither more nor fewer.
pub proof fn timestamps_are_whole_seconds(timestamp: u64)
    requires
        clock_shows(timestamp),
    ensures
        exists|time: std::time::SystemTime| call_ensures(std::time::SystemTime::now, (), time),
        timestamp != 0 ==> exists|duration: std::time::Duration| #[trigger]
            call_ensures(std::time::Duration::as_secs, (&duration,), timestamp),
{
}

} // verus!
