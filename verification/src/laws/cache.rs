//! Laws of the peer cache: what saving, looking up, listing and pruning do to the rows of bytes.
use vstd::prelude::*;

use crate::peer_cache::{CacheError, PeerRecord};
use crate::peer_table::{PeerSnapshot, ReadRow};

verus! {

/// Whether decoding exactly these bytes may end so.
pub open spec fn reads_as<E, D: Fn(&[u8]) -> Result<PeerRecord, E>>(
    decode: D,
    bytes: Seq<u8>,
    outcome: Result<PeerRecord, E>,
) -> bool {
    exists|slice: &[u8]|
        slice.len() == bytes.len() && (forall|i: int|
            0 <= i < bytes.len() ==> slice@[i] == bytes[i]) && #[trigger] decode.ensures(
            (slice,),
            outcome,
        )
}

proof fn lemma_reads_as<E, D: Fn(&[u8]) -> Result<PeerRecord, E>>(
    decode: D,
    bytes: Seq<u8>,
    outcome: Result<PeerRecord, E>,
)
    ensures
        crate::peer_cache::decodes(decode, bytes, outcome) <==> reads_as(decode, bytes, outcome),
{
    if reads_as(decode, bytes, outcome) {
        let slice = choose|slice: &[u8]|
            slice.len() == bytes.len() && (forall|i: int|
                0 <= i < bytes.len() ==> slice@[i] == bytes[i]) && #[trigger] decode.ensures(
                (slice,),
                outcome,
            );
        assert(slice@ =~= bytes);
    }
}

/// The bytes that are decoded are the stored ones, all of them.
pub proof fn stored_bytes_are_decoded_whole<E, D: Fn(&[u8]) -> Result<PeerRecord, E>>(
    decode: D,
    bytes: Seq<u8>,
    outcome: Result<PeerRecord, E>,
)
    ensures
        crate::peer_cache::decodes(decode, bytes, outcome) <==> reads_as(decode, bytes, outcome),
{
    lemma_reads_as(decode, bytes, outcome);
}

/// A save stores, under the whole id of the record's peer, bytes that encode that record, and
/// touches no other row.
pub proof fn saving_stores_the_record_under_its_id<E, N: Fn(&PeerRecord) -> Result<Vec<u8>, E>>(
    encode: N,
    before: Map<Seq<char>, Seq<u8>>,
    after: Map<Seq<char>, Seq<u8>>,
    record: &PeerRecord,
    other: Seq<char>,
)
    requires
        crate::peer_cache::saved(encode, before, after, record),
    ensures
        after.contains_key(record.peer_id@),
        exists|bytes: Vec<u8>| #[trigger]
            encode.ensures((record,), Ok(bytes)) && bytes@ == after[record.peer_id@],
        other != record.peer_id@ ==> after.contains_key(other) == before.contains_key(other),
        other != record.peer_id@ && before.contains_key(other) ==> after[other] == before[other],
{
}

/// A lookup finds nothing just where there is no row under the whole id, and otherwise gives what
/// decoding the bytes of that row gives.
pub proof fn lookups_read_the_row_of_the_id<E, D: Fn(&[u8]) -> Result<PeerRecord, E>>(
    decode: D,
    rows: Map<Seq<char>, Seq<u8>>,
    peer_id: Seq<char>,
    outcome: Result<Option<PeerRecord>, E>,
)
    requires
        crate::peer_cache::found(decode, rows, peer_id, outcome),
    ensures
        outcome is Ok && outcome->Ok_0 is None <==> !rows.contains_key(peer_id),
        outcome is Ok && outcome->Ok_0 is Some ==> reads_as(
            decode,
            rows[peer_id],
            Ok(outcome->Ok_0->0),
        ),
        outcome is Err ==> reads_as(decode, rows[peer_id], Err(outcome->Err_0)),
{
    match outcome {
        Ok(Some(record)) => lemma_reads_as(decode, rows[peer_id], Ok(record)),
        Ok(None) => {},
        Err(error) => lemma_reads_as(decode, rows[peer_id], Err(error)),
    }
}

/// Looking up a peer right after it was saved decodes bytes that encode the saved record, whatever
/// stood under its id before.
pub proof fn lookups_after_a_save_read_what_was_saved<
    E,
    N: Fn(&PeerRecord) -> Result<Vec<u8>, E>,
    D: Fn(&[u8]) -> Result<PeerRecord, E>,
>(
    encode: N,
    decode: D,
    before: Map<Seq<char>, Seq<u8>>,
    after: Map<Seq<char>, Seq<u8>>,
    record: &PeerRecord,
    outcome: Result<Option<PeerRecord>, E>,
)
    requires
        crate::peer_cache::saved(encode, before, after, record),
        crate::peer_cache::found(decode, after, record.peer_id@, outcome),
    ensures
        outcome is Ok ==> outcome->Ok_0 is Some,
        exists|bytes: Vec<u8>|
            {
                &&& #[trigger] encode.ensures((record,), Ok(bytes))
                &&& outcome is Ok ==> reads_as(decode, bytes@, Ok(outcome->Ok_0->0))
                &&& outcome is Err ==> reads_as(decode, bytes@, Err(outcome->Err_0))
            },
{
    saving_stores_the_record_under_its_id(encode, before, after, record, record.peer_id@);
    lookups_read_the_row_of_the_id(decode, after, record.peer_id@, outcome);
    let bytes = choose|bytes: Vec<u8>| #[trigger]
        encode.ensures((record,), Ok(bytes)) && bytes@ == after[record.peer_id@];
    assert(encode.ensures((record,), Ok(bytes)));
}

/// A table that does not exist has no rows, and one that does has its own.
pub proof fn missing_tables_are_empty(snapshot: Option<PeerSnapshot>, key: Seq<char>)
    ensures
        snapshot is None ==> !crate::peer_cache::rows_of(snapshot).contains_key(key),
        snapshot is Some ==> crate::peer_cache::rows_of(snapshot) == crate::peer_table::snapshot_rows(
            snapshot->0,
        ),
{
}

/// Whether the records are read from the rows under these keys, which are all the keys, in
/// strictly ascending order of their UTF-8 bytes.
pub open spec fn reads_all<E, D: Fn(&[u8]) -> Result<PeerRecord, E>>(
    decode: D,
    rows: Map<Seq<char>, Seq<u8>>,
    records: Seq<PeerRecord>,
    keys: Seq<Seq<char>>,
) -> bool {
    &&& keys.len() == records.len()
    &&& forall|i: int|
        0 <= i < keys.len() ==> rows.contains_key(#[trigger] keys[i]) && reads_as(
            decode,
            rows[keys[i]],
            Ok(records[i]),
        )
    &&& forall|i: int, j: int|
        0 <= i < j < keys.len() ==> crate::laws::text::precedes(
            #[trigger] keys[i],
            #[trigger] keys[j],
        )
    &&& forall|key: Seq<char>| #[trigger]
        rows.contains_key(key) ==> exists|i: int| 0 <= i < keys.len() && #[trigger] keys[i] == key
}

/// Listing gives, for every row and for nothing else, what decoding that row gives, in ascending
/// order of the keys; and it fails to decode only where some row does.
pub proof fn listings_hold_every_row<E, D: Fn(&[u8]) -> Result<PeerRecord, E>>(
    decode: D,
    rows: Map<Seq<char>, Seq<u8>>,
    outcome: Result<Seq<PeerRecord>, E>,
)
    requires
        crate::peer_cache::listed(decode, rows, outcome),
    ensures
        outcome is Ok ==> exists|keys: Seq<Seq<char>>|
            reads_all(decode, rows, outcome->Ok_0, keys),
        outcome is Err ==> exists|key: Seq<char>| #[trigger]
            rows.contains_key(key) && reads_as(decode, rows[key], Err(outcome->Err_0)),
{
    let listing = choose|listing: Seq<(Seq<char>, Seq<u8>)>| #[trigger]
        crate::peer_table::in_order(listing, rows) && match outcome {
            Ok(records) => crate::peer_cache::decoded(decode, listing, records),
            Err(error) => crate::peer_cache::undecodable(decode, listing, error),
        };
    match outcome {
        Ok(records) => {
            let keys = Seq::new(listing.len(), |i: int| listing[i].0);
            assert forall|i: int| 0 <= i < keys.len() implies rows.contains_key(
                #[trigger] keys[i],
            ) && reads_as(decode, rows[keys[i]], Ok(records[i])) by {
                assert(crate::peer_cache::decodes(decode, listing[i].1, Ok(records[i])));
                lemma_reads_as(decode, listing[i].1, Ok(records[i]));
            }
            assert forall|i: int, j: int| 0 <= i < j < keys.len() implies
                crate::laws::text::precedes(#[trigger] keys[i], #[trigger] keys[j]) by {
                assert(crate::text::text_before(listing[i].0, listing[j].0));
                crate::laws::text::strings_are_ordered_by_their_bytes(keys[i], keys[j]);
            }
            assert forall|key: Seq<char>| #[trigger] rows.contains_key(key) implies exists|i: int|
                0 <= i < keys.len() && #[trigger] keys[i] == key by {
                let i = choose|i: int| 0 <= i < listing.len() && (#[trigger] listing[i]).0 == key;
                assert(keys[i] == key);
            }
            assert(reads_all(decode, rows, records, keys));
        },
        Err(error) => {
            let records = choose|records: Seq<PeerRecord>|
                records.len() < listing.len() && #[trigger] crate::peer_cache::decoded(
                    decode,
                    listing.take(records.len() as int),
                    records,
                ) && crate::peer_cache::decodes(
                    decode,
                    listing[records.len() as int].1,
                    Err(error),
                );
            let at = records.len() as int;
            lemma_reads_as(decode, listing[at].1, Err(error));
            assert(rows.contains_key(listing[at].0));
        },
    }
}

/// After a pruning at `now`, every row left has a record that was last seen at most `max_age_secs`
/// before, and every row removed had one that was last seen longer ago. Rows that are left are
/// unaltered, and no row is new.
pub proof fn pruning_goes_by_the_age<E, D: Fn(&[u8]) -> Result<PeerRecord, E>>(
    decode: D,
    before: Map<Seq<char>, Seq<u8>>,
    after: Map<Seq<char>, Seq<u8>>,
    now: u64,
    max_age_secs: u64,
    key: Seq<char>,
)
    requires
        crate::peer_cache::pruned(decode, before, after, now, max_age_secs),
    ensures
        after.contains_key(key) ==> before.contains_key(key) && after[key] == before[key],
        after.contains_key(key) ==> exists|record: PeerRecord| #[trigger]
            reads_as(decode, before[key], Ok(record)) && record.last_seen + max_age_secs >= now,
        before.contains_key(key) && !after.contains_key(key) ==> exists|record: PeerRecord|
            #[trigger] reads_as(decode, before[key], Ok(record)) && record.last_seen + max_age_secs
                < now,
{
    let (listing, records) = choose|
        listing: Seq<(Seq<char>, Seq<u8>)>,
        records: Seq<PeerRecord>,
    | #[trigger]
        crate::peer_cache::decoded(decode, listing, records) && crate::peer_table::in_order(
            listing,
            before,
        ) && after == crate::peer_cache::fresh_rows(before, listing, records, now, max_age_secs);
    if before.contains_key(key) {
        let at = choose|i: int| 0 <= i < listing.len() && (#[trigger] listing[i]).0 == key;
        assert(crate::peer_cache::decodes(decode, listing[at].1, Ok(records[at])));
        lemma_reads_as(decode, before[key], Ok(records[at]));
        assert forall|i: int| 0 <= i < listing.len() && (#[trigger] listing[i]).0 == key implies i
            == at by {
            crate::text::text_order_is_strict_total(key, key, key);
            if i < at {
                assert(crate::text::text_before(listing[i].0, listing[at].0));
            } else if at < i {
                assert(crate::text::text_before(listing[at].0, listing[i].0));
            }
        }
        assert(reads_as(decode, before[key], Ok(records[at])));
    }
}

/// Where decoding the same bytes always gives the same record, that record's age alone decides
/// whether its row is left.
pub proof fn the_age_of_the_record_decides<E, D: Fn(&[u8]) -> Result<PeerRecord, E>>(
    decode: D,
    before: Map<Seq<char>, Seq<u8>>,
    after: Map<Seq<char>, Seq<u8>>,
    now: u64,
    max_age_secs: u64,
    key: Seq<char>,
    record: PeerRecord,
)
    requires
        crate::peer_cache::pruned(decode, before, after, now, max_age_secs),
        before.contains_key(key),
        reads_as(decode, before[key], Ok(record)),
        forall|other: Result<PeerRecord, E>| #[trigger]
            reads_as(decode, before[key], other) ==> other == Ok::<PeerRecord, E>(record),
    ensures
        after.contains_key(key) <==> record.last_seen + max_age_secs >= now,
{
    pruning_goes_by_the_age(decode, before, after, now, max_age_secs, key);
    if after.contains_key(key) {
        let left = choose|left: PeerRecord| #[trigger]
            reads_as(decode, before[key], Ok(left)) && left.last_seen + max_age_secs >= now;
        assert(Ok::<PeerRecord, E>(left) == Ok::<PeerRecord, E>(record));
    } else {
        let gone = choose|gone: PeerRecord| #[trigger]
            reads_as(decode, before[key], Ok(gone)) && gone.last_seen + max_age_secs < now;
        assert(Ok::<PeerRecord, E>(gone) == Ok::<PeerRecord, E>(record));
    }
}

/// Whenever a peer is removed, so is every peer that was last seen earlier or at the same time.
pub proof fn older_peers_go_first<E, D: Fn(&[u8]) -> Result<PeerRecord, E>>(
    decode: D,
    before: Map<Seq<char>, Seq<u8>>,
    after: Map<Seq<char>, Seq<u8>>,
    now: u64,
    max_age_secs: u64,
    removed: Seq<char>,
    record: PeerRecord,
    older: Seq<char>,
    older_record: PeerRecord,
)
    requires
        crate::peer_cache::pruned(decode, before, after, now, max_age_secs),
        before.contains_key(removed),
        !after.contains_key(removed),
        before.contains_key(older),
        reads_as(decode, before[removed], Ok(record)),
        reads_as(decode, before[older], Ok(older_record)),
        forall|other: Result<PeerRecord, E>| #[trigger]
            reads_as(decode, before[removed], other) ==> other == Ok::<PeerRecord, E>(record),
        forall|other: Result<PeerRecord, E>| #[trigger]
            reads_as(decode, before[older], other) ==> other == Ok::<PeerRecord, E>(older_record),
        older_record.last_seen <= record.last_seen,
    ensures
        !after.contains_key(older),
{
    the_age_of_the_record_decides(decode, before, after, now, max_age_secs, removed, record);
    the_age_of_the_record_decides(decode, before, after, now, max_age_secs, older, older_record);
}

/// A failed removal leaves the peers that are to be kept: a row was being removed whose record was
/// last seen longer than `max_age_secs` before, out of a table that still had every row whose
/// record was last seen within that time, unaltered.
pub proof fn failed_prunings_spare_recent_peers<E, D: Fn(&[u8]) -> Result<PeerRecord, E>>(
    decode: D,
    before: Map<Seq<char>, Seq<u8>>,
    now: u64,
    max_age_secs: u64,
    error: redb::StorageError,
)
    requires
        crate::peer_cache::removal_failed(decode, before, now, max_age_secs, error),
    ensures
        exists|partly: crate::peer_table::PeerTable, key: Seq<char>, record: PeerRecord|
            {
                &&& #[trigger] crate::peer_table::PeerTable::remove_answers(
                    partly,
                    key,
                    Err(error),
                )
                &&& before.contains_key(key)
                &&& #[trigger] reads_as(decode, before[key], Ok(record))
                &&& record.last_seen + max_age_secs < now
                &&& partly@.submap_of(before)
                &&& forall|kept: Seq<char>|
                    before.contains_key(kept) && !(#[trigger] partly@.contains_key(kept))
                        ==> exists|old: PeerRecord| #[trigger]
                        reads_as(decode, before[kept], Ok(old)) && old.last_seen + max_age_secs
                            < now
            },
{
    let (listing, records, partly, key) = choose|
        listing: Seq<(Seq<char>, Seq<u8>)>,
        records: Seq<PeerRecord>,
        partly: crate::peer_table::PeerTable,
        key: Seq<char>,
    |
        #[trigger] crate::peer_cache::decoded(decode, listing, records)
            && crate::peer_table::in_order(listing, before) && crate::peer_cache::lists_stale(
            listing,
            records,
            key,
            now,
            max_age_secs,
        ) && crate::peer_cache::fresh_rows(
            before,
            listing,
            records,
            now,
            max_age_secs,
        ).submap_of(partly@) && partly@.submap_of(before)
            && #[trigger] crate::peer_table::PeerTable::remove_answers(partly, key, Err(error));
    let fresh = crate::peer_cache::fresh_rows(before, listing, records, now, max_age_secs);
    let at = choose|i: int|
        0 <= i < listing.len() && (#[trigger] listing[i]).0 == key && crate::peer_cache::stale(
            records[i].last_seen,
            now,
            max_age_secs,
        );
    assert(crate::peer_cache::decodes(decode, listing[at].1, Ok(records[at])));
    lemma_reads_as(decode, before[key], Ok(records[at]));
    assert forall|kept: Seq<char>|
        before.contains_key(kept) && !(#[trigger] partly@.contains_key(kept)) implies exists|
        old: PeerRecord,
    | #[trigger]
        reads_as(decode, before[kept], Ok(old)) && old.last_seen + max_age_secs < now by {
        if fresh.contains_key(kept) {
            assert(fresh.dom().contains(kept));
            assert(partly@.dom().contains(kept));
        }
        let i = choose|i: int|
            0 <= i < listing.len() && (#[trigger] listing[i]).0 == kept && crate::peer_cache::stale(
                records[i].last_seen,
                now,
                max_age_secs,
            );
        assert(crate::peer_cache::decodes(decode, listing[i].1, Ok(records[i])));
        lemma_reads_as(decode, before[kept], Ok(records[i]));
        assert(reads_as(decode, before[kept], Ok(records[i])));
    }
    assert(reads_as(decode, before[key], Ok(records[at])));
}

/// Rows that were read are decoded one by one, each under its own key, and none is left out.
pub proof fn rows_are_decoded_one_by_one<E, D: Fn(&[u8]) -> Result<PeerRecord, E>>(
    decode: D,
    items: Seq<ReadRow>,
    pairs: Seq<(String, PeerRecord)>,
    i: int,
)
    requires
        crate::peer_cache::all_decoded(decode, items, pairs),
        0 <= i < items.len(),
    ensures
        pairs.len() == items.len(),
        items[i] is Ok,
        pairs[i].0@ == items[i]->Ok_0.0@,
        reads_as(decode, items[i]->Ok_0.1@, Ok(pairs[i].1)),
{
    assert(crate::peer_cache::decoded_row(decode, items[i], pairs[i]));
    lemma_reads_as(decode, items[i]->Ok_0.1@, Ok(pairs[i].1));
}

/// Decoding ends early only at a row that could not be read, with that failure, or at one that
/// does not decode; every row before it was read and decodes.
pub proof fn decoding_ends_at_a_failing_row<E, D: Fn(&[u8]) -> Result<PeerRecord, E>>(
    decode: D,
    items: Seq<ReadRow>,
    failure: CacheError<E>,
)
    requires
        crate::peer_cache::decoding_ends(decode, items, failure),
    ensures
        exists|n: int|
            {
                &&& 0 <= n < items.len()
                &&& forall|i: int|
                    0 <= i < n ==> (#[trigger] items[i]) is Ok && exists|record: PeerRecord|
                        #[trigger] reads_as(decode, items[i]->Ok_0.1@, Ok(record))
                &&& match failure {
                    CacheError::Storage(error) => (#[trigger] items[n]) is Err && items[n]->Err_0
                        == error,
                    CacheError::Record(error) => items[n] is Ok && reads_as(
                        decode,
                        items[n]->Ok_0.1@,
                        Err(error),
                    ),
                }
            },
{
    let pairs = choose|pairs: Seq<(String, PeerRecord)>|
        pairs.len() < items.len() && #[trigger] crate::peer_cache::all_decoded(
            decode,
            items.take(pairs.len() as int),
            pairs,
        ) && crate::peer_cache::failing_row(decode, items[pairs.len() as int], failure);
    let n = pairs.len() as int;
    assert forall|i: int| 0 <= i < n implies (#[trigger] items[i]) is Ok && exists|
        record: PeerRecord,
    | #[trigger] reads_as(decode, items[i]->Ok_0.1@, Ok(record)) by {
        rows_are_decoded_one_by_one(decode, items.take(n), pairs, i);
        assert(items.take(n)[i] == items[i]);
        assert(reads_as(decode, items[i]->Ok_0.1@, Ok(pairs[i].1)));
    }
    if let CacheError::Record(error) = failure {
        lemma_reads_as(decode, items[n]->Ok_0.1@, Err(error));
    }
    assert(items[n] == items[n]);
}

} // verus!
