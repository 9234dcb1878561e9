//! The stored table of peers: rows of bytes under text keys, held by an embedded redb database.
//!
//! [`PeerTable`] is the table inside a write transaction, [`PeerSnapshot`] the table as a read
//! transaction sees it. Beginning and committing transactions is up to the caller.
use redb::ReadableTable;
use vstd::prelude::*;

verus! {

#[verifier::external_type_specification]
#[verifier::external_body]
pub struct ExStorageError(redb::StorageError);

#[verifier::external_type_specification]
#[verifier::external_body]
pub struct ExTableError(redb::TableError);

#[verifier::external_type_specification]
#[verifier::external_body]
pub struct ExWriteTransaction(redb::WriteTransaction);

#[verifier::external_type_specification]
#[verifier::external_body]
pub struct ExReadTransaction(redb::ReadTransaction);

/// A redb table from text keys to bytes, open for writing.
#[verifier::external_body]
pub struct PeerTable<'txn> {
    table: redb::Table<'txn, &'static str, &'static [u8]>,
}

/// A redb table from text keys to bytes, as it stood when its read transaction began.
#[verifier::external_body]
pub struct PeerSnapshot {
    table: redb::ReadOnlyTable<&'static str, &'static [u8]>,
}

/// The rows of a table that is open for writing.
pub uninterp spec fn stored_rows(table: PeerTable) -> Map<Seq<char>, Seq<u8>>;

/// The rows of a snapshot.
pub uninterp spec fn snapshot_rows(snapshot: PeerSnapshot) -> Map<Seq<char>, Seq<u8>>;

impl<'txn> View for PeerTable<'txn> {
    type V = Map<Seq<char>, Seq<u8>>;

    open spec fn view(&self) -> Map<Seq<char>, Seq<u8>> {
        stored_rows(*self)
    }
}

impl View for PeerSnapshot {
    type V = Map<Seq<char>, Seq<u8>>;

    open spec fn view(&self) -> Map<Seq<char>, Seq<u8>> {
        snapshot_rows(*self)
    }
}

/// The name of the table that holds the peers.
pub const PEER_TABLE: &'static str = "peers";

/// What reading one row gives: its key and value, or the failure.
pub type ReadRow = Result<(String, Vec<u8>), redb::StorageError>;

/// Why a table could not be opened.
#[derive(Debug)]
pub enum OpenFailure {
    /// There is no table of that name.
    Missing,
    /// Anything else.
    Failed(redb::TableError),
}

/// Whether the listing holds every row once, in ascending order of the keys.
pub open spec fn in_order(
    listing: Seq<(Seq<char>, Seq<u8>)>,
    rows: Map<Seq<char>, Seq<u8>>,
) -> bool {
    &&& forall|i: int|
        0 <= i < listing.len() ==> rows.contains_key((#[trigger] listing[i]).0)
            && rows[listing[i].0] == listing[i].1
    &&& forall|i: int, j: int|
        0 <= i < j < listing.len() ==> crate::text::text_before(
            (#[trigger] listing[i]).0,
            (#[trigger] listing[j]).0,
        )
    &&& forall|key: Seq<char>| #[trigger]
        rows.contains_key(key) ==> exists|i: int|
            0 <= i < listing.len() && (#[trigger] listing[i]).0 == key
}

/// Whether the items are what walking through the listing gave: each row that was read is the
/// listing's row at that place, and the walk is complete unless a row could not be read.
pub open spec fn walked(items: Seq<ReadRow>, listing: Seq<(Seq<char>, Seq<u8>)>) -> bool {
    &&& forall|i: int|
        0 <= i < items.len() && (#[trigger] items[i]) is Ok ==> i < listing.len() && listing[i] == (
            items[i]->Ok_0.0@,
            items[i]->Ok_0.1@,
        )
    &&& (forall|i: int| 0 <= i < items.len() ==> (#[trigger] items[i]) is Ok) ==> items.len()
        == listing.len()
}

impl<'txn> PeerTable<'txn> {
    /// `WriteTransaction::open_table`: the table of that name, which is made if there is none.
    /// Nothing is claimed of its rows, which are those of the database file, nor of when it fails.
    /// A name must not be empty.
    #[verifier::external_body]
    fn open_named(txn: &'txn redb::WriteTransaction, name: &str) -> (opened: Result<
        PeerTable<'txn>,
        redb::TableError,
    >)
        requires
            name@.len() > 0,
    {
        txn.open_table(redb::TableDefinition::new(name)).map(|table| PeerTable { table })
    }

    /// Whether redb may answer so when the transaction is asked for the table of that name.
    pub closed spec fn answers(
        txn: &'txn redb::WriteTransaction,
        name: &str,
        answer: Result<PeerTable<'txn>, redb::TableError>,
    ) -> bool {
        call_ensures(PeerTable::open_named, (txn, name), answer)
    }

    /// Opens the table of peers for writing, which makes it if there is none. Its rows are those
    /// that the transaction finds.
    pub fn open(txn: &'txn redb::WriteTransaction) -> (opened: Result<PeerTable<'txn>, OpenFailure>)
        ensures
            match opened {
                Ok(table) => PeerTable::answers(txn, PEER_TABLE, Ok(table)),
                Err(OpenFailure::Failed(error)) => PeerTable::answers(txn, PEER_TABLE, Err(error)),
                Err(OpenFailure::Missing) => false,
            },
    {
        proof {
            reveal_strlit("peers");
        }
        match PeerTable::open_named(txn, PEER_TABLE) {
            Ok(table) => Ok(table),
            Err(error) => Err(OpenFailure::Failed(error)),
        }
    }

    /// `Table::insert`: where it succeeds, the value stands under the key, in place of what was
    /// there, and the other rows are unchanged. It fails on a value of more than 3 GiB and where
    /// the storage fails; nothing is claimed of the rows after a failure.
    #[verifier::external_body]
    fn insert(&mut self, key: &str, value: &[u8]) -> (done: Result<
        (),
        redb::StorageError,
    >)
        ensures
            done is Ok ==> stored_rows(*final(self)) == stored_rows(*old(self)).insert(key@, value@),
    {
        self.table.insert(key, value).map(|_| ())
    }

    /// `Table::remove`: where it succeeds, there is no row under the key and the other rows are
    /// unchanged. It fails where the storage fails; nothing is claimed of the rows after that.
    #[verifier::external_body]
    fn remove(&mut self, key: &str) -> (done: Result<(), redb::StorageError>)
        ensures
            done is Ok ==> stored_rows(*final(self)) == stored_rows(*old(self)).remove(key@),
    {
        self.table.remove(key).map(|_| ())
    }

    /// `ReadableTable::iter` on a table that is open for writing: its rows in ascending order of
    /// the keys, ended early by a row that could not be read.
    #[verifier::external_body]
    fn iter(&self) -> (items: Result<Vec<ReadRow>, redb::StorageError>)
        ensures
            items is Ok ==> exists|listing: Seq<(Seq<char>, Seq<u8>)>|
                in_order(listing, stored_rows(*self)) && #[trigger] walked(items->Ok_0@, listing),
    {
        let rows = self.table.iter()?;
        Ok(rows.map(|row| row.map(|(k, v)| (k.value().to_string(), v.value().to_vec()))).collect())
    }

    /// Whether redb may answer so when the value is inserted under the key into this table.
    pub closed spec fn insert_answers(
        before: PeerTable<'txn>,
        key: Seq<char>,
        value: Seq<u8>,
        answer: Result<(), redb::StorageError>,
    ) -> bool {
        exists|table: &mut PeerTable<'txn>, name: &str, bytes: &[u8]|
            *table == before && name@ == key && bytes@ == value && #[trigger] call_ensures(
                PeerTable::insert,
                (table, name, bytes),
                answer,
            )
    }

    /// Whether redb may answer so when the row under the key is removed from this table.
    pub closed spec fn remove_answers(
        before: PeerTable<'txn>,
        key: Seq<char>,
        answer: Result<(), redb::StorageError>,
    ) -> bool {
        exists|table: &mut PeerTable<'txn>, name: &str|
            *table == before && name@ == key && #[trigger] call_ensures(
                PeerTable::remove,
                (table, name),
                answer,
            )
    }

    /// Whether redb may answer so when the rows of this table are walked through.
    pub closed spec fn walk_answers(
        &self,
        answer: Result<Vec<ReadRow>, redb::StorageError>,
    ) -> bool {
        call_ensures(PeerTable::iter, (self,), answer)
    }

    /// Stores the value under the key, in place of what was there.
    pub(crate) fn put_row(&mut self, key: &str, value: &[u8]) -> (done: Result<
        (),
        redb::StorageError,
    >)
        ensures
            PeerTable::insert_answers(*old(self), key@, value@, done),
            done is Ok ==> final(self)@ == old(self)@.insert(key@, value@),
    {
        self.insert(key, value)
    }

    /// Removes the row under the key, if there is one.
    pub(crate) fn drop_row(&mut self, key: &str) -> (done: Result<(), redb::StorageError>)
        ensures
            PeerTable::remove_answers(*old(self), key@, done),
            done is Ok ==> final(self)@ == old(self)@.remove(key@),
    {
        self.remove(key)
    }

    /// Reads all rows, in ascending order of the keys, up to one that cannot be read.
    pub(crate) fn read_rows(&self) -> (items: Result<Vec<ReadRow>, redb::StorageError>)
        ensures
            self.walk_answers(items),
            items is Ok ==> exists|listing: Seq<(Seq<char>, Seq<u8>)>|
                in_order(listing, self@) && #[trigger] walked(items->Ok_0@, listing),
    {
        self.iter()
    }
}

impl PeerSnapshot {
    /// `ReadTransaction::open_table`: the table of that name as the transaction sees it. Nothing
    /// is claimed of its rows, which are those of the database file, nor of when it fails. A name
    /// must not be empty.
    #[verifier::external_body]
    fn open_named(txn: &redb::ReadTransaction, name: &str) -> (opened: Result<
        PeerSnapshot,
        OpenFailure,
    >)
        requires
            name@.len() > 0,
    {
        match txn.open_table(redb::TableDefinition::new(name)) {
            Ok(table) => Ok(PeerSnapshot { table }),
            Err(redb::TableError::TableDoesNotExist(_)) => Err(OpenFailure::Missing),
            Err(error) => Err(OpenFailure::Failed(error)),
        }
    }

    /// The snapshot for the outcome of opening the table: a table that does not exist is no
    /// failure, there is just no snapshot of it.
    pub fn existing(opened: Result<PeerSnapshot, OpenFailure>) -> (snapshot: Result<
        Option<PeerSnapshot>,
        OpenFailure,
    >)
        ensures
            snapshot == match opened {
                Ok(table) => Ok(Some(table)),
                Err(OpenFailure::Missing) => Ok(None),
                Err(failure) => Err(failure),
            },
    {
        match opened {
            Ok(table) => Ok(Some(table)),
            Err(OpenFailure::Missing) => Ok(None),
            Err(failure) => Err(failure),
        }
    }

    /// Whether redb may answer so when the transaction is asked for the table of that name.
    pub closed spec fn answers(
        txn: &redb::ReadTransaction,
        name: &str,
        answer: Result<PeerSnapshot, OpenFailure>,
    ) -> bool {
        call_ensures(PeerSnapshot::open_named, (txn, name), answer)
    }

    /// Opens the table of peers for reading; `None` where it does not exist. Its rows are those
    /// that the transaction finds.
    pub fn open(txn: &redb::ReadTransaction) -> (snapshot: Result<Option<PeerSnapshot>, OpenFailure>)
        ensures
            match snapshot {
                Ok(Some(table)) => PeerSnapshot::answers(txn, PEER_TABLE, Ok(table)),
                Ok(None) => PeerSnapshot::answers(txn, PEER_TABLE, Err(OpenFailure::Missing)),
                Err(failure) => failure is Failed && PeerSnapshot::answers(
                    txn,
                    PEER_TABLE,
                    Err(failure),
                ),
            },
    {
        proof {
            reveal_strlit("peers");
        }
        PeerSnapshot::existing(PeerSnapshot::open_named(txn, PEER_TABLE))
    }

    /// `ReadOnlyTable::get`: the value under the key, or `None` where there is no such row. It
    /// fails where the storage fails.
    #[verifier::external_body]
    fn get(&self, key: &str) -> (value: Result<Option<Vec<u8>>, redb::StorageError>)
        ensures
            value is Ok ==> match value->Ok_0 {
                Some(bytes) => snapshot_rows(*self).contains_key(key@)
                    && snapshot_rows(*self)[key@] == bytes@,
                None => !snapshot_rows(*self).contains_key(key@),
            },
    {
        Ok(self.table.get(key)?.map(|value| value.value().to_vec()))
    }

    /// `ReadableTable::iter` on a snapshot: its rows in ascending order of the keys, ended early
    /// by a row that could not be read.
    #[verifier::external_body]
    fn iter(&self) -> (items: Result<Vec<ReadRow>, redb::StorageError>)
        ensures
            items is Ok ==> exists|listing: Seq<(Seq<char>, Seq<u8>)>|
                in_order(listing, snapshot_rows(*self)) && #[trigger] walked(
                    items->Ok_0@,
                    listing,
                ),
    {
        let rows = self.table.iter()?;
        Ok(rows.map(|row| row.map(|(k, v)| (k.value().to_string(), v.value().to_vec()))).collect())
    }

    /// Whether redb may answer so when the row under the key is looked up in this snapshot.
    pub closed spec fn get_answers(
        &self,
        key: Seq<char>,
        answer: Result<Option<Vec<u8>>, redb::StorageError>,
    ) -> bool {
        exists|name: &str|
            name@ == key && #[trigger] call_ensures(PeerSnapshot::get, (self, name), answer)
    }

    /// Whether redb may answer so when the rows of this snapshot are walked through.
    pub closed spec fn walk_answers(
        &self,
        answer: Result<Vec<ReadRow>, redb::StorageError>,
    ) -> bool {
        call_ensures(PeerSnapshot::iter, (self,), answer)
    }

    /// Reads the row under the key, if there is one.
    pub(crate) fn read_value(&self, key: &str) -> (value: Result<
        Option<Vec<u8>>,
        redb::StorageError,
    >)
        ensures
            self.get_answers(key@, value),
            value is Ok ==> match value->Ok_0 {
                Some(bytes) => self@.contains_key(key@) && self@[key@] == bytes@,
                None => !self@.contains_key(key@),
            },
    {
        self.get(key)
    }

    /// Reads all rows, in ascending order of the keys, up to one that cannot be read.
    pub(crate) fn read_rows(&self) -> (items: Result<Vec<ReadRow>, redb::StorageError>)
        ensures
            self.walk_answers(items),
            items is Ok ==> exists|listing: Seq<(Seq<char>, Seq<u8>)>|
                in_order(listing, self@) && #[trigger] walked(items->Ok_0@, listing),
    {
        self.iter()
    }
}

} // verus!
