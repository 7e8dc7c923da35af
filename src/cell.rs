use crate::hub::Hub;
use crate::record::{
    encode_payload, plan_swap, record_label_bytes, seeded_channel, settle_swap, subscribe,
    CellRead, ServiceError, SwapOutcome,
};
use vstd::prelude::*;
use vstd::utf8::valid_utf8;

verus! {

#[verifier::external_type_specification]
#[verifier::external_body]
pub struct ExDb(sled::Db);

#[verifier::external_type_specification]
#[verifier::external_body]
pub struct ExSledError(sled::Error);

#[verifier::external_type_specification]
#[verifier::external_body]
pub struct ExCompareAndSwapError(sled::CompareAndSwapError);

/// Relies on sled's `Tree::get` (through `Db`'s deref): the value stored under
/// `key`, if any. What it returns depends on the store, so nothing is promised.
#[verifier::external_body]
fn db_get(db: &sled::Db, key: &[u8]) -> (r: Result<Option<Vec<u8>>, sled::Error>) {
    db.get(key).map(|v| v.map(|b| b.to_vec()))
}

/// Relies on sled's `Tree::compare_and_swap`: sets `key` to `proposed` only
/// if it holds `expected` (`None`: holds nothing). Depends on the store, so
/// nothing is promised.
#[verifier::external_body]
fn db_compare_and_swap(db: &sled::Db, key: &[u8], expected: Option<&[u8]>, proposed: &[u8]) -> (r:
    Result<Result<(), sled::CompareAndSwapError>, sled::Error>) {
    db.compare_and_swap(key, expected, Some(proposed))
}

/// Relies on sled's `Tree::flush`: writes dirty buffers to disk. Depends on
/// the machine, so nothing is promised.
#[verifier::external_body]
fn db_flush(db: &sled::Db) -> (r: Result<usize, sled::Error>) {
    db.flush()
}

/// The outcome of a compare-and-swap, as the library tells it apart.
pub fn swap_outcome(r: Result<Result<(), sled::CompareAndSwapError>, sled::Error>) -> (o: SwapOutcome)
    ensures
        r matches Ok(Ok(_)) ==> o == SwapOutcome::Swapped,
        r matches Ok(Err(_)) ==> o == SwapOutcome::Conflict,
        r is Err ==> o == SwapOutcome::Failed,
{
    match r {
        Ok(Ok(())) => SwapOutcome::Swapped,
        Ok(Err(_)) => SwapOutcome::Conflict,
        Err(_) => SwapOutcome::Failed,
    }
}

/// A read of the cell, as the library tells it apart.
pub fn cell_read(r: Result<Option<Vec<u8>>, sled::Error>) -> (c: CellRead)
    ensures
        r matches Ok(Some(v)) ==> c matches CellRead::Value(w) && w@ == v@,
        r matches Ok(None) ==> c is Missing,
        r is Err ==> c is Failed,
{
    match r {
        Ok(Some(v)) => CellRead::Value(v),
        Ok(None) => CellRead::Missing,
        Err(_) => CellRead::Failed,
    }
}

/// The new payload of a publish and how its compare-and-swap went.
pub struct Commit {
    pub payload: Vec<u8>,
    pub outcome: SwapOutcome,
}

/// The durable cell that holds the record, under the key `user`.
pub struct MyData {
    pub db: sled::Db,
}

impl MyData {
    /// Reads the record.
    pub fn read_record(&self) -> (r: CellRead) {
        let key = record_label_bytes();
        cell_read(db_get(&self.db, key.as_slice()))
    }

    /// Creates the empty record if there is none yet, then flushes.
    /// A record that is already there is left as it is.
    pub fn init_record(&self) -> (r: Result<(), ServiceError>)
        ensures
            r matches Err(e) ==> e == ServiceError::StorageUnavailable,
    {
        let key = record_label_bytes();
        let empty: Vec<u8> = Vec::new();
        let outcome = swap_outcome(
            db_compare_and_swap(&self.db, key.as_slice(), None, empty.as_slice()),
        );
        match settle_swap(outcome) {
            Ok(_) => match db_flush(&self.db) {
                Ok(_) => Ok(()),
                Err(_) => Err(ServiceError::StorageUnavailable),
            },
            Err(e) => Err(e),
        }
    }

    /// Registers a subscriber, under a fresh identity, seeded with the current
    /// record; the record must be valid UTF-8.
    pub fn open_stream(&self, hub: &mut Hub) -> (r: Result<u64, ServiceError>)
        requires
            old(hub).wf(),
            old(hub).next_id() < u64::MAX,
        ensures
            final(hub).wf(),
            final(hub).log() == old(hub).log(),
            r matches Ok(id) ==> id == old(hub).next_id() && !old(hub).channels().contains_key(id)
                && final(hub).next_id() == old(hub).next_id() + 1 && exists|v: Seq<u8>|
                valid_utf8(v) && #[trigger] final(hub).channels() == old(hub).channels().insert(
                    id,
                    seeded_channel(v, old(hub).log().len()),
                ),
            r matches Err(e) ==> e == ServiceError::StorageUnavailable && *final(hub) == *old(hub),
    {
        subscribe(hub, self.read_record())
    }

    /// Serializes the data of a publish and swaps it in for the record that
    /// was read. The swap is attempted only after a successful serialization
    /// and read.
    pub fn commit_update(&self, user: &str) -> (r: Result<Commit, ServiceError>)
        ensures
            r matches Ok(c) ==> c.payload@ == crate::record::payload_bytes(
                crate::record::json_string_text(user@),
            ),
            r matches Err(e) ==> e == ServiceError::StorageUnavailable,
    {
        let payload = match encode_payload(user) {
            Ok(p) => p,
            Err(e) => {
                return Err(e);
            },
        };
        let plan = match plan_swap(self.read_record(), payload) {
            Ok(q) => q,
            Err(e) => {
                return Err(e);
            },
        };
        let key = record_label_bytes();
        let outcome = swap_outcome(
            db_compare_and_swap(
                &self.db,
                key.as_slice(),
                Some(plan.expected.as_slice()),
                plan.proposed.as_slice(),
            ),
        );
        Ok(Commit { payload: plan.proposed, outcome })
    }
}

} // verus!
