use crate::event::{append_bytes, Event, EventView};
use crate::hub::{ChannelView, Hub};
use vstd::prelude::*;
use vstd::utf8::{encode_utf8, valid_utf8};

verus! {

#[verifier::external_type_specification]
#[verifier::external_body]
pub struct ExJsonError(serde_json::Error);

/// The lowercase hexadecimal digits.
pub open spec fn hex_digits() -> Seq<char> {
    seq!['0', '1', '2', '3', '4', '5', '6', '7', '8', '9', 'a', 'b', 'c', 'd', 'e', 'f']
}

/// How one character stands inside a JSON string literal: `"` and `\`
/// behind a backslash, the five controls with a short form as `\b \t \n \f \r`,
/// the other controls below 0x20 as `\u00xx`, everything else as itself.
pub open spec fn json_escape_char(c: char) -> Seq<char> {
    if c == '"' {
        seq!['\\', '"']
    } else if c == '\\' {
        seq!['\\', '\\']
    } else if c == '\u{8}' {
        seq!['\\', 'b']
    } else if c == '\t' {
        seq!['\\', 't']
    } else if c == '\n' {
        seq!['\\', 'n']
    } else if c == '\u{c}' {
        seq!['\\', 'f']
    } else if c == '\r' {
        seq!['\\', 'r']
    } else if (c as u32) < 0x20 {
        seq![
            '\\',
            'u',
            '0',
            '0',
            hex_digits()[(c as u32 / 16) as int],
            hex_digits()[(c as u32 % 16) as int],
        ]
    } else {
        seq![c]
    }
}

/// The characters of a string, each escaped for a JSON string literal.
pub open spec fn json_escaped(s: Seq<char>) -> Seq<char>
    decreases s.len(),
{
    if s.len() == 0 {
        Seq::empty()
    } else {
        json_escaped(s.drop_last()) + json_escape_char(s.last())
    }
}

/// The JSON string literal of a string: its escaped characters between quotes.
pub open spec fn json_string_text(s: Seq<char>) -> Seq<char> {
    seq!['"'] + json_escaped(s) + seq!['"']
}

/// Relies on serde_json::to_string: a `str` serializes to its JSON string
/// literal, and writing it into the `Vec` behind `to_string` cannot fail.
#[verifier::external_body]
fn json_quote(s: &str) -> (r: Result<String, serde_json::Error>)
    ensures
        r is Ok,
        r matches Ok(t) ==> t@ == json_string_text(s@),
{
    serde_json::to_string(s)
}

/// Relies on std::str::from_utf8: it succeeds exactly on valid UTF-8.
#[verifier::external_body]
fn is_utf8(b: &[u8]) -> (r: bool)
    ensures
        r == valid_utf8(b@),
{
    std::str::from_utf8(b).is_ok()
}

/// Errors that reach the endpoint boundary.
#[derive(PartialEq, Eq, Structural, Debug, Clone, Copy)]
pub enum ServiceError {
    /// The publish payload could not be accepted.
    BadRequest,
    /// The durable cell could not be read or written, or held no record.
    StorageUnavailable,
}

/// What a read of the durable cell gave.
pub enum CellRead {
    Value(Vec<u8>),
    Missing,
    Failed,
}

/// What a compare-and-swap on the durable cell gave.
#[derive(PartialEq, Eq, Structural, Debug, Clone, Copy)]
pub enum SwapOutcome {
    /// The cell held the expected bytes and now holds the proposed ones.
    Swapped,
    /// The cell held other bytes and was left as it was.
    Conflict,
    /// The store failed.
    Failed,
}

/// The arguments of the compare-and-swap that a publish makes.
pub struct SwapRequest {
    pub expected: Vec<u8>,
    pub proposed: Vec<u8>,
}

/// The label of the events that carry the record: `user`.
pub open spec fn record_label() -> Seq<u8> {
    seq![117u8, 115, 101, 114]
}

/// The bytes `{"user":` that open a stored payload.
pub open spec fn payload_head() -> Seq<u8> {
    seq![123u8, 34, 117, 115, 101, 114, 34, 58]
}

/// The stored payload for a user whose JSON string literal is `quoted`.
pub open spec fn payload_bytes(quoted: Seq<char>) -> Seq<u8> {
    payload_head() + encode_utf8(quoted) + seq![125u8]
}

/// Whether a compare-and-swap that expects `expected` applies to a cell holding `current`.
pub open spec fn swap_applies(current: Option<Seq<u8>>, expected: Option<Seq<u8>>) -> bool {
    current == expected
}

/// What the cell holds after such a compare-and-swap.
pub open spec fn after_swap(
    current: Option<Seq<u8>>,
    expected: Option<Seq<u8>>,
    proposed: Option<Seq<u8>>,
) -> Option<Seq<u8>> {
    if swap_applies(current, expected) {
        proposed
    } else {
        current
    }
}

/// Two publishes that observed the same record and propose a different one
/// cannot both apply, whichever runs first: the second sees a conflict and
/// leaves the record as the first one set it.
pub proof fn lemma_single_winner(
    current: Option<Seq<u8>>,
    observed: Seq<u8>,
    first: Seq<u8>,
    second: Seq<u8>,
)
    requires
        first != observed,
    ensures
        !(swap_applies(current, Some(observed)) && swap_applies(
            after_swap(current, Some(observed), Some(first)),
            Some(observed),
        )),
        swap_applies(current, Some(observed)) ==> after_swap(
            after_swap(current, Some(observed), Some(first)),
            Some(observed),
            Some(second),
        ) == Some(first),
{
}

/// The name of the record, `user`: its key in the cell and the label of its seed events.
pub fn record_label_bytes() -> (r: Vec<u8>)
    ensures
        r@ == record_label(),
{
    let mut r: Vec<u8> = Vec::new();
    r.push(117u8);
    r.push(115u8);
    r.push(101u8);
    r.push(114u8);
    assert(r@ =~= record_label());
    r
}

/// A read that gave a record the library can serve: valid UTF-8 bytes.
pub open spec fn usable_read(read: CellRead) -> bool {
    read matches CellRead::Value(v) && valid_utf8(v@)
}

/// The seed event for a stored record.
pub open spec fn seed_of(v: Seq<u8>) -> EventView {
    EventView { label: record_label(), data: v }
}

/// The channel of a subscriber seeded with record `v` after `joined` publishes.
pub open spec fn seeded_channel(v: Seq<u8>, joined: nat) -> ChannelView {
    ChannelView {
        open: true,
        seed: seed_of(v),
        joined,
        taken: Seq::empty(),
        pending: seq![seed_of(v)],
    }
}

/// The seed event of a new subscriber, from what the cell read gave. A
/// missing record, a failed read and bytes that are not UTF-8 all make the
/// store unavailable.
pub fn seed_event(read: CellRead) -> (r: Result<Event, ServiceError>)
    ensures
        read matches CellRead::Value(v) ==> (valid_utf8(v@) ==> (r matches Ok(e) && e@ == seed_of(
            v@,
        ))),
        !usable_read(read) ==> r == Err::<Event, ServiceError>(ServiceError::StorageUnavailable),
{
    match read {
        CellRead::Value(v) => {
            if is_utf8(v.as_slice()) {
                Ok(Event::new(record_label_bytes(), v))
            } else {
                Err(ServiceError::StorageUnavailable)
            }
        },
        _ => Err(ServiceError::StorageUnavailable),
    }
}

/// Registers a subscriber seeded with the record that the cell read gave,
/// under a fresh identity. When the read gave no usable record nothing is
/// registered.
pub fn subscribe(hub: &mut Hub, read: CellRead) -> (r: Result<u64, ServiceError>)
    requires
        old(hub).wf(),
        old(hub).next_id() < u64::MAX,
    ensures
        final(hub).wf(),
        final(hub).log() == old(hub).log(),
        read matches CellRead::Value(v) ==> (valid_utf8(v@) ==> (r == Ok::<u64, ServiceError>(
            old(hub).next_id(),
        ) && !old(hub).channels().contains_key(old(hub).next_id()) && final(hub).next_id() == old(
            hub,
        ).next_id() + 1 && final(hub).channels() == old(hub).channels().insert(
            old(hub).next_id(),
            seeded_channel(v@, old(hub).log().len()),
        ))),
        !usable_read(read) ==> r == Err::<u64, ServiceError>(ServiceError::StorageUnavailable)
            && *final(hub) == *old(hub),
{
    match seed_event(read) {
        Ok(seed) => Ok(hub.register(seed)),
        Err(e) => Err(e),
    }
}

/// The stored payload for a user whose JSON string literal is `quoted`.
pub fn payload_from_quoted(quoted: &str) -> (r: Vec<u8>)
    ensures
        r@ == payload_bytes(quoted@),
{
    let mut r: Vec<u8> = Vec::new();
    let head: [u8; 8] = [123u8, 34, 117, 115, 101, 114, 34, 58];
    assert(head@ == payload_head());
    append_bytes(&mut r, head.as_slice());
    append_bytes(&mut r, quoted.as_bytes());
    r.push(125u8);
    assert(r@ =~= payload_bytes(quoted@));
    r
}

/// Serializes the data of a publish request, `{"user": <user>}`, to the bytes stored in the cell.
pub fn encode_payload(user: &str) -> (r: Result<Vec<u8>, ServiceError>)
    ensures
        r is Ok,
        r matches Ok(b) ==> b@ == payload_bytes(json_string_text(user@)),
{
    match json_quote(user) {
        Ok(quoted) => Ok(payload_from_quoted(quoted.as_str())),
        Err(_) => Err(ServiceError::BadRequest),
    }
}

/// The compare-and-swap a publish makes: from the record it read to the new
/// payload. A read that gave no usable record makes the store unavailable.
pub fn plan_swap(read: CellRead, payload: Vec<u8>) -> (r: Result<SwapRequest, ServiceError>)
    ensures
        read matches CellRead::Value(v) ==> (valid_utf8(v@) ==> (r matches Ok(q) && q.expected@
            == v@ && q.proposed@ == payload@)),
        !usable_read(read) ==> (r matches Err(e) && e == ServiceError::StorageUnavailable),
{
    match read {
        CellRead::Value(v) => {
            if is_utf8(v.as_slice()) {
                Ok(SwapRequest { expected: v, proposed: payload })
            } else {
                Err(ServiceError::StorageUnavailable)
            }
        },
        _ => Err(ServiceError::StorageUnavailable),
    }
}

/// Whether the swap applied; a store failure is an error.
pub fn settle_swap(outcome: SwapOutcome) -> (r: Result<bool, ServiceError>)
    ensures
        outcome == SwapOutcome::Swapped ==> r == Ok::<bool, ServiceError>(true),
        outcome == SwapOutcome::Conflict ==> r == Ok::<bool, ServiceError>(false),
        outcome == SwapOutcome::Failed ==> r == Err::<bool, ServiceError>(
            ServiceError::StorageUnavailable,
        ),
{
    match outcome {
        SwapOutcome::Swapped => Ok(true),
        SwapOutcome::Conflict => Ok(false),
        SwapOutcome::Failed => Err(ServiceError::StorageUnavailable),
    }
}

/// Finishes a publish once the swap has been attempted: unless the store
/// failed, the event goes out to every subscriber, whether the swap applied
/// or lost a race. Returns whether it applied.
pub fn finish_publish(hub: &mut Hub, label: Vec<u8>, payload: Vec<u8>, outcome: SwapOutcome) -> (r:
    Result<bool, ServiceError>)
    requires
        old(hub).wf(),
    ensures
        final(hub).wf(),
        r == settle_swap_spec(outcome),
        r is Ok ==> Hub::published(
            *old(hub),
            EventView { label: label@, data: payload@ },
            *final(hub),
        ),
        r is Err ==> *final(hub) == *old(hub),
{
    let settled = settle_swap(outcome);
    if settled.is_ok() {
        let e = Event::new(label, payload);
        hub.publish(&e);
    }
    settled
}

/// The result `settle_swap` gives for each outcome.
pub open spec fn settle_swap_spec(outcome: SwapOutcome) -> Result<bool, ServiceError> {
    match outcome {
        SwapOutcome::Swapped => Ok(true),
        SwapOutcome::Conflict => Ok(false),
        SwapOutcome::Failed => Err(ServiceError::StorageUnavailable),
    }
}

} // verus!
