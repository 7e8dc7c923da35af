use vstd::prelude::*;

verus! {

/// What an event looks like to the proofs: its label and its payload, as bytes.
pub struct EventView {
    pub label: Seq<u8>,
    pub data: Seq<u8>,
}

/// A named occurrence with an opaque serialized payload.
pub struct Event {
    pub label: Vec<u8>,
    pub data: Vec<u8>,
}

impl View for Event {
    type V = EventView;

    open spec fn view(&self) -> EventView {
        EventView { label: self.label@, data: self.data@ }
    }
}

/// The bytes `event: ` that open a stream frame.
pub open spec fn event_prefix() -> Seq<u8> {
    seq![101u8, 118, 101, 110, 116, 58, 32]
}

/// The bytes `\ndata: ` between the label and the payload of a frame.
pub open spec fn data_prefix() -> Seq<u8> {
    seq![10u8, 100, 97, 116, 97, 58, 32]
}

/// The blank line `\n\n` that ends a frame.
pub open spec fn frame_end() -> Seq<u8> {
    seq![10u8, 10]
}

/// The event-stream frame of an event: `event: <label>\ndata: <data>\n\n`.
pub open spec fn frame_of(e: EventView) -> Seq<u8> {
    event_prefix() + e.label + data_prefix() + e.data + frame_end()
}

pub(crate) fn append_bytes(out: &mut Vec<u8>, src: &[u8])
    ensures
        final(out)@ == old(out)@ + src@,
{
    let mut i: usize = 0;
    while i < src.len()
        invariant
            i <= src@.len(),
            out@ == old(out)@ + src@.subrange(0, i as int),
        decreases src@.len() - i,
    {
        out.push(src[i]);
        i = i + 1;
        assert(src@.subrange(0, i as int) == src@.subrange(0, i - 1) + seq![src@[i - 1]]);
    }
    assert(src@.subrange(0, src@.len() as int) == src@);
}

impl Event {
    /// Builds an event from its label and payload.
    pub fn new(label: Vec<u8>, data: Vec<u8>) -> (r: Event)
        ensures
            r@ == (EventView { label: label@, data: data@ }),
    {
        Event { label, data }
    }

    /// An independent copy of this event.
    pub fn duplicate(&self) -> (r: Event)
        ensures
            r@ == self@,
    {
        let mut label: Vec<u8> = Vec::new();
        append_bytes(&mut label, self.label.as_slice());
        let mut data: Vec<u8> = Vec::new();
        append_bytes(&mut data, self.data.as_slice());
        assert(label@ =~= self.label@);
        assert(data@ =~= self.data@);
        Event { label, data }
    }

    /// The event-stream frame that carries this event on the wire.
    pub fn to_frame(&self) -> (r: Vec<u8>)
        ensures
            r@ == frame_of(self@),
    {
        let mut out: Vec<u8> = Vec::new();
        let event_tag: [u8; 7] = [101u8, 118, 101, 110, 116, 58, 32];
        let data_tag: [u8; 7] = [10u8, 100, 97, 116, 97, 58, 32];
        let end_tag: [u8; 2] = [10u8, 10];
        assert(event_tag@ == event_prefix());
        assert(data_tag@ == data_prefix());
        assert(end_tag@ == frame_end());
        append_bytes(&mut out, event_tag.as_slice());
        append_bytes(&mut out, self.label.as_slice());
        append_bytes(&mut out, data_tag.as_slice());
        append_bytes(&mut out, self.data.as_slice());
        append_bytes(&mut out, end_tag.as_slice());
        assert(out@ =~= frame_of(self@));
        out
    }
}

} // verus!
