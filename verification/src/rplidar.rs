//! RPLIDAR protocol: the state that turns the bytes read from the device into
//! response descriptors, payloads, scan records and ultra capsules.

pub use crate::packet;

pub mod command;
pub mod fixed_point;
pub mod payload_parser;
pub mod rd_parser;
pub mod response;
pub mod ultra;
pub mod ultra_capsule_parser;

use vstd::prelude::*;

use crate::rplidar::payload_parser::{payload_step, PayloadParser};
use crate::rplidar::rd_parser::{
    descriptor_of, descriptor_step, FlatResponse, ResponseDescriptorParser,
};
use crate::rplidar::response::{ScanSample, UltraCapsuleResponse};
use crate::rplidar::ultra::{capsule_scans, ParsedUltraCapsule, UltraCapsuleParser, UltraCapsuleScan};

verus! {

/// The receiving side of a device link: a response descriptor is read first,
/// then the payloads it announces, one after another.
pub struct LidarDecoder {
    rd_parser: ResponseDescriptorParser,
    p_parser: PayloadParser,
    ultra_parser: UltraCapsuleParser,
    curr_resp: Option<FlatResponse>,
}

/// A decoder as plain values: the bytes of an unfinished descriptor, the bytes
/// of an unfinished payload, the payload length, the descriptor being
/// served, and the last ultra capsule taken.
pub type DecoderView = (Seq<u8>, Seq<u8>, usize, Option<FlatResponse>, Option<UltraCapsuleResponse>);

/// What one byte does in a legacy scan: before a descriptor has been read it
/// goes to the descriptor, and a completed descriptor sets the payload
/// length; after, it goes to the payload, and a completed payload is decoded
/// as a scan record.
pub open spec fn scan_step(v: DecoderView, b: u8) -> (DecoderView, Option<ScanSample>) {
    if v.3 is Some {
        let (buffered, payload) = payload_step(v.1, v.2, b);
        (
            (v.0, buffered, v.2, v.3, v.4),
            match payload {
                Some(p) => ScanSample::decode(p),
                None => None,
            },
        )
    } else {
        let (pending, resp) = descriptor_step(v.0, b);
        match resp {
            Some(d) => ((pending, Seq::empty(), d.payload_len as usize, Some(d), v.4), None),
            None => ((pending, v.1, v.2, None, v.4), None),
        }
    }
}

/// Feeding `bytes` to a legacy scan: the final decoder and the scan records
/// decoded, in order.
pub open spec fn scan_run(v: DecoderView, bytes: Seq<u8>) -> (DecoderView, Seq<ScanSample>)
    decreases bytes.len(),
{
    if bytes.len() == 0 {
        (v, Seq::empty())
    } else {
        let (v1, outs) = scan_run(v, bytes.drop_last());
        let (v2, out) = scan_step(v1, bytes.last());
        (
            v2,
            match out {
                Some(s) => outs.push(s),
                None => outs,
            },
        )
    }
}

/// What one byte does in an ultra scan: as in [`scan_step`], but a completed
/// payload is decoded as an ultra capsule; when capsules are delivered, the
/// capsule goes to the capsule parser, which gives out the samples of the one
/// before it.
pub open spec fn extended_step(v: DecoderView, b: u8, deliver: bool) -> (
    DecoderView,
    Option<Seq<UltraCapsuleScan>>,
) {
    if v.3 is Some {
        let (buffered, payload) = payload_step(v.1, v.2, b);
        let v1 = (v.0, buffered, v.2, v.3, v.4);
        match payload {
            Some(p) => match UltraCapsuleResponse::decode(p) {
                Some(c) => if deliver {
                    (
                        (v.0, buffered, v.2, v.3, Some(c)),
                        match v.4 {
                            Some(prev) => Some(capsule_scans(prev, c)),
                            None => None,
                        },
                    )
                } else {
                    (v1, None)
                },
                None => (v1, None),
            },
            None => (v1, None),
        }
    } else {
        let (pending, resp) = descriptor_step(v.0, b);
        match resp {
            Some(d) => ((pending, Seq::empty(), d.payload_len as usize, Some(d), v.4), None),
            None => ((pending, v.1, v.2, None, v.4), None),
        }
    }
}

/// Feeding `bytes` to an ultra scan: the final decoder and the samples of each
/// capsule given out, in order.
pub open spec fn extended_run(v: DecoderView, bytes: Seq<u8>, deliver: bool) -> (
    DecoderView,
    Seq<Seq<UltraCapsuleScan>>,
)
    decreases bytes.len(),
{
    if bytes.len() == 0 {
        (v, Seq::empty())
    } else {
        let (v1, outs) = extended_run(v, bytes.drop_last(), deliver);
        let (v2, out) = extended_step(v1, bytes.last(), deliver);
        (
            v2,
            match out {
                Some(s) => outs.push(s),
                None => outs,
            },
        )
    }
}

/// The concatenation of `chunks`.
pub open spec fn concat(chunks: Seq<Seq<u8>>) -> Seq<u8>
    decreases chunks.len(),
{
    if chunks.len() == 0 {
        Seq::empty()
    } else {
        concat(chunks.drop_last()) + chunks.last()
    }
}

/// The scan records that the chunks decode to, in order; chunks that are no
/// scan record give none.
pub open spec fn decode_chunks(chunks: Seq<Seq<u8>>) -> Seq<ScanSample>
    decreases chunks.len(),
{
    if chunks.len() == 0 {
        Seq::empty()
    } else {
        let r = decode_chunks(chunks.drop_last());
        match ScanSample::decode(chunks.last()) {
            Some(s) => r.push(s),
            None => r,
        }
    }
}

/// Feeding `a` then `b` is feeding `a + b`.
pub proof fn lemma_scan_run_append(v: DecoderView, a: Seq<u8>, b: Seq<u8>)
    ensures
        scan_run(v, a + b) == ({
            let (v1, o1) = scan_run(v, a);
            let (v2, o2) = scan_run(v1, b);
            (v2, o1 + o2)
        }),
    decreases b.len(),
{
    if b.len() == 0 {
        assert(a + b =~= a);
        let (v1, o1) = scan_run(v, a);
        assert(o1 + Seq::<ScanSample>::empty() =~= o1);
    } else {
        lemma_scan_run_append(v, a, b.drop_last());
        assert((a + b).drop_last() =~= a + b.drop_last());
        assert((a + b).last() == b.last());
        let (v1, o1) = scan_run(v, a);
        let (v2, o2) = scan_run(v1, b.drop_last());
        let (v3, out) = scan_step(v2, b.last());
        if let Some(x) = out {
            assert((o1 + o2).push(x) =~= o1 + o2.push(x));
        }
    }
}

/// A decoder that holds nothing and waits for a descriptor, fed the seven
/// bytes of one, serves it with an empty payload of the announced length.
proof fn lemma_scan_descriptor(v: DecoderView, desc: Seq<u8>)
    requires
        v.0 == Seq::<u8>::empty(),
        v.3 is None,
        desc.len() == 7,
        desc[0] == 0xA5,
        desc[1] == 0x5A,
    ensures
        scan_run(v, desc) == (
            (
                Seq::<u8>::empty(),
                Seq::<u8>::empty(),
                descriptor_of(desc).payload_len as usize,
                Some(descriptor_of(desc)),
                v.4,
            ),
            Seq::<ScanSample>::empty(),
        ),
{
    lemma_scan_descriptor_prefix(v, desc, 6);
    assert(desc.drop_last() =~= desc.take(6));
    assert(desc.take(6).push(desc.last()) =~= desc);
}

proof fn lemma_scan_descriptor_prefix(v: DecoderView, desc: Seq<u8>, k: int)
    requires
        v.0 == Seq::<u8>::empty(),
        v.3 is None,
        desc.len() == 7,
        desc[0] == 0xA5,
        desc[1] == 0x5A,
        0 <= k <= 6,
    ensures
        scan_run(v, desc.take(k)) == ((desc.take(k), v.1, v.2, v.3, v.4), Seq::<ScanSample>::empty()),
    decreases k,
{
    if k == 0 {
        assert(desc.take(0) =~= Seq::<u8>::empty());
    } else {
        lemma_scan_descriptor_prefix(v, desc, k - 1);
        assert(desc.take(k).drop_last() =~= desc.take(k - 1));
        assert(desc.take(k - 1).push(desc.take(k).last()) =~= desc.take(k));
    }
}

/// A decoder serving a descriptor, with nothing buffered, fed one payload of
/// the announced length, returns the scan record it decodes to, if any, and
/// is back where it was.
proof fn lemma_scan_chunk(v: DecoderView, chunk: Seq<u8>)
    requires
        v.3 is Some,
        v.1 == Seq::<u8>::empty(),
        v.2 >= 1,
        chunk.len() == v.2,
    ensures
        scan_run(v, chunk) == (
            v,
            match ScanSample::decode(chunk) {
                Some(s) => seq![s],
                None => Seq::<ScanSample>::empty(),
            },
        ),
{
    lemma_scan_chunk_prefix(v, chunk, chunk.len() - 1);
    assert(chunk.drop_last() =~= chunk.take(chunk.len() - 1));
    assert(chunk.take(chunk.len() - 1).push(chunk.last()) =~= chunk);
    if let Some(s) = ScanSample::decode(chunk) {
        assert(Seq::<ScanSample>::empty().push(s) =~= seq![s]);
    }
}

proof fn lemma_scan_chunk_prefix(v: DecoderView, chunk: Seq<u8>, k: int)
    requires
        v.3 is Some,
        v.1 == Seq::<u8>::empty(),
        chunk.len() == v.2,
        0 <= k < v.2,
    ensures
        scan_run(v, chunk.take(k)) == ((v.0, chunk.take(k), v.2, v.3, v.4), Seq::<ScanSample>::empty()),
    decreases k,
{
    if k == 0 {
        assert(chunk.take(0) =~= Seq::<u8>::empty());
    } else {
        lemma_scan_chunk_prefix(v, chunk, k - 1);
        assert(chunk.take(k).drop_last() =~= chunk.take(k - 1));
        assert(chunk.take(k - 1).push(chunk.take(k).last()) =~= chunk.take(k));
    }
}

proof fn lemma_scan_chunks(v: DecoderView, chunks: Seq<Seq<u8>>)
    requires
        v.3 is Some,
        v.1 == Seq::<u8>::empty(),
        v.2 >= 1,
        forall|i: int| 0 <= i < chunks.len() ==> (#[trigger] chunks[i]).len() == v.2,
    ensures
        scan_run(v, concat(chunks)) == (v, decode_chunks(chunks)),
    decreases chunks.len(),
{
    if chunks.len() == 0 {
        assert(concat(chunks) =~= Seq::<u8>::empty());
    } else {
        let init = chunks.drop_last();
        assert forall|i: int| 0 <= i < init.len() implies (#[trigger] init[i]).len() == v.2 by {
            assert(init[i] == chunks[i]);
        }
        lemma_scan_chunks(v, init);
        lemma_scan_run_append(v, concat(init), chunks.last());
        assert(chunks.last() == chunks[chunks.len() - 1]);
        lemma_scan_chunk(v, chunks.last());
        let r = decode_chunks(init);
        match ScanSample::decode(chunks.last()) {
            Some(s) => {
                assert(r + seq![s] =~= r.push(s));
            },
            None => {
                assert(r + Seq::<ScanSample>::empty() =~= r);
            },
        }
    }
}

/// A decoder that holds no descriptor bytes and waits for a descriptor, fed a
/// descriptor that announces payloads of n (at least one) bytes and then
/// payloads of n bytes, returns the scan records that the payloads decode to,
/// in order, and ends serving the descriptor with nothing buffered.
pub proof fn lemma_scan_stream(v: DecoderView, desc: Seq<u8>, chunks: Seq<Seq<u8>>)
    requires
        v.0 == Seq::<u8>::empty(),
        v.3 is None,
        desc.len() == 7,
        desc[0] == 0xA5,
        desc[1] == 0x5A,
        descriptor_of(desc).payload_len >= 1,
        forall|i: int|
            0 <= i < chunks.len() ==> (#[trigger] chunks[i]).len() == descriptor_of(desc).payload_len,
    ensures
        scan_run(v, desc + concat(chunks)) == (
            (
                Seq::<u8>::empty(),
                Seq::<u8>::empty(),
                descriptor_of(desc).payload_len as usize,
                Some(descriptor_of(desc)),
                v.4,
            ),
            decode_chunks(chunks),
        ),
{
    lemma_scan_run_append(v, desc, concat(chunks));
    lemma_scan_descriptor(v, desc);
    let w = (
        Seq::<u8>::empty(),
        Seq::<u8>::empty(),
        descriptor_of(desc).payload_len as usize,
        Some(descriptor_of(desc)),
        v.4,
    );
    lemma_scan_chunks(w, chunks);
    assert(Seq::<ScanSample>::empty() + decode_chunks(chunks) =~= decode_chunks(chunks));
}

/// The capsules that the chunks decode to, in order.
pub open spec fn decode_capsules(chunks: Seq<Seq<u8>>) -> Seq<UltraCapsuleResponse>
    decreases chunks.len(),
{
    if chunks.len() == 0 {
        Seq::empty()
    } else {
        let r = decode_capsules(chunks.drop_last());
        match UltraCapsuleResponse::decode(chunks.last()) {
            Some(c) => r.push(c),
            None => r,
        }
    }
}

/// The last of `caps`, or `prev` when there are none.
pub open spec fn last_capsule(prev: Option<UltraCapsuleResponse>, caps: Seq<UltraCapsuleResponse>) -> Option<
    UltraCapsuleResponse,
> {
    if caps.len() == 0 {
        prev
    } else {
        Some(caps.last())
    }
}

/// The samples given out when the capsules `caps` follow `prev`: one run of
/// samples for each capsule that has a predecessor, decoded from the
/// predecessor.
pub open spec fn capsule_outputs(prev: Option<UltraCapsuleResponse>, caps: Seq<UltraCapsuleResponse>) -> Seq<
    Seq<UltraCapsuleScan>,
>
    decreases caps.len(),
{
    if caps.len() == 0 {
        Seq::empty()
    } else {
        let o = capsule_outputs(prev, caps.drop_last());
        match last_capsule(prev, caps.drop_last()) {
            Some(b) => o.push(capsule_scans(b, caps.last())),
            None => o,
        }
    }
}

/// Feeding `a` then `b` to an ultra scan is feeding `a + b`.
pub proof fn lemma_extended_run_append(v: DecoderView, a: Seq<u8>, b: Seq<u8>, deliver: bool)
    ensures
        extended_run(v, a + b, deliver) == ({
            let (v1, o1) = extended_run(v, a, deliver);
            let (v2, o2) = extended_run(v1, b, deliver);
            (v2, o1 + o2)
        }),
    decreases b.len(),
{
    if b.len() == 0 {
        assert(a + b =~= a);
        let (v1, o1) = extended_run(v, a, deliver);
        assert(o1 + Seq::<Seq<UltraCapsuleScan>>::empty() =~= o1);
    } else {
        lemma_extended_run_append(v, a, b.drop_last(), deliver);
        assert((a + b).drop_last() =~= a + b.drop_last());
        assert((a + b).last() == b.last());
        let (v1, o1) = extended_run(v, a, deliver);
        let (v2, o2) = extended_run(v1, b.drop_last(), deliver);
        let (v3, out) = extended_step(v2, b.last(), deliver);
        if let Some(x) = out {
            assert((o1 + o2).push(x) =~= o1 + o2.push(x));
        }
    }
}

proof fn lemma_extended_descriptor_prefix(v: DecoderView, desc: Seq<u8>, k: int)
    requires
        v.0 == Seq::<u8>::empty(),
        v.3 is None,
        desc.len() == 7,
        desc[0] == 0xA5,
        desc[1] == 0x5A,
        0 <= k <= 6,
    ensures
        extended_run(v, desc.take(k), true) == (
            (desc.take(k), v.1, v.2, v.3, v.4),
            Seq::<Seq<UltraCapsuleScan>>::empty(),
        ),
    decreases k,
{
    if k == 0 {
        assert(desc.take(0) =~= Seq::<u8>::empty());
    } else {
        lemma_extended_descriptor_prefix(v, desc, k - 1);
        assert(desc.take(k).drop_last() =~= desc.take(k - 1));
        assert(desc.take(k - 1).push(desc.take(k).last()) =~= desc.take(k));
    }
}

proof fn lemma_extended_chunk_prefix(v: DecoderView, chunk: Seq<u8>, k: int)
    requires
        v.3 is Some,
        v.1 == Seq::<u8>::empty(),
        chunk.len() == v.2,
        0 <= k < v.2,
    ensures
        extended_run(v, chunk.take(k), true) == (
            (v.0, chunk.take(k), v.2, v.3, v.4),
            Seq::<Seq<UltraCapsuleScan>>::empty(),
        ),
    decreases k,
{
    if k == 0 {
        assert(chunk.take(0) =~= Seq::<u8>::empty());
    } else {
        lemma_extended_chunk_prefix(v, chunk, k - 1);
        assert(chunk.take(k).drop_last() =~= chunk.take(k - 1));
        assert(chunk.take(k - 1).push(chunk.take(k).last()) =~= chunk.take(k));
    }
}

/// One payload of the announced length, delivered: a capsule it decodes to
/// becomes the previous capsule, and the samples of the one before come out.
proof fn lemma_extended_chunk(v: DecoderView, chunk: Seq<u8>)
    requires
        v.3 is Some,
        v.1 == Seq::<u8>::empty(),
        v.2 >= 1,
        chunk.len() == v.2,
    ensures
        extended_run(v, chunk, true) == match UltraCapsuleResponse::decode(chunk) {
            Some(c) => (
                (v.0, v.1, v.2, v.3, Some(c)),
                match v.4 {
                    Some(p) => seq![capsule_scans(p, c)],
                    None => Seq::<Seq<UltraCapsuleScan>>::empty(),
                },
            ),
            None => (v, Seq::<Seq<UltraCapsuleScan>>::empty()),
        },
{
    lemma_extended_chunk_prefix(v, chunk, chunk.len() - 1);
    assert(chunk.drop_last() =~= chunk.take(chunk.len() - 1));
    assert(chunk.take(chunk.len() - 1).push(chunk.last()) =~= chunk);
    if let Some(c) = UltraCapsuleResponse::decode(chunk) {
        if let Some(p) = v.4 {
            assert(Seq::<Seq<UltraCapsuleScan>>::empty().push(capsule_scans(p, c)) =~= seq![
                capsule_scans(p, c),
            ]);
        }
    }
}

proof fn lemma_extended_chunks(v: DecoderView, chunks: Seq<Seq<u8>>)
    requires
        v.3 is Some,
        v.1 == Seq::<u8>::empty(),
        v.2 >= 1,
        forall|i: int| 0 <= i < chunks.len() ==> (#[trigger] chunks[i]).len() == v.2,
    ensures
        extended_run(v, concat(chunks), true) == (
            (v.0, v.1, v.2, v.3, last_capsule(v.4, decode_capsules(chunks))),
            capsule_outputs(v.4, decode_capsules(chunks)),
        ),
    decreases chunks.len(),
{
    if chunks.len() == 0 {
        assert(concat(chunks) =~= Seq::<u8>::empty());
    } else {
        let init = chunks.drop_last();
        assert forall|i: int| 0 <= i < init.len() implies (#[trigger] init[i]).len() == v.2 by {
            assert(init[i] == chunks[i]);
        }
        lemma_extended_chunks(v, init);
        lemma_extended_run_append(v, concat(init), chunks.last(), true);
        assert(chunks.last() == chunks[chunks.len() - 1]);
        let caps = decode_capsules(init);
        let w = (v.0, v.1, v.2, v.3, last_capsule(v.4, caps));
        lemma_extended_chunk(w, chunks.last());
        let o = capsule_outputs(v.4, caps);
        match UltraCapsuleResponse::decode(chunks.last()) {
            Some(c) => {
                assert(caps.push(c).drop_last() =~= caps);
                match last_capsule(v.4, caps) {
                    Some(b) => {
                        assert(o + seq![capsule_scans(b, c)] =~= o.push(capsule_scans(b, c)));
                    },
                    None => {
                        assert(o + Seq::<Seq<UltraCapsuleScan>>::empty() =~= o);
                    },
                }
            },
            None => {
                assert(o + Seq::<Seq<UltraCapsuleScan>>::empty() =~= o);
            },
        }
    }
}

/// A decoder that holds no descriptor bytes and waits for a descriptor, fed a
/// descriptor that announces payloads of n (at least one) bytes and then
/// payloads of n bytes, with capsules delivered, gives out for each capsule
/// that has a predecessor the samples decoded from the predecessor, in order,
/// and keeps the last capsule.
pub proof fn lemma_extended_stream(v: DecoderView, desc: Seq<u8>, chunks: Seq<Seq<u8>>)
    requires
        v.0 == Seq::<u8>::empty(),
        v.3 is None,
        desc.len() == 7,
        desc[0] == 0xA5,
        desc[1] == 0x5A,
        descriptor_of(desc).payload_len >= 1,
        forall|i: int|
            0 <= i < chunks.len() ==> (#[trigger] chunks[i]).len() == descriptor_of(desc).payload_len,
    ensures
        extended_run(v, desc + concat(chunks), true) == (
            (
                Seq::<u8>::empty(),
                Seq::<u8>::empty(),
                descriptor_of(desc).payload_len as usize,
                Some(descriptor_of(desc)),
                last_capsule(v.4, decode_capsules(chunks)),
            ),
            capsule_outputs(v.4, decode_capsules(chunks)),
        ),
{
    lemma_extended_run_append(v, desc, concat(chunks), true);
    lemma_extended_descriptor_prefix(v, desc, 6);
    assert(desc.drop_last() =~= desc.take(6));
    assert(desc.take(6).push(desc.last()) =~= desc);
    let w = (
        Seq::<u8>::empty(),
        Seq::<u8>::empty(),
        descriptor_of(desc).payload_len as usize,
        Some(descriptor_of(desc)),
        v.4,
    );
    assert(extended_run(v, desc, true) == (w, Seq::<Seq<UltraCapsuleScan>>::empty()));
    lemma_extended_chunks(w, chunks);
    assert(Seq::<Seq<UltraCapsuleScan>>::empty() + capsule_outputs(v.4, decode_capsules(chunks))
        =~= capsule_outputs(v.4, decode_capsules(chunks)));
}

impl LidarDecoder {
    /// The decoder as plain values.
    pub closed spec fn view(&self) -> DecoderView {
        (
            self.rd_parser.pending(),
            self.p_parser.buffered(),
            self.p_parser.expected_len(),
            self.curr_resp,
            self.ultra_parser.previous(),
        )
    }

    /// The descriptor parser's fields agree with its state.
    pub closed spec fn wf(&self) -> bool {
        self.rd_parser.wf()
    }

    /// A decoder that has read nothing.
    pub fn new() -> (d: LidarDecoder)
        ensures
            d.wf(),
            d.view() == (
                Seq::<u8>::empty(),
                Seq::<u8>::empty(),
                0usize,
                Option::<FlatResponse>::None,
                Option::<UltraCapsuleResponse>::None,
            ),
    {
        LidarDecoder {
            ultra_parser: UltraCapsuleParser::default(),
            rd_parser: ResponseDescriptorParser::default(),
            p_parser: PayloadParser::default(),
            curr_resp: None,
        }
    }

    /// Records the outcome of writing a command of `packet_len` bytes of which
    /// `sent` went out. A command sent whole makes the decoder wait for a new
    /// response descriptor; the result says whether it was sent whole.
    pub fn command_sent(&mut self, packet_len: usize, sent: usize) -> (whole: bool)
        requires
            old(self).wf(),
        ensures
            final(self).wf(),
            whole == (sent == packet_len),
            whole ==> final(self).view() == (
                old(self).view().0,
                old(self).view().1,
                old(self).view().2,
                Option::<FlatResponse>::None,
                old(self).view().4,
            ),
            !whole ==> final(self).view() == old(self).view(),
    {
        if sent != packet_len {
            false
        } else {
            self.curr_resp = None;
            true
        }
    }

    /// Takes the bytes read during a legacy scan; returns the scan records
    /// they complete, in order.
    pub fn scan(&mut self, bytes: &[u8]) -> (scans: Vec<ScanSample>)
        requires
            old(self).wf(),
        ensures
            final(self).wf(),
            (final(self).view(), scans@) == scan_run(old(self).view(), bytes@),
    {
        let mut scans: Vec<ScanSample> = Vec::new();
        let ghost v0 = self.view();
        for i in 0..bytes.len()
            invariant
                self.wf(),
                (self.view(), scans@) == scan_run(v0, bytes@.take(i as int)),
        {
            let byte = bytes[i];
            assert(bytes@.take(i + 1).drop_last() =~= bytes@.take(i as int));
            if self.curr_resp.is_some() {
                if let Some(payload) = self.p_parser.feed(byte) {
                    if let Some(sr) = ScanSample::try_from_bytes(payload.as_slice()) {
                        scans.push(sr);
                    }
                }
            } else {
                self.curr_resp = self.rd_parser.feed(byte);
                if let Some(ref resp) = self.curr_resp {
                    self.p_parser.set_payload_len(resp.payload_len as usize);
                }
            }
        }
        assert(bytes@.take(bytes@.len() as int) =~= bytes@);
        scans
    }

    /// Takes the bytes read during an ultra scan; returns the samples of each
    /// capsule given out, in order. Capsules go to the capsule parser only when
    /// `deliver` is set.
    pub fn extended_scan(&mut self, bytes: &[u8], deliver: bool) -> (parsed: Vec<ParsedUltraCapsule>)
        requires
            old(self).wf(),
        ensures
            final(self).wf(),
            ({
                let (v, outs) = extended_run(old(self).view(), bytes@, deliver);
                &&& final(self).view() == v
                &&& parsed@.len() == outs.len()
                &&& forall|k: int| 0 <= k < outs.len() ==> #[trigger] parsed@[k].scans@ == outs[k]
            }),
    {
        let mut parsed: Vec<ParsedUltraCapsule> = Vec::new();
        let ghost v0 = self.view();
        for i in 0..bytes.len()
            invariant
                self.wf(),
                ({
                    let (v, outs) = extended_run(v0, bytes@.take(i as int), deliver);
                    &&& self.view() == v
                    &&& parsed@.len() == outs.len()
                    &&& forall|k: int| 0 <= k < outs.len() ==> #[trigger] parsed@[k].scans@ == outs[k]
                }),
        {
            let byte = bytes[i];
            assert(bytes@.take(i + 1).drop_last() =~= bytes@.take(i as int));
            if self.curr_resp.is_some() {
                if let Some(payload) = self.p_parser.feed(byte) {
                    if let Some(sr) = UltraCapsuleResponse::try_from_bytes(payload.as_slice()) {
                        if deliver {
                            if let Some(ultra) = self.ultra_parser.on_scan_node_capsule_data(sr) {
                                parsed.push(ultra);
                            }
                        }
                    }
                }
            } else {
                self.curr_resp = self.rd_parser.feed(byte);
                if let Some(ref resp) = self.curr_resp {
                    self.p_parser.set_payload_len(resp.payload_len as usize);
                }
            }
        }
        assert(bytes@.take(bytes@.len() as int) =~= bytes@);
        parsed
    }
}

} // verus!
