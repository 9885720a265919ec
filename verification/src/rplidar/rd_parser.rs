//! Parser State Machine

use vstd::prelude::*;

verus! {

/// Reads response descriptors byte by byte: `A5 5A`, a 30-bit little-endian
/// payload length whose top two bits carry the send mode, and a data type.
#[derive(Clone, Debug)]
pub struct ResponseDescriptorParser {
    state: ParserState,
    curr: FlatResponse,
}

/// A response descriptor.
#[derive(Clone, Debug, PartialEq, Eq, Structural)]
pub struct FlatResponse {
    pub payload_len: u32,
    pub send_mode: u8,
    pub dtype: u8,
}

/// How far the parser is into a descriptor.
#[derive(Clone, Copy, Debug)]
pub enum ParserState {
    WaitingForHeader,
    WaitingForHeaderInv,
    ReadingDataLenSendMode(u8),
    ReadingDataType,
}

/// The descriptor with every field zero.
pub open spec fn empty_response() -> FlatResponse {
    FlatResponse { payload_len: 0, send_mode: 0, dtype: 0 }
}

/// Byte `i` (0 to 3, least significant first) of `v`.
pub open spec fn byte_at(v: u32, i: int) -> u8 {
    if i == 0 {
        (v & 0xFF) as u8
    } else if i == 1 {
        ((v >> 8u32) & 0xFF) as u8
    } else if i == 2 {
        ((v >> 16u32) & 0xFF) as u8
    } else {
        (v >> 24u32) as u8
    }
}

/// The `k` low bytes of `v`, least significant first.
pub open spec fn low_bytes(v: u32, k: nat) -> Seq<u8> {
    Seq::new(k, |i: int| byte_at(v, i))
}

/// Whether `bytes` can start a descriptor: at most 7 bytes, beginning with
/// `A5 5A`.
pub open spec fn is_descriptor_prefix(bytes: Seq<u8>) -> bool {
    &&& bytes.len() <= 7
    &&& bytes.len() >= 1 ==> bytes[0] == 0xA5
    &&& bytes.len() >= 2 ==> bytes[1] == 0x5A
}

/// The descriptor that 7 bytes encode.
pub open spec fn descriptor_of(bytes: Seq<u8>) -> FlatResponse {
    FlatResponse {
        payload_len: (bytes[2] + 256 * bytes[3] + 65536 * bytes[4] + 16777216 * (bytes[5] % 64)) as u32,
        send_mode: bytes[5] / 64,
        dtype: bytes[6],
    }
}

/// What one byte does to a parser that holds the bytes `pending` of an
/// unfinished descriptor: the bytes it holds afterwards, and the descriptor
/// that the byte completes, if any. A byte that cannot continue a descriptor
/// drops everything held.
pub open spec fn descriptor_step(pending: Seq<u8>, b: u8) -> (Seq<u8>, Option<FlatResponse>) {
    let p = pending.push(b);
    if !is_descriptor_prefix(p) {
        (Seq::empty(), None)
    } else if p.len() == 7 {
        (Seq::empty(), Some(descriptor_of(p)))
    } else {
        (p, None)
    }
}

/// Feeding `bytes` to a parser that holds `pending`: the bytes held at the
/// end, and what each byte returned, in order.
pub open spec fn descriptor_run(pending: Seq<u8>, bytes: Seq<u8>) -> (Seq<u8>, Seq<Option<FlatResponse>>)
    decreases bytes.len(),
{
    if bytes.len() == 0 {
        (pending, Seq::empty())
    } else {
        let (p1, outs) = descriptor_run(pending, bytes.drop_last());
        let (p2, out) = descriptor_step(p1, bytes.last());
        (p2, outs.push(out))
    }
}

/// A parser holding nothing that is fed the seven bytes of a descriptor
/// returns nothing for the first six and the descriptor for the seventh, and
/// holds nothing afterwards.
pub proof fn lemma_descriptor_decoded(bytes: Seq<u8>)
    requires
        bytes.len() == 7,
        bytes[0] == 0xA5,
        bytes[1] == 0x5A,
    ensures
        descriptor_run(Seq::empty(), bytes) == (
            Seq::<u8>::empty(),
            seq![
                Option::<FlatResponse>::None,
                None,
                None,
                None,
                None,
                None,
                Some(descriptor_of(bytes)),
            ],
        ),
{
    lemma_descriptor_prefix_run(bytes, 6);
    let (p6, outs6) = descriptor_run(Seq::empty(), bytes.take(6));
    assert(bytes.drop_last() =~= bytes.take(6));
    assert(p6.push(bytes.last()) =~= bytes);
    assert(outs6.push(Some(descriptor_of(bytes))) =~= seq![
        Option::<FlatResponse>::None,
        None,
        None,
        None,
        None,
        None,
        Some(descriptor_of(bytes)),
    ]);
}

/// The first `k` (at most 6) bytes of a descriptor are held as they come, and
/// each returns nothing.
proof fn lemma_descriptor_prefix_run(bytes: Seq<u8>, k: int)
    requires
        bytes.len() == 7,
        bytes[0] == 0xA5,
        bytes[1] == 0x5A,
        0 <= k <= 6,
    ensures
        descriptor_run(Seq::empty(), bytes.take(k)) == (bytes.take(k), Seq::new(
            k as nat,
            |i: int| Option::<FlatResponse>::None,
        )),
    decreases k,
{
    if k == 0 {
        assert(bytes.take(0) =~= Seq::<u8>::empty());
        assert(Seq::new(0, |i: int| Option::<FlatResponse>::None) =~= Seq::<Option<FlatResponse>>::empty());
    } else {
        lemma_descriptor_prefix_run(bytes, k - 1);
        assert(bytes.take(k).drop_last() =~= bytes.take(k - 1));
        assert(bytes.take(k - 1).push(bytes.take(k).last()) =~= bytes.take(k));
        assert(Seq::new((k - 1) as nat, |i: int| Option::<FlatResponse>::None).push(None) =~= Seq::new(
            k as nat,
            |i: int| Option::<FlatResponse>::None,
        ));
    }
}

impl Default for ParserState {
    fn default() -> (s: Self)
        ensures
            s is WaitingForHeader,
    {
        ParserState::WaitingForHeader
    }
}

impl Default for FlatResponse {
    fn default() -> (r: Self)
        ensures
            r == empty_response(),
    {
        FlatResponse { payload_len: 0, send_mode: 0, dtype: 0 }
    }
}

impl Default for ResponseDescriptorParser {
    fn default() -> (p: Self)
        ensures
            p.wf(),
            p.pending() == Seq::<u8>::empty(),
    {
        ResponseDescriptorParser { state: ParserState::WaitingForHeader, curr: FlatResponse::default() }
    }
}

impl ResponseDescriptorParser {
    /// The bytes of the unfinished descriptor the parser holds.
    pub closed spec fn pending(&self) -> Seq<u8> {
        match self.state {
            ParserState::WaitingForHeader => Seq::empty(),
            ParserState::WaitingForHeaderInv => seq![0xA5u8],
            ParserState::ReadingDataLenSendMode(step) => seq![0xA5u8, 0x5Au8] + low_bytes(
                self.curr.payload_len,
                step as nat,
            ),
            ParserState::ReadingDataType => seq![0xA5u8, 0x5Au8] + low_bytes(self.curr.payload_len, 3)
                + seq![(byte_at(self.curr.payload_len, 3) | (self.curr.send_mode << 6u8)) as u8],
        }
    }

    /// The fields agree with the state: nothing is accumulated before the
    /// length, and the length holds exactly the bytes read so far.
    pub closed spec fn wf(&self) -> bool {
        match self.state {
            ParserState::WaitingForHeader => self.curr == empty_response(),
            ParserState::WaitingForHeaderInv => self.curr == empty_response(),
            ParserState::ReadingDataLenSendMode(step) => {
                &&& step <= 3
                &&& step == 0 ==> self.curr.payload_len == 0
                &&& step == 1 ==> self.curr.payload_len < 0x100
                &&& step == 2 ==> self.curr.payload_len < 0x10000
                &&& step == 3 ==> self.curr.payload_len < 0x1000000
                &&& self.curr.send_mode == 0
                &&& self.curr.dtype == 0
            },
            ParserState::ReadingDataType => {
                &&& self.curr.payload_len < 0x40000000
                &&& self.curr.send_mode < 4
                &&& self.curr.dtype == 0
            },
        }
    }

    /// Takes the next byte; returns the descriptor it completes, if any.
    pub fn feed(&mut self, byte: u8) -> (res: Option<FlatResponse>)
        requires
            old(self).wf(),
        ensures
            final(self).wf(),
            (final(self).pending(), res) == descriptor_step(old(self).pending(), byte),
            is_descriptor_prefix(final(self).pending()),
            final(self).pending().len() < 7,
    {
        let mut res = None;
        let ghost old_pending = self.pending();

        match (self.state, byte) {
            (ParserState::WaitingForHeader, 0xA5) => {
                self.state = ParserState::WaitingForHeaderInv;
                assert(old_pending.push(byte) =~= seq![0xA5u8]);
            },
            (ParserState::WaitingForHeaderInv, 0x5A) => {
                self.state = ParserState::ReadingDataLenSendMode(0);
                assert(old_pending.push(byte) =~= seq![0xA5u8, 0x5Au8] + low_bytes(
                    self.curr.payload_len,
                    0,
                ));
            },
            (ParserState::ReadingDataLenSendMode(step), b) => {
                let ghost len = self.curr.payload_len;
                self.curr.payload_len |= (b as u32) << ((step) * 8);
                proof {
                    Self::lemma_append_len_byte(len, b, step, self.curr.payload_len);
                }
                if step == 3 {
                    self.curr.send_mode = (b >> 6) & 3;
                    self.curr.payload_len &= 0x3FFFFFFF;
                    self.state = ParserState::ReadingDataType;
                    proof {
                        Self::lemma_split_top_byte(len, b, self.curr.payload_len, self.curr.send_mode);
                        assert(old_pending.push(byte) =~= self.pending());
                    }
                } else {
                    self.state = ParserState::ReadingDataLenSendMode(step + 1);
                    assert(old_pending.push(byte) =~= self.pending());
                }
            },
            (ParserState::ReadingDataType, d) => {
                self.curr.dtype = d;
                proof {
                    Self::lemma_descriptor_fields(self.curr.payload_len, self.curr.send_mode);
                    let p = old_pending.push(byte);
                    assert(p[2] == byte_at(self.curr.payload_len, 0));
                    assert(p[3] == byte_at(self.curr.payload_len, 1));
                    assert(p[4] == byte_at(self.curr.payload_len, 2));
                    assert(descriptor_of(p) == self.curr);
                }
                let mut done = FlatResponse::default();
                std::mem::swap(&mut done, &mut self.curr);
                res = Some(done);
                self.state = ParserState::WaitingForHeader;
            },
            // Invalid state, revert to header
            _ => self.state = ParserState::WaitingForHeader,
        }

        res
    }

    /// Or-ing byte `b` in at position `step` of a length that holds `step`
    /// bytes appends `b` to its low bytes.
    proof fn lemma_append_len_byte(len: u32, b: u8, step: u8, new_len: u32)
        requires
            step <= 3,
            step == 0 ==> len == 0,
            step == 1 ==> len < 0x100,
            step == 2 ==> len < 0x10000,
            step == 3 ==> len < 0x1000000,
            new_len == len | ((b as u32) << ((step * 8) as u8)),
        ensures
            low_bytes(new_len, (step + 1) as nat) =~= low_bytes(len, step as nat).push(b),
            step == 0 ==> new_len < 0x100,
            step == 1 ==> new_len < 0x10000,
            step == 2 ==> new_len < 0x1000000,
    {
        let b32 = b as u32;
        if step == 0 {
            assert(new_len == b32 && (new_len & 0xFF) as u8 == b) by (bit_vector)
                requires
                    new_len == len | (b32 << 0u8),
                    len == 0,
                    b32 == b as u32,
            ;
        } else if step == 1 {
            assert(new_len < 0x10000 && (new_len & 0xFF) == (len & 0xFF) && ((new_len >> 8u32)
                & 0xFF) as u8 == b) by (bit_vector)
                requires
                    new_len == len | (b32 << 8u8),
                    len < 0x100,
                    b32 == b as u32,
            ;
        } else if step == 2 {
            assert(new_len < 0x1000000 && (new_len & 0xFF) == (len & 0xFF) && ((new_len >> 8u32)
                & 0xFF) == ((len >> 8u32) & 0xFF) && ((new_len >> 16u32) & 0xFF) as u8 == b)
                by (bit_vector)
                requires
                    new_len == len | (b32 << 16u8),
                    len < 0x10000,
                    b32 == b as u32,
            ;
        } else {
            assert((new_len & 0xFF) == (len & 0xFF) && ((new_len >> 8u32) & 0xFF) == ((len
                >> 8u32) & 0xFF) && ((new_len >> 16u32) & 0xFF) == ((len >> 16u32) & 0xFF) && (
            new_len >> 24u32) as u8 == b) by (bit_vector)
                requires
                    new_len == len | (b32 << 24u8),
                    len < 0x1000000,
                    b32 == b as u32,
            ;
        }
    }

    /// Masking the send mode out of a full length keeps its low three bytes,
    /// and the top byte is recovered from what is left and the send mode.
    proof fn lemma_split_top_byte(len: u32, b: u8, masked: u32, send_mode: u8)
        requires
            len < 0x1000000,
            masked == (len | ((b as u32) << 24u8)) & 0x3FFFFFFF,
            send_mode == (b >> 6u8) & 3,
        ensures
            masked < 0x40000000,
            send_mode < 4,
            low_bytes(masked, 3) =~= low_bytes(len, 3),
            (byte_at(masked, 3) | (send_mode << 6u8)) as u8 == b,
    {
        let b32 = b as u32;
        assert(masked < 0x40000000 && (masked & 0xFF) == (len & 0xFF) && ((masked >> 8u32) & 0xFF)
            == ((len >> 8u32) & 0xFF) && ((masked >> 16u32) & 0xFF) == ((len >> 16u32) & 0xFF))
            by (bit_vector)
            requires
                len < 0x1000000,
                masked == (len | (b32 << 24u8)) & 0x3FFFFFFF,
                b32 == b as u32,
        ;
        let top = (masked >> 24u32) as u8;
        assert(top == b & 0x3F) by (bit_vector)
            requires
                len < 0x1000000,
                masked == (len | (b32 << 24u8)) & 0x3FFFFFFF,
                b32 == b as u32,
                top == (masked >> 24u32) as u8,
        ;
        assert(send_mode < 4 && (top | (send_mode << 6u8)) == b) by (bit_vector)
            requires
                top == b & 0x3F,
                send_mode == (b >> 6u8) & 3,
        ;
    }

    /// A length below 2^30 and a send mode below 4 are what their descriptor
    /// bytes encode.
    proof fn lemma_descriptor_fields(len: u32, send_mode: u8)
        requires
            len < 0x40000000,
            send_mode < 4,
        ensures
            ({
                let last = (byte_at(len, 3) | (send_mode << 6u8)) as u8;
                &&& len == byte_at(len, 0) + 256 * byte_at(len, 1) + 65536 * byte_at(len, 2)
                    + 16777216 * (last % 64)
                &&& send_mode == last / 64
            }),
    {
        let b0 = (len & 0xFF) as u8;
        let b1 = ((len >> 8u32) & 0xFF) as u8;
        let b2 = ((len >> 16u32) & 0xFF) as u8;
        let top = (len >> 24u32) as u8;
        let last = (top | (send_mode << 6u8)) as u8;
        assert(len == b0 + 256 * b1 + 65536 * b2 + 16777216 * (last % 64) && send_mode == last / 64)
            by (bit_vector)
            requires
                len < 0x40000000,
                send_mode < 4,
                b0 == (len & 0xFF) as u8,
                b1 == ((len >> 8u32) & 0xFF) as u8,
                b2 == ((len >> 16u32) & 0xFF) as u8,
                top == (len >> 24u32) as u8,
                last == (top | (send_mode << 6u8)) as u8,
        ;
    }
}

} // verus!
