//! Data Response Format

use vstd::prelude::*;

verus! {

/// A legacy scan record (5 bytes) with its angle and distance kept in the
/// fixed-point units of the wire format: the angle in 1/64 degree, the
/// distance in 1/4 millimetre.
#[derive(Clone, Copy, PartialEq, Eq, Debug, Structural)]
pub struct ScanSample {
    pub new: bool,
    pub quality: u8,
    pub angle_q6: u16,
    pub dist_q2: u16,
}

/// The little-endian value of `bytes[at..at + 2]`.
pub open spec fn le_u16_at(bytes: Seq<u8>, at: int) -> int {
    bytes[at] + 256 * bytes[at + 1]
}

/// The little-endian value of `bytes[at..at + 4]`.
pub open spec fn le_u32_at(bytes: Seq<u8>, at: int) -> int {
    bytes[at] + 256 * bytes[at + 1] + 65536 * bytes[at + 2] + 16777216 * bytes[at + 3]
}

impl ScanSample {
    /// What a 5-byte scan record decodes to: the start flag `S` (bit 0) must be
    /// the complement of its check bit (bit 1), and the check bit `C` of byte 1
    /// must be set.
    pub open spec fn decode(bytes: Seq<u8>) -> Option<ScanSample> {
        if bytes.len() != 5 {
            None
        } else if bytes[0] % 2 == (bytes[0] / 2) % 2 {
            None
        } else if bytes[1] % 2 != 1 {
            None
        } else {
            Some(
                ScanSample {
                    new: bytes[0] % 2 == 1,
                    quality: bytes[0] / 4,
                    angle_q6: (le_u16_at(bytes, 1) / 2) as u16,
                    dist_q2: le_u16_at(bytes, 3) as u16,
                },
            )
        }
    }

    /// Decodes one legacy scan record.
    pub fn try_from_bytes(bytes: &[u8]) -> (res: Option<ScanSample>)
        ensures
            res == ScanSample::decode(bytes@),
    {
        if bytes.len() != 5 {
            return None;
        }
        let b0 = bytes[0];
        let s = b0 & 1;
        let s_bar = (b0 & 2) >> 1;
        assert(s == b0 % 2 && s_bar == (b0 / 2) % 2) by (bit_vector)
            requires
                s == b0 & 1,
                s_bar == (b0 & 2) >> 1,
        ;
        if s == s_bar {
            return None;
        }
        let new = s == 1;
        let quality = b0 >> 2;
        assert(quality == b0 / 4) by (bit_vector)
            requires
                quality == b0 >> 2,
        ;
        let b1 = bytes[1];
        let c = b1 & 1;
        assert(c == b1 % 2) by (bit_vector)
            requires
                c == b1 & 1,
        ;
        if c != 1 {
            return None;
        }
        let angle: u16 = (b1 as u16 + (bytes[2] as u16) * 256) / 2;
        let dist: u16 = bytes[3] as u16 + (bytes[4] as u16) * 256;
        Some(ScanSample { new, quality, angle_q6: angle, dist_q2: dist })
    }
}

/// A 5-byte record is accepted exactly when its start flag (bit 0 of byte 0)
/// differs from its check bit (bit 1) and the check bit of byte 1 (bit 0) is
/// set. An accepted record gives: the start-of-scan flag, bit 0 of byte 0, on
/// its own; the quality, the six high bits of byte 0; the angle, the 15 high
/// bits of bytes 1 and 2 read little-endian; the distance, bytes 3 and 4 read
/// little-endian.
pub proof fn lemma_scan_record_fields(bytes: Seq<u8>)
    requires
        bytes.len() == 5,
    ensures
        ScanSample::decode(bytes) is Some <==> (bytes[0] % 2 != (bytes[0] / 2) % 2 && bytes[1] % 2
            == 1),
        ScanSample::decode(bytes) matches Some(r) ==> {
            &&& r.new == (bytes[0] % 2 == 1)
            &&& r.quality == bytes[0] / 4
            &&& r.angle_q6 == (bytes[1] + 256 * bytes[2]) / 2
            &&& r.dist_q2 == bytes[3] + 256 * bytes[4]
        },
{
}

/// Two records that agree in their first three bytes are both accepted or
/// both refused, and decode to the same start flag, quality and angle,
/// whatever their distances: the distance plays no part in the other fields.
pub proof fn lemma_scan_record_distance_apart(a: Seq<u8>, b: Seq<u8>)
    requires
        a.len() == 5,
        b.len() == 5,
        a[0] == b[0],
        a[1] == b[1],
        a[2] == b[2],
    ensures
        ScanSample::decode(a) is Some <==> ScanSample::decode(b) is Some,
        ScanSample::decode(a) is Some ==> {
            &&& ScanSample::decode(a).unwrap().new == ScanSample::decode(b).unwrap().new
            &&& ScanSample::decode(a).unwrap().quality == ScanSample::decode(b).unwrap().quality
            &&& ScanSample::decode(a).unwrap().angle_q6 == ScanSample::decode(b).unwrap().angle_q6
        },
{
}

/// An ultra capsule: a start angle and 32 cabins, each cabin packing a major
/// distance and two predicted distances.
pub struct UltraCapsuleResponse {
    pub s: u8,
    pub start_angle_q6: u16,
    pub ultra_cabins: [u32; 32],
}

/// The start angle of a capsule that 132 bytes encode (as the one
/// `try_from_bytes` returns does) keeps every bit of its two sources: its
/// bits 4 and up are the low seven bits of byte 3 or'ed with the high nibble
/// of byte 2, and its low nibble is byte 2's; for a byte 2 below 16 it is
/// plainly `(byte 3 mod 128) * 16 + byte 2`. The top bit of byte 3 is not part
/// of it; the flag `s` is byte 3's low bit; cabin `i` is the four bytes from
/// `4 + 4 i` read little-endian.
pub proof fn lemma_capsule_start_angle(bytes: Seq<u8>, c: UltraCapsuleResponse)
    requires
        bytes.len() == 132,
        c.encoded_by(bytes),
    ensures
        c.start_angle_q6 / 16 == ((bytes[3] % 128) as u16 | (bytes[2] / 16) as u16),
        c.start_angle_q6 % 16 == bytes[2] % 16,
        bytes[2] < 16 ==> c.start_angle_q6 == (bytes[3] % 128) * 16 + bytes[2],
        c.s == bytes[3] % 2,
        forall|i: int|
            0 <= i < 32 ==> #[trigger] c.ultra_cabins@[i] == bytes[4 + 4 * i] + 256 * bytes[5 + 4
                * i] + 65536 * bytes[6 + 4 * i] + 16777216 * bytes[7 + 4 * i],
{
    let b2 = bytes[2];
    let b3 = bytes[3];
    let a = c.start_angle_q6;
    assert(a == (((b3 & 0x7F) as u16) << 4u16) | (b2 as u16));
    assert({
        &&& a / 16 == ((b3 % 128) as u16 | (b2 / 16) as u16)
        &&& a % 16 == b2 % 16
        &&& b2 < 16 ==> a == (b3 % 128) * 16 + b2
    }) by (bit_vector)
        requires
            a == (((b3 & 0x7F) as u16) << 4u16) | (b2 as u16),
    ;
}

/// Bytes are taken as a capsule exactly when there are 132 of them, the
/// first lies in 0xA0..=0xAF and the second in 0x50..=0x5F; the low nibbles
/// of those two bytes may hold anything.
pub proof fn lemma_capsule_accepted(bytes: Seq<u8>)
    ensures
        UltraCapsuleResponse::is_capsule(bytes) <==> (bytes.len() == 132 && 0xA0 <= bytes[0] <= 0xAF
            && 0x50 <= bytes[1] <= 0x5F),
{
}

impl UltraCapsuleResponse {
    /// A 132-byte capsule starts with the sync nibbles 0xA and 0x5 in the high
    /// halves of its first two bytes.
    pub open spec fn is_capsule(bytes: Seq<u8>) -> bool {
        &&& bytes.len() == 132
        &&& bytes[0] / 16 == 0xA
        &&& bytes[1] / 16 == 0x5
    }

    /// The start angle field: the low 7 bits of byte 3 shifted left by 4,
    /// combined by bitwise or with byte 2.
    pub open spec fn start_angle_of(bytes: Seq<u8>) -> u16 {
        (((bytes[3] & 0x7F) as u16) << 4u16) | (bytes[2] as u16)
    }

    /// Whether `self` holds the fields that the capsule `bytes` encodes: the
    /// low bit of byte 3, the start angle, and the 32 little-endian cabins
    /// that follow the 4-byte header.
    pub open spec fn encoded_by(self, bytes: Seq<u8>) -> bool {
        &&& self.s == bytes[3] % 2
        &&& self.start_angle_q6 == UltraCapsuleResponse::start_angle_of(bytes)
        &&& forall|i: int|
            0 <= i < 32 ==> #[trigger] self.ultra_cabins@[i] == le_u32_at(bytes, 4 + 4 * i)
    }

    /// The capsule that `bytes` encode, if they form one.
    pub open spec fn decode(bytes: Seq<u8>) -> Option<UltraCapsuleResponse> {
        if UltraCapsuleResponse::is_capsule(bytes) {
            Some(choose|c: UltraCapsuleResponse| c.encoded_by(bytes))
        } else {
            None
        }
    }

    /// Decodes a capsule; `None` unless the bytes form one.
    pub fn try_from_bytes(bytes: &[u8]) -> (res: Option<UltraCapsuleResponse>)
        ensures
            res is Some <==> UltraCapsuleResponse::is_capsule(bytes@),
            res matches Some(c) ==> c.encoded_by(bytes@),
            res == UltraCapsuleResponse::decode(bytes@),
    {
        if bytes.len() != 132 {
            return None;
        }
        let b0 = bytes[0];
        let b1 = bytes[1];
        let f1 = b0 & 0xF0;
        let f2 = (b1 & 0xF0) >> 4;
        assert((f1 | f2 == 0xA5) <==> (b0 / 16 == 0xA && b1 / 16 == 0x5)) by (bit_vector)
            requires
                f1 == b0 & 0xF0,
                f2 == (b1 & 0xF0) >> 4,
        ;
        if f1 | f2 != 0xA5 {
            return None;
        }
        let angle_l = bytes[2] as u16;
        let b3 = bytes[3];
        let angle_h = (b3 & 0x7F) as u16;
        let s = b3 & 0x80 >> 7;
        assert(s == b3 % 2) by (bit_vector)
            requires
                s == b3 & (0x80u8 >> 7u8),
        ;
        let start_angle_q6 = angle_h << 4 | angle_l;
        let mut ultra_cabins = [0u32; 32];
        for idx in 0..32usize
            invariant
                bytes@.len() == 132,
                forall|i: int|
                    0 <= i < idx ==> #[trigger] ultra_cabins@[i] == le_u32_at(bytes@, 4 + 4 * i),
        {
            let at = 4 + 4 * idx;
            let v: u32 = bytes[at] as u32 + (bytes[at + 1] as u32) * 256 + (bytes[at + 2] as u32)
                * 65536 + (bytes[at + 3] as u32) * 16777216;
            ultra_cabins[idx] = v;
        }
        let res = UltraCapsuleResponse { s, start_angle_q6, ultra_cabins };
        proof {
            assert(res.encoded_by(bytes@));
            let c = choose|c: UltraCapsuleResponse| c.encoded_by(bytes@);
            assert(c.ultra_cabins =~= res.ultra_cabins);
        }
        Some(res)
    }
}

} // verus!
