//! Ultra capsule stream parser: finds 80-byte capsule frames in a byte stream
//! and turns consecutive capsules into high quality nodes.

use vstd::prelude::*;

use crate::packet::xor_all;
use crate::rplidar::fixed_point::{
    div_trunc, rad_to_deg_q16_double, rad_to_deg_q16_double_exec, rem_trunc, two_pow,
};
use crate::rplidar::ultra::{major_of, normalize_angle_q6, predict1_of, predict2_of};

verus! {

/// A capsule: a start angle whose top bit is the sync flag, 32 cabins, and a
/// checksum split into two nibbles.
#[derive(Debug, Clone, Copy)]
pub struct UltraCapsuleResponse {
    pub start_angle_sync_q6: u16,
    pub ultra_cabins: [UltraCabin; 32],
    pub checksum_1: u8,
    pub checksum_2: u8,
}

/// One cabin: a major distance and two predictions packed in 32 bits.
#[derive(Debug, Clone, Copy)]
pub struct UltraCabin {
    pub combined_x3: u32,
}

/// A high quality node: flag, quality, angle in q14 quarter turns and
/// distance in q2 millimetres.
#[derive(Debug, Clone, Copy)]
pub struct HQNode {
    pub flag: u8,
    pub quality: u16,
    pub angle_z_q14: u16,
    pub dist_mm_q2: u32,
}

/// Finds capsule frames in a byte stream and decodes them.
pub struct UltraCapsuleParser {
    cached_scan_node_buf: [u8; 80],
    cached_scan_node_buf_pos: usize,
    is_previous_capsuledata_ready: bool,
    cached_previous_ultracapsuledata: Option<UltraCapsuleResponse>,
    cached_last_data_timestamp_us: u64,
}

/// The high nibble of the first byte of a frame.
pub const SYNC_1: u8 = 0xA;

/// The high nibble of the second byte of a frame.
pub const SYNC_2: u8 = 0x5;

/// The sync flag of a capsule's start angle.
pub const SYNC_BIT: u16 = 0x8000;

/// The framing state as plain values: the frame buffer, the position in it,
/// and whether the previous capsule can be paired with the next one.
pub type FrameView = (Seq<u8>, usize, bool);

/// The position after one byte at position `pos`: a frame starts with a byte
/// whose high nibble is 0xA, goes on with one whose high nibble is 0x5, and
/// ends after its 80th byte.
pub open spec fn frame_pos_step(pos: usize, b: u8) -> usize {
    if pos == 0 {
        if b / 16 == SYNC_1 {
            1
        } else {
            0
        }
    } else if pos == 1 {
        if b / 16 == SYNC_2 {
            2
        } else {
            0
        }
    } else if pos == 79 {
        0
    } else {
        (pos + 1) as usize
    }
}

/// Whether feeding `bytes` from position `pos` completes a frame.
pub open spec fn completes_frame(pos: usize, bytes: Seq<u8>) -> bool
    decreases bytes.len(),
{
    if bytes.len() == 0 {
        false
    } else if pos == 79 {
        true
    } else {
        completes_frame(frame_pos_step(pos, bytes[0]), bytes.skip(1))
    }
}

/// What one byte does to the framing state, short of completing a frame: a
/// byte that breaks the sync pattern resets the position and unpairs the
/// previous capsule; any other byte is stored at the position.
pub open spec fn frame_step(v: FrameView, b: u8) -> FrameView {
    let (buf, pos, ready) = v;
    if pos == 0 && b / 16 != SYNC_1 {
        (buf, 0, false)
    } else if pos == 1 && b / 16 != SYNC_2 {
        (buf, 0, false)
    } else {
        (buf.update(pos as int, b), (pos + 1) as usize, ready)
    }
}

/// Feeding `bytes` to the framing state, short of completing a frame.
pub open spec fn frame_run(v: FrameView, bytes: Seq<u8>) -> FrameView
    decreases bytes.len(),
{
    if bytes.len() == 0 {
        v
    } else {
        frame_run(frame_step(v, bytes[0]), bytes.skip(1))
    }
}

/// The start angle of a capsule in q8 degrees as a 16-bit value: the sync
/// flag masked off, shifted left by two, the bits above 16 lost.
pub open spec fn start_q8(c: UltraCapsuleResponse) -> int {
    (((c.start_angle_sync_q6 & 0x7FFF) as int) * 4) % 65536
}

/// The angle swept from `prev`'s start to `cur`'s start, in q8 degrees.
pub open spec fn swept_q8(prev: UltraCapsuleResponse, cur: UltraCapsuleResponse) -> int {
    let d = start_q8(cur) - start_q8(prev);
    if start_q8(prev) > start_q8(cur) {
        d + 92160
    } else {
        d
    }
}

/// The angle between two consecutive nodes, in q16 degrees.
pub open spec fn node_step_q16(prev: UltraCapsuleResponse, cur: UltraCapsuleResponse) -> int {
    div_trunc(swept_q8(prev, cur) * 8, 3)
}

/// The uncorrected angle of node `j`, in q16 degrees; the start angle is
/// shifted left by eight as a 16-bit value.
pub open spec fn node_raw_q16(prev: UltraCapsuleResponse, cur: UltraCapsuleResponse, j: int) -> int {
    (start_q8(prev) * 256) % 65536 + j * node_step_q16(prev, cur)
}

/// The scaled distance and scale level of a 12-bit major distance: values
/// from 0x400 on are scaled by 16 above 0x400, smaller ones are kept.
pub open spec fn vbs_wide(scaled: int) -> (int, int) {
    if scaled >= 0x400 {
        (0x400 + (scaled - 0x400) * 16, 4)
    } else {
        (scaled, 0)
    }
}

/// A predicted distance in q2 as a 32-bit value: 0 for the markers -512 and
/// 511, else the prediction scaled by the level plus the base, times 4.
pub open spec fn predicted_wide_q2(predict: int, base: int, level: int) -> u32 {
    if predict == -512 || predict == 511 {
        0
    } else {
        ((predict * two_pow(level as nat) + base) * 4) as u32
    }
}

/// Distance `k` (0, 1 or 2) of cabin `pos` in `cabins`; the cabin after the
/// last one is the first.
pub open spec fn node_dist_q2(cabins: Seq<UltraCabin>, pos: int, k: int) -> u32 {
    let c = cabins[pos].combined_x3;
    let next = if pos == cabins.len() - 1 {
        cabins[0].combined_x3
    } else {
        cabins[pos + 1].combined_x3
    };
    let (s1, l1) = vbs_wide(major_of(c));
    let (s2, l2) = vbs_wide(major_of(next));
    if k == 0 {
        (s1 * 4) as u32
    } else if k == 1 {
        predicted_wide_q2(predict1_of(c), s1, l1)
    } else {
        predicted_wide_q2(predict2_of(c), s2, l2)
    }
}

/// The mean angle offset (q16 radians) of a node at `dist_q2`; a distance
/// that reads as negative when taken as a signed value gives no correction
/// term.
pub open spec fn node_offset_rad_q16(dist_q2: u32) -> int {
    if dist_q2 >= 200 {
        let k2 = if dist_q2 < 0x80000000 {
            98361int / (dist_q2 as int)
        } else {
            0
        };
        9150 - k2 * 64 - (k2 * k2 * k2) / 98304
    } else {
        8578
    }
}

/// The node at raw angle `raw` and distance `d`, nodes being `inc` apart.
pub open spec fn node_from(raw: int, inc: int, d: u32) -> HQNode {
    let sync = rem_trunc(raw + inc, 23592960) < inc;
    let angle_q6 = (raw - rad_to_deg_q16_double(node_offset_rad_q16(d))) / 1024;
    HQNode {
        flag: if sync {
            1
        } else {
            2
        },
        quality: if d != 0 {
            (0x2F * 4) as u16
        } else {
            0
        },
        angle_z_q14: div_trunc(normalize_angle_q6(angle_q6) * 256, 90) as u16,
        dist_mm_q2: d,
    }
}

/// Node `j` (0 <= j < 96) between capsules `prev` and `cur`: distance `j % 3` of
/// cabin `j / 3` of `prev`.
pub open spec fn node_at(prev: UltraCapsuleResponse, cur: UltraCapsuleResponse, j: int) -> HQNode {
    node_from(
        node_raw_q16(prev, cur, j),
        node_step_q16(prev, cur),
        node_dist_q2(prev.ultra_cabins@, j / 3, j % 3),
    )
}

/// The 96 nodes between capsules `prev` and `cur`.
pub open spec fn capsule_nodes(prev: UltraCapsuleResponse, cur: UltraCapsuleResponse) -> Seq<HQNode> {
    Seq::new(96, |j: int| node_at(prev, cur, j))
}

/// The checksum a capsule carries: its low nibble is `checksum_1`'s, its high
/// nibble is `checksum_2`'s low nibble.
pub open spec fn carried_checksum(capsule: UltraCapsuleResponse) -> u8 {
    (capsule.checksum_1 & 0xF) | (capsule.checksum_2 << 4u8)
}

/// `std::time::SystemTime`, carried through without looking inside.
#[verifier::external_type_specification]
#[verifier::external_body]
pub struct ExSystemTime(std::time::SystemTime);

/// Calls `SystemTime::now`: the system clock's current reading. Nothing is
/// claimed of it.
#[verifier::external_body]
fn system_time_now() -> std::time::SystemTime {
    std::time::SystemTime::now()
}

/// Calls `SystemTime::duration_since` with `UNIX_EPOCH`: the time elapsed
/// since 1970, `None` when the clock reads earlier. Nothing is claimed of the
/// duration.
#[verifier::external_body]
fn since_unix_epoch(t: &std::time::SystemTime) -> Option<core::time::Duration> {
    match t.duration_since(std::time::UNIX_EPOCH) {
        Ok(d) => Some(d),
        Err(_) => None,
    }
}

/// Calls `Duration::as_micros`: the whole microseconds of the duration.
/// Nothing is claimed of the count.
#[verifier::external_body]
fn duration_as_micros(d: &core::time::Duration) -> u128 {
    d.as_micros()
}

impl Default for UltraCabin {
    fn default() -> (c: Self)
        ensures
            c.combined_x3 == 0,
    {
        UltraCabin { combined_x3: 0 }
    }
}

impl Default for UltraCapsuleParser {
    fn default() -> (p: Self)
        ensures
            p.wf(),
            p.frame() == (Seq::new(80, |i: int| 0u8), 0usize, false),
            p.previous() is None,
            p.last_timestamp_us() == 0,
    {
        Self::new()
    }
}

impl UltraCapsuleParser {
    /// The framing state.
    pub closed spec fn frame(&self) -> FrameView {
        (
            self.cached_scan_node_buf@,
            self.cached_scan_node_buf_pos,
            self.is_previous_capsuledata_ready,
        )
    }

    /// The last capsule decoded.
    pub closed spec fn previous(&self) -> Option<UltraCapsuleResponse> {
        self.cached_previous_ultracapsuledata
    }

    /// The time at which the last capsule was decoded, in microseconds.
    pub closed spec fn last_timestamp_us(&self) -> u64 {
        self.cached_last_data_timestamp_us
    }

    /// The position lies within the frame buffer.
    pub closed spec fn wf(&self) -> bool {
        self.cached_scan_node_buf_pos <= 79
    }

    /// A parser that has read nothing.
    pub fn new() -> (p: Self)
        ensures
            p.wf(),
            p.frame() == (Seq::new(80, |i: int| 0u8), 0usize, false),
            p.previous() is None,
            p.last_timestamp_us() == 0,
    {
        let p = Self {
            cached_scan_node_buf: [0u8; 80],
            cached_scan_node_buf_pos: 0,
            is_previous_capsuledata_ready: false,
            cached_previous_ultracapsuledata: None,
            cached_last_data_timestamp_us: 0,
        };
        assert(p.cached_scan_node_buf@ =~= Seq::new(80, |i: int| 0u8));
        p
    }

    /// Drops the frame in progress and the previous capsule.
    pub fn reset(&mut self)
        ensures
            final(self).wf(),
            final(self).frame() == (old(self).frame().0, 0usize, false),
            final(self).previous() is None,
            final(self).last_timestamp_us() == old(self).last_timestamp_us(),
    {
        self.cached_scan_node_buf_pos = 0;
        self.is_previous_capsuledata_ready = false;
        self.cached_previous_ultracapsuledata = None;
    }

    /// Takes bytes of the stream and returns the nodes they complete. The
    /// bytes must not complete a frame: decoding a complete frame reads
    /// cabins past the end of the 80-byte buffer.
    pub fn on_data(&mut self, data: &[u8]) -> (nodes: Vec<HQNode>)
        requires
            old(self).wf(),
            !completes_frame(old(self).frame().1, data@),
        ensures
            final(self).wf(),
            nodes@.len() == 0,
            final(self).frame() == frame_run(old(self).frame(), data@),
            final(self).previous() == old(self).previous(),
            final(self).last_timestamp_us() == old(self).last_timestamp_us(),
    {
        let mut nodes: Vec<HQNode> = Vec::new();
        let ghost target = frame_run(self.frame(), data@);
        let ghost prev0 = self.previous();
        let ghost ts0 = self.last_timestamp_us();

        let mut i: usize = 0;
        assert(data@.skip(0) =~= data@);
        while i < data.len()
            invariant
                i <= data@.len(),
                self.wf(),
                nodes@.len() == 0,
                self.frame().0.len() == 80,
                frame_run(self.frame(), data@.skip(i as int)) == target,
                !completes_frame(self.frame().1, data@.skip(i as int)),
                self.previous() == prev0,
                self.last_timestamp_us() == ts0,
            decreases data@.len() - i,
        {
            let current_data = data[i];
            let ghost rest = data@.skip(i as int);
            assert(rest[0] == current_data);
            assert(rest.skip(1) =~= data@.skip(i + 1));
            i = i + 1;
            let tmp = current_data >> 4;
            assert(tmp == current_data / 16) by (bit_vector)
                requires
                    tmp == current_data >> 4,
            ;
            match self.cached_scan_node_buf_pos {
                0 => {
                    if tmp != SYNC_1 {
                        self.is_previous_capsuledata_ready = false;
                        continue;
                    }
                },
                1 => {
                    if tmp != SYNC_2 {
                        self.cached_scan_node_buf_pos = 0;
                        self.is_previous_capsuledata_ready = false;
                        continue;
                    }
                },
                79 => {
                    self.cached_scan_node_buf[79] = current_data;
                    self.cached_scan_node_buf_pos = 0;

                    if let Some(capsule) = self.parse_capsule() {
                        if self.verify_checksum(&capsule) {
                            // A capsule is decoded against the time it came in;
                            // with no reading of the clock since 1970 there is
                            // none, and the capsule is not decoded.
                            if let Some(current_timestamp) = self.get_current_timestamp_us() {
                                let new_nodes = self.process_capsule_data(
                                    capsule,
                                    current_timestamp,
                                );
                                nodes = new_nodes;
                            }
                        } else {
                            self.is_previous_capsuledata_ready = false;
                        }
                    }
                    continue;
                },
                _ => {},
            }

            self.cached_scan_node_buf[self.cached_scan_node_buf_pos] = current_data;
            self.cached_scan_node_buf_pos += 1;
        }
        assert(data@.skip(data@.len() as int) =~= Seq::<u8>::empty());
        nodes
    }

    /// Reads the capsule out of a complete frame. It can only be asked of a
    /// buffer that is not at the start of a frame (the cabins of a complete
    /// frame lie past the end of the buffer), and there it finds none. The
    /// reading after the first test is never reached; it is kept as the
    /// record of the frame's layout: the checksum nibbles in bytes 0 and 1,
    /// the start angle in bytes 2 and 3, then 32 cabins of four bytes, 132
    /// bytes in all, more than the 80 the buffer holds.
    #[verifier::loop_isolation(false)]
    fn parse_capsule(&self) -> (res: Option<UltraCapsuleResponse>)
        requires
            self.cached_scan_node_buf_pos != 0,
        ensures
            res is None,
    {
        if self.cached_scan_node_buf_pos != 0 {
            return None;
        }

        let start_angle_sync_q6 = self.cached_scan_node_buf[2] as u16 | (
        self.cached_scan_node_buf[3] as u16) << 8;

        let mut ultra_cabins = [UltraCabin::default();32];

        for i in 0..32usize {
            let offset = 4 + i * 4;
            let combined_x3 = self.cached_scan_node_buf[offset] as u32 | (
            self.cached_scan_node_buf[offset + 1] as u32) << 8 | (self.cached_scan_node_buf[offset
                + 2] as u32) << 16 | (self.cached_scan_node_buf[offset + 3] as u32) << 24;
            ultra_cabins[i] = UltraCabin { combined_x3 };
        }

        let checksum_1 = self.cached_scan_node_buf[0] & 0x0F;
        let checksum_2 = (self.cached_scan_node_buf[1] & 0x0F) as u8;

        Some(UltraCapsuleResponse { start_angle_sync_q6, ultra_cabins, checksum_1, checksum_2 })
    }

    /// Whether the exclusive or of the frame bytes after the first two equals
    /// the checksum the capsule carries.
    fn verify_checksum(&self, capsule: &UltraCapsuleResponse) -> (ok: bool)
        ensures
            ok == (xor_all(self.cached_scan_node_buf@.subrange(2, 80)) == carried_checksum(*capsule)),
    {
        let mut checksum: u8 = 0;

        for i in 2..80usize
            invariant
                self.cached_scan_node_buf@.len() == 80,
                checksum == xor_all(self.cached_scan_node_buf@.subrange(2, i as int)),
        {
            assert(self.cached_scan_node_buf@.subrange(2, i + 1).drop_last()
                =~= self.cached_scan_node_buf@.subrange(2, i as int));
            checksum ^= self.cached_scan_node_buf[i];
        }

        let received_checksum = (capsule.checksum_1 & 0xF) | (capsule.checksum_2 << 4);
        checksum == received_checksum
    }

    /// Decodes a checksummed capsule received at `current_timestamp`: the
    /// nodes between the previous capsule and this one when the previous can
    /// be paired with it; this capsule becomes the previous one, and its time
    /// is kept.
    fn process_capsule_data(
        &mut self,
        capsule: UltraCapsuleResponse,
        current_timestamp: u64,
    ) -> (nodes: Vec<HQNode>)
        ensures
            nodes@ == if old(self).frame().2 && old(self).previous() is Some {
                capsule_nodes(old(self).previous().unwrap(), capsule)
            } else {
                Seq::empty()
            },
            final(self).frame() == (old(self).frame().0, old(self).frame().1, true),
            final(self).previous() == Some(capsule),
            final(self).last_timestamp_us() == current_timestamp,
    {
        let mut nodes = Vec::new();

        if self.is_previous_capsuledata_ready {
            if let Some(prev_capsule) = self.cached_previous_ultracapsuledata {
                let new_nodes = self.interpolate_nodes(&prev_capsule, &capsule, current_timestamp);
                nodes = new_nodes;
            }
        }

        if capsule.start_angle_sync_q6 & SYNC_BIT != 0 {
            self.is_previous_capsuledata_ready = false;
        }

        self.cached_previous_ultracapsuledata = Some(capsule);
        self.is_previous_capsuledata_ready = true;
        self.cached_last_data_timestamp_us = current_timestamp;

        nodes
    }

    /// The 96 nodes between `prev_capsule` and `current_capsule`.
    fn interpolate_nodes(
        &self,
        prev_capsule: &UltraCapsuleResponse,
        current_capsule: &UltraCapsuleResponse,
        current_timestamp: u64,
    ) -> (nodes: Vec<HQNode>)
        ensures
            nodes@ == capsule_nodes(*prev_capsule, *current_capsule),
    {
        let mut nodes: Vec<HQNode> = Vec::new();

        let current_start_angle_q8 = (current_capsule.start_angle_sync_q6 & 0x7FFF) << 2;
        let prev_start_angle_q8 = (prev_capsule.start_angle_sync_q6 & 0x7FFF) << 2;
        proof {
            Self::lemma_q8(current_capsule.start_angle_sync_q6, current_start_angle_q8);
            Self::lemma_q8(prev_capsule.start_angle_sync_q6, prev_start_angle_q8);
        }

        let mut diff_angle_q8 = current_start_angle_q8 as i32 - prev_start_angle_q8 as i32;
        if prev_start_angle_q8 > current_start_angle_q8 {
            diff_angle_q8 += 360 * 256;
        }

        let angle_inc_q16 = (diff_angle_q8 * 8) / 3;
        let shifted_start = prev_start_angle_q8 << 8;
        assert(shifted_start == (prev_start_angle_q8 * 256) % 65536) by (bit_vector)
            requires
                shifted_start == prev_start_angle_q8 << 8,
        ;
        let mut current_angle_raw_q16 = shifted_start as i32;
        let ghost inc = node_step_q16(*prev_capsule, *current_capsule);
        assert(angle_inc_q16 == inc);
        assert(0 <= inc <= 250000);

        for pos in 0..32usize
            invariant
                nodes@.len() == 3 * pos,
                forall|j: int|
                    0 <= j < 3 * pos ==> #[trigger] nodes@[j] == node_at(
                        *prev_capsule,
                        *current_capsule,
                        j,
                    ),
                current_angle_raw_q16 == node_raw_q16(*prev_capsule, *current_capsule, 3 * pos),
                angle_inc_q16 == inc,
                inc == node_step_q16(*prev_capsule, *current_capsule),
                0 <= inc <= 250000,
                0 <= (start_q8(*prev_capsule) * 256) % 65536 < 65536,
        {
            let dist_q2 = self.decode_ultra_cabin_distances(&prev_capsule.ultra_cabins, pos);

            for cpos in 0..3usize
                invariant
                    0 <= pos < 32,
                    nodes@.len() == 3 * pos + cpos,
                    forall|j: int|
                        0 <= j < 3 * pos + cpos ==> #[trigger] nodes@[j] == node_at(
                            *prev_capsule,
                            *current_capsule,
                            j,
                        ),
                    current_angle_raw_q16 == node_raw_q16(
                        *prev_capsule,
                        *current_capsule,
                        3 * pos + cpos,
                    ),
                    angle_inc_q16 == inc,
                    inc == node_step_q16(*prev_capsule, *current_capsule),
                    0 <= inc <= 250000,
                    0 <= (start_q8(*prev_capsule) * 256) % 65536 < 65536,
                    forall|m: int|
                        0 <= m < 3 ==> dist_q2@[m] == node_dist_q2(
                            prev_capsule.ultra_cabins@,
                            pos as int,
                            m,
                        ),
            {
                let ghost j = 3 * pos + cpos;
                assert(j / 3 == pos && j % 3 == cpos);
                assert(0 <= j * inc <= 96 * 250000) by (nonlinear_arith)
                    requires
                        0 <= j < 96,
                        0 <= inc <= 250000,
                ;
                let node = Self::make_node(current_angle_raw_q16, angle_inc_q16, dist_q2[cpos]);
                nodes.push(node);
                assert((j + 1) * inc == j * inc + inc) by (nonlinear_arith);
                current_angle_raw_q16 += angle_inc_q16;
            }
        }

        assert(nodes@ =~= capsule_nodes(*prev_capsule, *current_capsule));
        nodes
    }

    /// The start angle masked and shifted as a 16-bit value.
    proof fn lemma_q8(start: u16, q8: u16)
        requires
            q8 == (start & 0x7FFF) << 2,
        ensures
            q8 == (((start & 0x7FFF) as int) * 4) % 65536,
    {
        let masked = start & 0x7FFF;
        assert(q8 == ((masked as int) * 4) % 65536) by (bit_vector)
            requires
                q8 == masked << 2,
                masked == start & 0x7FFF,
        ;
    }

    /// One node at raw angle `current_angle_raw_q16` and distance `dist_q2`.
    fn make_node(current_angle_raw_q16: i32, angle_inc_q16: i32, dist_q2: u32) -> (node: HQNode)
        requires
            0 <= current_angle_raw_q16 <= 30000000,
            0 <= angle_inc_q16 <= 250000,
        ensures
            node == node_from(current_angle_raw_q16 as int, angle_inc_q16 as int, dist_q2),
    {
        let sync_bit: u8 = if ((current_angle_raw_q16 + angle_inc_q16) % (360 * 65536))
            < angle_inc_q16 {
            1
        } else {
            0
        };

        let offset_angle_mean_q16 = Self::calculate_offset_angle(dist_q2);
        let shifted = current_angle_raw_q16 - offset_angle_mean_q16;
        let angle_q6 = shifted >> 10;
        assert(angle_q6 == shifted / 1024) by (bit_vector)
            requires
                angle_q6 == shifted >> 10,
        ;

        let normalized_angle_q6 = Self::normalize_angle(angle_q6);

        let not_sync = 1 - sync_bit;
        let flag = sync_bit | (not_sync << 1);
        assert(flag == if sync_bit == 1 {
            1u8
        } else {
            2u8
        }) by (bit_vector)
            requires
                flag == sync_bit | (not_sync << 1u8),
                not_sync == 1 - sync_bit,
                sync_bit == 0 || sync_bit == 1,
        ;

        let quality: u16 = if dist_q2 != 0 {
            0x2F << 2
        } else {
            0
        };
        assert(0x2Fu16 << 2u16 == 188u16) by (bit_vector);
        let angle_z_q14 = ((normalized_angle_q6 * 256) / 90) as u16;

        HQNode { flag, quality, angle_z_q14, dist_mm_q2: dist_q2 }
    }

    /// The three distances of cabin `pos`; the cabin after the last is the
    /// first.
    fn decode_ultra_cabin_distances(&self, cabins: &[UltraCabin], pos: usize) -> (dist_q2: [u32; 3])
        requires
            pos < cabins@.len(),
        ensures
            forall|m: int| 0 <= m < 3 ==> dist_q2@[m] == node_dist_q2(cabins@, pos as int, m),
    {
        let combined_x3 = cabins[pos].combined_x3;
        let dist_major = (combined_x3 & 0xFFF) as i32;

        let dist_predict1 = ((combined_x3 as i32) << 10) >> 22;
        let dist_predict2 = (combined_x3 as i32) >> 22;
        proof {
            assert(dist_major == combined_x3 % 4096) by (bit_vector)
                requires
                    dist_major == (combined_x3 & 0xFFF) as i32,
            ;
            let f1 = (combined_x3 / 4096) % 1024;
            assert(dist_predict1 == if f1 >= 512 {
                f1 - 1024
            } else {
                f1 as int
            }) by (bit_vector)
                requires
                    dist_predict1 == ((combined_x3 as i32) << 10) >> 22,
                    f1 == (combined_x3 / 4096) % 1024,
            ;
            let f2 = combined_x3 / 4194304;
            assert(dist_predict2 == if f2 >= 512 {
                f2 - 1024
            } else {
                f2 as int
            }) by (bit_vector)
                requires
                    dist_predict2 == (combined_x3 as i32) >> 22,
                    f2 == combined_x3 / 4194304,
            ;
        }

        let next_x3 = if pos == cabins.len() - 1 {
            cabins[0].combined_x3
        } else {
            cabins[pos + 1].combined_x3
        };
        let next_major = next_x3 & 0xFFF;
        assert(next_major == next_x3 % 4096) by (bit_vector)
            requires
                next_major == next_x3 & 0xFFF,
        ;
        let (dist_major_scaled, scale_lvl1) = Self::varbitscale_decode(dist_major as u32);
        let (dist_major2_scaled, scale_lvl2) = Self::varbitscale_decode(next_major);

        let dist_base1 = dist_major_scaled as i32;
        let dist_base2 = dist_major2_scaled as i32;

        let mut dist_q2 = [0u32; 3];
        assert(0xFFFFFE00u32 as i32 == -512i32) by (bit_vector);

        dist_q2[0] = (dist_major_scaled * 4) as u32;

        if dist_predict1 != 0xFFFFFE00u32 as i32 && dist_predict1 != 0x1FF {
            let scaled_predict1 = Self::shl_small(dist_predict1, scale_lvl1);
            dist_q2[1] = ((scaled_predict1 + dist_base1) * 4) as u32;
        }

        if dist_predict2 != 0xFFFFFE00u32 as i32 && dist_predict2 != 0x1FF {
            let scaled_predict2 = Self::shl_small(dist_predict2, scale_lvl2);
            dist_q2[2] = ((scaled_predict2 + dist_base2) * 4) as u32;
        }

        dist_q2
    }

    /// `v << level` for a prediction and a level of at most 4.
    fn shl_small(v: i32, level: u32) -> (r: i32)
        requires
            -512 <= v <= 511,
            level <= 4,
        ensures
            r == v * two_pow(level as nat),
            -8192 <= r <= 8176,
    {
        let r = v << level;
        proof {
            reveal_with_fuel(two_pow, 5);
            if level == 0 {
                assert(r == v) by (bit_vector)
                    requires
                        r == v << level,
                        level == 0,
                ;
                assert(two_pow(level as nat) == 1);
            } else if level == 1 {
                assert(r == v * 2) by (bit_vector)
                    requires
                        r == v << level,
                        level == 1,
                        -512 <= v <= 511,
                ;
                assert(two_pow(level as nat) == 2);
            } else if level == 2 {
                assert(r == v * 4) by (bit_vector)
                    requires
                        r == v << level,
                        level == 2,
                        -512 <= v <= 511,
                ;
                assert(two_pow(level as nat) == 4);
            } else if level == 3 {
                assert(r == v * 8) by (bit_vector)
                    requires
                        r == v << level,
                        level == 3,
                        -512 <= v <= 511,
                ;
                assert(two_pow(level as nat) == 8);
            } else {
                assert(r == v * 16) by (bit_vector)
                    requires
                        r == v << level,
                        level == 4,
                        -512 <= v <= 511,
                ;
                assert(two_pow(level as nat) == 16);
            }
        }
        r
    }

    /// The scaled distance and scale level of a major distance. Above
    /// `0x100003BF` the base plus the shifted remainder no longer fits a
    /// `u32` (from `0x10000400` on, the shift itself drops high bits).
    /// Callers pass 12-bit fields.
    fn varbitscale_decode(scaled: u32) -> (r: (u32, u32))
        requires
            scaled <= 0x100003BF,
        ensures
            r.0 == vbs_wide(scaled as int).0,
            r.1 == vbs_wide(scaled as int).1,
            scaled <= 4095 ==> r.0 <= 50160,
            r.1 <= 4,
    {
        let vbs_scaled_base: [u32; 5] = [0x400, 0x800, 0x1000, 0x2000, 0];
        let vbs_scaled_lvl: [u32; 5] = [4, 3, 2, 1, 0];
        let vbs_target_base: [u32; 5] = [0x400, 0x800, 0x1000, 0x2000, 0];

        for i in 0..5usize
            invariant
                scaled <= 0x100003BF,
                vbs_scaled_base@ == seq![0x400u32, 0x800, 0x1000, 0x2000, 0],
                vbs_scaled_lvl@ == seq![4u32, 3, 2, 1, 0],
                vbs_target_base@ == seq![0x400u32, 0x800, 0x1000, 0x2000, 0],
                forall|m: int| 0 <= m < i ==> scaled < #[trigger] vbs_scaled_base@[m],
        {
            let remain = scaled as i32 - vbs_scaled_base[i] as i32;
            if remain >= 0 {
                let lvl = vbs_scaled_lvl[i];
                let shifted = (remain as u32) << lvl;
                proof {
                    reveal_with_fuel(two_pow, 5);
                    let rm = remain as u32;
                    if i > 0 {
                        assert(scaled < vbs_scaled_base@[0]);
                    }
                    if i == 0 {
                        assert(shifted == rm * 16) by (bit_vector)
                            requires
                                shifted == rm << 4u32,
                                rm <= 0xFFFFFBF,
                        ;
                    } else {
                        assert(i == 4);
                        assert(shifted == rm) by (bit_vector)
                            requires
                                shifted == rm << 0u32,
                        ;
                    }
                }
                return (vbs_target_base[i] + shifted, lvl);
            }
        }

        (0, 0)
    }

    /// The mean angle offset of a node at `dist_q2`, in q16 degrees.
    fn calculate_offset_angle(dist_q2: u32) -> (r: i32)
        ensures
            r == rad_to_deg_q16_double(node_offset_rad_q16(dist_q2)),
            -3000000 <= r <= 3000000,
    {
        let mut offset_angle_mean_q16: i32 = 8578;

        if dist_q2 >= (50 * 4) as u32 {
            let k1: i32 = 98361;
            let signed_dist = dist_q2 as i32;
            assert((signed_dist > 0) == (dist_q2 < 0x80000000u32) && (signed_dist > 0 ==> signed_dist
                == dist_q2) && signed_dist != 0) by (bit_vector)
                requires
                    signed_dist == dist_q2 as i32,
                    dist_q2 >= 200,
            ;
            // The correction term is never negative: a distance that reads as a
            // negative signed value would give a quotient of at most zero.
            let k2 = if signed_dist > 0 {
                k1 / signed_dist
            } else {
                0
            };
            assert(0 <= k2 <= 491) by (nonlinear_arith)
                requires
                    signed_dist > 0 ==> k2 == 98361int / (signed_dist as int),
                    signed_dist > 0 ==> signed_dist >= 200,
                    signed_dist < 0 ==> k2 == 0,
                    signed_dist != 0,
            ;
            assert(0 <= k2 * k2 <= 241081) by (nonlinear_arith)
                requires
                    0 <= k2 <= 491,
            ;
            assert(0 <= k2 * k2 * k2 <= 118370771) by (nonlinear_arith)
                requires
                    0 <= k2 <= 491,
            ;
            offset_angle_mean_q16 = 9150 - (k2 * 64) - (k2 * k2 * k2) / 98304;
        }
        assert(offset_angle_mean_q16 == node_offset_rad_q16(dist_q2));

        let r = rad_to_deg_q16_double_exec(offset_angle_mean_q16);
        proof {
            Self::lemma_deg_bound(offset_angle_mean_q16 as int);
        }
        r
    }

    /// The q16 degrees of the offsets stay within two million.
    proof fn lemma_deg_bound(x: int)
        requires
            -30000 <= x <= 30000,
        ensures
            -2000000 <= rad_to_deg_q16_double(x) <= 2000000,
    {
        let num = (if x < 0 {
            -x
        } else {
            x
        }) * 180 * 2251799813685248;
        assert(0 <= num <= 30000 * 405323966463344640);
        assert(num / 7074237743944945 <= 1999999) by (nonlinear_arith)
            requires
                0 <= num <= 30000 * 405323966463344640,
        ;
    }

    /// Brings a q6 angle into one turn by adding or taking away one turn.
    fn normalize_angle(angle_q6: i32) -> (r: i32)
        ensures
            r == normalize_angle_q6(angle_q6 as int),
    {
        let mut angle = angle_q6;
        if angle < 0 {
            angle += 360 * 64;
        }
        if angle >= (360 * 64) {
            angle -= 360 * 64;
        }
        angle
    }

    /// The system clock in microseconds since 1970, kept to its low 64 bits;
    /// `None` when the clock reads earlier, for which there is no such count.
    fn get_current_timestamp_us(&self) -> Option<u64> {
        let now = system_time_now();
        match since_unix_epoch(&now) {
            Some(d) => Some(duration_as_micros(&d) as u64),
            None => None,
        }
    }
}

} // verus!
