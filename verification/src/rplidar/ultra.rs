//! Ultra Capsule Parser

use vstd::prelude::*;

use crate::rplidar::fixed_point::{
    div_trunc, rad_to_deg_q16_single, rad_to_deg_q16_single_exec, rem_trunc, two_pow,
};
use crate::rplidar::response::UltraCapsuleResponse;

verus! {

/// A full turn in q8 degrees (360 << 8).
pub const FULL_TURN_Q8: i32 = 92160;

/// A full turn in q16 degrees (360 << 16).
pub const FULL_TURN_Q16: i32 = 23592960;

/// A full turn in q6 degrees (360 << 6).
pub const FULL_TURN_Q6: i32 = 23040;

/// 7.5 degrees in q16 radians, truncated: the mean angle offset of near samples.
pub const NEAR_OFFSET_RAD_Q16: i32 = 8578;

/// 8 degrees in q16 radians, truncated: the base of the offset of far samples.
pub const FAR_OFFSET_RAD_Q16: i32 = 9150;

/// Decodes the capsules of an ultra scan; each capsule is turned into scans
/// once the next one has arrived.
pub struct UltraCapsuleParser {
    previous: Option<UltraCapsuleResponse>,
}

/// The 96 scans (three per cabin) decoded from one capsule.
pub struct ParsedUltraCapsule {
    pub scans: Vec<UltraCapsuleScan>,
}

/// One decoded sample: angle in q14 quarter turns, distance in q2 millimetres.
#[derive(Clone, Copy, PartialEq, Eq, Debug, Structural)]
pub struct UltraCapsuleScan {
    pub sync: bool,
    pub quality: u8,
    pub angle_z_q14: i32,
    pub dist_mm_q2: i32,
}

/// The start angle of a capsule in q8 degrees, its sync bit masked off.
pub open spec fn start_angle_q8(c: UltraCapsuleResponse) -> int {
    ((c.start_angle_q6 & 0x7FFF) as int) * 4
}

/// The angle swept from `prev`'s start to `cur`'s start, in q8 degrees; a
/// start angle that went down counts as having wrapped past a full turn.
pub open spec fn diff_angle_q8(prev: UltraCapsuleResponse, cur: UltraCapsuleResponse) -> int {
    let d = start_angle_q8(cur) - start_angle_q8(prev);
    if start_angle_q8(prev) > start_angle_q8(cur) {
        d + FULL_TURN_Q8
    } else {
        d
    }
}

/// The angle between two consecutive samples, in q16 degrees: the swept angle
/// spread over the 96 samples (8/3 of it in q8 is 1/96 of it in q16).
pub open spec fn angle_step_q16(prev: UltraCapsuleResponse, cur: UltraCapsuleResponse) -> int {
    div_trunc(diff_angle_q8(prev, cur) * 8, 3)
}

/// The uncorrected angle of sample `j`, in q16 degrees.
pub open spec fn raw_angle_q16(prev: UltraCapsuleResponse, cur: UltraCapsuleResponse, j: int) -> int {
    start_angle_q8(prev) * 256 + j * angle_step_q16(prev, cur)
}

/// A 10-bit two's complement field read as a signed value.
pub open spec fn sign_extend_10(v: int) -> int {
    if v >= 512 {
        v - 1024
    } else {
        v
    }
}

/// The major distance of a cabin: its low 12 bits.
pub open spec fn major_of(cabin: u32) -> int {
    (cabin % 4096) as int
}

/// The first predicted distance of a cabin: bits 12..22, signed.
pub open spec fn predict1_of(cabin: u32) -> int {
    sign_extend_10(((cabin / 4096) % 1024) as int)
}

/// The second predicted distance of a cabin: bits 22..32, signed.
pub open spec fn predict2_of(cabin: u32) -> int {
    sign_extend_10((cabin / 4194304) as int)
}

/// The variable bit scale decoding of a major distance: the base distance
/// and the scale level applied to the predictions.
pub open spec fn vbs_decode(scaled: int) -> (int, int) {
    if scaled >= 0x400 {
        (0x400 + (scaled - 0x400) * 16, 4)
    } else if scaled >= 0x200 {
        (0x200 + (scaled - 0x200) * 8, 3)
    } else if scaled >= 0x100 {
        (0x100 + (scaled - 0x100) * 4, 2)
    } else if scaled >= 0x80 {
        (0x80 + (scaled - 0x80) * 2, 1)
    } else if scaled >= 0 {
        (scaled, 0)
    } else {
        (0, 0)
    }
}

/// A predicted distance: 0 when the prediction is one of the two invalid
/// markers (-512, 511), else the prediction scaled by the level, added to the
/// base, in q2.
pub open spec fn predicted_q2(predict: int, base: int, level: int) -> int {
    if predict == -512 || predict == 511 {
        0
    } else {
        (predict * two_pow(level as nat) + base) * 4
    }
}

/// Distance `k` (0, 1 or 2) of a cabin, in q2 millimetres; `next_major` is the
/// major distance of the cabin that follows it.
pub open spec fn cabin_dist_q2(cabin: u32, next_major: int, k: int) -> int {
    let major = major_of(cabin);
    let (base1, lvl1) = vbs_decode(major);
    let (base2, lvl2) = vbs_decode(next_major);
    let base1 = if major == 0 && next_major != 0 {
        base2
    } else {
        base1
    };
    if k == 0 {
        major * 4
    } else if k == 1 {
        predicted_q2(predict1_of(cabin), base1, lvl1)
    } else {
        predicted_q2(predict2_of(cabin), base2, lvl2)
    }
}

/// The major distance of the cabin after cabin `pos` of `prev`: for the last
/// cabin, the first cabin of `cur`.
pub open spec fn next_major(prev: UltraCapsuleResponse, cur: UltraCapsuleResponse, pos: int) -> int {
    if pos == 31 {
        major_of(cur.ultra_cabins@[0])
    } else {
        major_of(prev.ultra_cabins@[pos + 1])
    }
}

/// The mean angle offset of a sample at `dist_q2`, in q16 radians.
pub open spec fn mean_offset_rad_q16(dist_q2: int) -> int {
    if dist_q2 >= 200 {
        let k2 = 98361int / dist_q2;
        FAR_OFFSET_RAD_Q16 - k2 * 64 - (k2 * k2 * k2) / 98304
    } else {
        NEAR_OFFSET_RAD_Q16 as int
    }
}

/// An angle in q6 degrees brought into one turn, with at most one turn added
/// or taken away.
pub open spec fn normalize_angle_q6(a: int) -> int {
    let a1 = if a < 0 {
        a + FULL_TURN_Q6
    } else {
        a
    };
    if a1 >= FULL_TURN_Q6 {
        a1 - FULL_TURN_Q6
    } else {
        a1
    }
}

/// An angle less than one turn away from the first turn is brought into it,
/// and keeps its place within the turn.
pub proof fn lemma_normalize_in_turn(a: int)
    requires
        -FULL_TURN_Q6 <= a < 2 * FULL_TURN_Q6,
    ensures
        0 <= normalize_angle_q6(a) < FULL_TURN_Q6,
        normalize_angle_q6(a) % (FULL_TURN_Q6 as int) == a % (FULL_TURN_Q6 as int),
{
}

/// The sample at raw angle `raw` (q16 degrees) and distance `dist_q2`, the
/// samples being `inc` apart.
pub open spec fn scan_from(raw: int, inc: int, dist_q2: int) -> UltraCapsuleScan {
    let angle_q6 = (raw - rad_to_deg_q16_single(mean_offset_rad_q16(dist_q2))) / 1024;
    UltraCapsuleScan {
        sync: rem_trunc(raw + inc, FULL_TURN_Q16 as int) < inc,
        quality: if dist_q2 != 0 {
            0x2F
        } else {
            0
        },
        angle_z_q14: div_trunc(normalize_angle_q6(angle_q6) * 256, 90) as i32,
        dist_mm_q2: dist_q2 as i32,
    }
}

/// Sample `j` (0 <= j < 96) of capsule `prev`, `cur` being the capsule after it:
/// distance `j % 3` of cabin `j / 3`.
pub open spec fn scan_at(prev: UltraCapsuleResponse, cur: UltraCapsuleResponse, j: int) -> UltraCapsuleScan {
    let pos = j / 3;
    scan_from(
        raw_angle_q16(prev, cur, j),
        angle_step_q16(prev, cur),
        cabin_dist_q2(prev.ultra_cabins@[pos], next_major(prev, cur, pos), j % 3),
    )
}

/// The 96 samples of capsule `prev`, `cur` being the capsule after it.
pub open spec fn capsule_scans(prev: UltraCapsuleResponse, cur: UltraCapsuleResponse) -> Seq<
    UltraCapsuleScan,
> {
    Seq::new(96, |j: int| scan_at(prev, cur, j))
}

/// The variable bit scale decoding of a 12-bit major distance `x`: the
/// level is 4 from 0x400 on, 3 from 0x200, 2 from 0x100, 1 from 0x80 and 0
/// below; at 0 and at each of those thresholds the base is `x` itself, and
/// each step up in `x` within one level adds `2^level` to the base.
pub proof fn lemma_vbs_decode(x: int)
    requires
        0 <= x < 4096,
    ensures
        vbs_decode(x).1 == if x >= 0x400 {
            4int
        } else if x >= 0x200 {
            3int
        } else if x >= 0x100 {
            2int
        } else if x >= 0x80 {
            1int
        } else {
            0int
        },
        (x == 0 || x == 0x80 || x == 0x100 || x == 0x200 || x == 0x400) ==> vbs_decode(x).0 == x,
        x + 1 < 4096 && vbs_decode(x + 1).1 == vbs_decode(x).1 ==> vbs_decode(x + 1).0
            == vbs_decode(x).0 + two_pow(vbs_decode(x).1 as nat),
{
    reveal_with_fuel(two_pow, 5);
}

/// The three distances of a cabin, in q2 millimetres, read from its bits:
/// `major` is its low 12 bits, `p1` and `p2` the signed 10-bit fields at bits
/// 12 and 22, and `next` the major distance of the cabin after it. Distance 0
/// is `4 * major`. Distance 1 is 0 when `p1` is one of the markers -512 and
/// 511, and otherwise `p1` scaled by `2^level` of `major`, plus the base of
/// `major` (of `next` when `major` is 0), times 4, whatever `p2` holds.
/// Distance 2 is the same with `p2` and the level and base of `next`.
pub proof fn lemma_cabin_distances(cabin: u32, next: int)
    requires
        0 <= next < 4096,
    ensures
        ({
            let major = (cabin % 4096) as int;
            let f1 = ((cabin / 4096) % 1024) as int;
            let p1 = if f1 >= 512 {
                f1 - 1024
            } else {
                f1
            };
            let f2 = (cabin / 4194304) as int;
            let p2 = if f2 >= 512 {
                f2 - 1024
            } else {
                f2
            };
            &&& cabin_dist_q2(cabin, next, 0) == 4 * major
            &&& cabin_dist_q2(cabin, next, 1) == if p1 == -512 || p1 == 511 {
                0
            } else {
                (p1 * two_pow(vbs_decode(major).1 as nat) + vbs_decode(
                    if major == 0 {
                        next
                    } else {
                        major
                    },
                ).0) * 4
            }
            &&& cabin_dist_q2(cabin, next, 2) == if p2 == -512 || p2 == 511 {
                0
            } else {
                (p2 * two_pow(vbs_decode(next).1 as nat) + vbs_decode(next).0) * 4
            }
        }),
{
}

/// The samples of a capsule depend on the start angles and cabins of the two
/// capsules alone: the flag `s` of either plays no part.
pub proof fn lemma_capsule_scans_ignore_flag(
    prev: UltraCapsuleResponse,
    cur: UltraCapsuleResponse,
    prev2: UltraCapsuleResponse,
    cur2: UltraCapsuleResponse,
)
    requires
        prev.start_angle_q6 == prev2.start_angle_q6,
        prev.ultra_cabins == prev2.ultra_cabins,
        cur.start_angle_q6 == cur2.start_angle_q6,
        cur.ultra_cabins == cur2.ultra_cabins,
    ensures
        capsule_scans(prev, cur) == capsule_scans(prev2, cur2),
{
    assert(capsule_scans(prev, cur) =~= capsule_scans(prev2, cur2));
}

/// Sample `j` of a capsule, read from the two capsules' fields. With `a` and
/// `b` the start angles of `prev` and `cur` in q8 degrees (their low 15 bits
/// times 4), the swept angle is `b - a`, plus a full turn when `b < a`, and
/// the step between samples is 8/3 of it in q16 degrees, truncated. The
/// sample starts a new revolution exactly when the raw angle of the sample
/// after it, `a * 256 + (j + 1) * step`, taken within one turn, is below one
/// step, that is when 0 degrees is crossed before the next sample. Its
/// distance `d` is distance `j % 3` of cabin `j / 3`, the next cabin being
/// the first of `cur` after the last of `prev`; its quality is 0x2F for a
/// nonzero distance and 0 otherwise. Its angle is the raw angle `a * 256 +
/// j * step` less the mean offset of the distance (8578 q16 radians below
/// 200, else `9150 - 64 k - k^3 / 98304` with `k = 98361 / d`) converted to
/// q16 degrees, in q6 degrees rounded down, with one turn added when
/// negative or taken away when a turn or more, then scaled from 90 degrees
/// to 16384 (truncated).
pub proof fn lemma_capsule_sample(prev: UltraCapsuleResponse, cur: UltraCapsuleResponse, j: int)
    requires
        0 <= j < 96,
    ensures
        ({
            let a = ((prev.start_angle_q6 % 32768) as int) * 4;
            let b = ((cur.start_angle_q6 % 32768) as int) * 4;
            let swept = if b < a {
                b - a + 92160
            } else {
                b - a
            };
            let step = div_trunc(swept * 8, 3);
            let pos = j / 3;
            let next = if pos == 31 {
                cur.ultra_cabins@[0] % 4096
            } else {
                prev.ultra_cabins@[pos + 1] % 4096
            };
            let d = cabin_dist_q2(prev.ultra_cabins@[pos], next as int, j % 3);
            let sample = capsule_scans(prev, cur)[j];
            let offset_rad = if d >= 200 {
                let k = 98361int / d;
                9150 - 64 * k - (k * k * k) / 98304
            } else {
                8578int
            };
            let q6 = (a * 256 + j * step - rad_to_deg_q16_single(offset_rad)) / 1024;
            let in_turn = if q6 < 0 {
                q6 + 23040
            } else if q6 >= 23040 {
                q6 - 23040
            } else {
                q6
            };
            &&& sample.sync == (rem_trunc(a * 256 + (j + 1) * step, 23592960) < step)
            &&& sample.angle_z_q14 == div_trunc(in_turn * 256, 90) as i32
            &&& sample.dist_mm_q2 == d as i32
            &&& sample.quality == if d != 0 {
                0x2Fu8
            } else {
                0u8
            }
        }),
{
    let sa = prev.start_angle_q6;
    let sb = cur.start_angle_q6;
    assert(sa & 0x7FFF == sa % 32768 && sb & 0x7FFF == sb % 32768) by (bit_vector);
    let step = angle_step_q16(prev, cur);
    assert(j * step + step == (j + 1) * step) by (nonlinear_arith);
}

/// Bounds on the sample distances, which keep the angle arithmetic in range.
pub open spec fn dist_in_range(d: int) -> bool {
    -40000 <= d <= 240000
}

impl Default for UltraCapsuleParser {
    /// A parser that has seen no capsule.
    fn default() -> (p: UltraCapsuleParser)
        ensures
            p.previous() is None,
    {
        UltraCapsuleParser { previous: None }
    }
}

impl UltraCapsuleParser {
    /// The capsule kept from the last call, waiting for its successor.
    pub closed spec fn previous(&self) -> Option<UltraCapsuleResponse> {
        self.previous
    }

    /// Takes the next capsule. The samples of the capsule before it come out,
    /// and the new one is kept until its successor arrives.
    pub fn on_scan_node_capsule_data(&mut self, capsule: UltraCapsuleResponse) -> (res: Option<
        ParsedUltraCapsule,
    >)
        ensures
            final(self).previous() == Some(capsule),
            res is Some <==> old(self).previous() is Some,
            res matches Some(parsed) ==> parsed.scans@ == capsule_scans(
                old(self).previous().unwrap(),
                capsule,
            ),
    {
        let mut res = None;

        if let Some(prev) = &self.previous {
            let curr_start_angle = ((capsule.start_angle_q6 & 0x7FFF) as i32) * 4;
            let prev_start_angle = ((prev.start_angle_q6 & 0x7FFF) as i32) * 4;

            let mut diff_angle_q8 = curr_start_angle - prev_start_angle;
            if prev_start_angle > curr_start_angle {
                diff_angle_q8 += FULL_TURN_Q8;
            }

            let angle_inc_q16 = (diff_angle_q8 * 8) / 3;
            let mut curr_angle_raw_q16 = prev_start_angle * 256;

            let mut scans: Vec<UltraCapsuleScan> = Vec::with_capacity(96);
            proof {
                Self::lemma_start_angle_bound(*prev);
                Self::lemma_start_angle_bound(capsule);
            }
            let ghost inc = angle_step_q16(*prev, capsule);
            assert(angle_inc_q16 == inc);
            assert(-350000 <= inc <= 350000);

            for pos in 0..32usize
                invariant
                    scans@.len() == 3 * pos,
                    forall|j: int| 0 <= j < 3 * pos ==> #[trigger] scans@[j] == scan_at(*prev, capsule, j),
                    curr_angle_raw_q16 == raw_angle_q16(*prev, capsule, 3 * pos),
                    angle_inc_q16 == inc,
                    inc == angle_step_q16(*prev, capsule),
                    -350000 <= inc <= 350000,
                    0 <= start_angle_q8(*prev) <= 131068,
            {
                let next = if pos == 31 {
                    capsule.ultra_cabins[0]
                } else {
                    prev.ultra_cabins[pos + 1]
                };
                let distances = Self::cabin_distances(prev.ultra_cabins[pos], next);
                assert(next_major(*prev, capsule, pos as int) == major_of(next));

                for k in 0..3usize
                    invariant
                        0 <= pos < 32,
                        scans@.len() == 3 * pos + k,
                        forall|j: int|
                            0 <= j < 3 * pos + k ==> #[trigger] scans@[j] == scan_at(
                                *prev,
                                capsule,
                                j,
                            ),
                        curr_angle_raw_q16 == raw_angle_q16(*prev, capsule, 3 * pos + k),
                        angle_inc_q16 == inc,
                        inc == angle_step_q16(*prev, capsule),
                        -350000 <= inc <= 350000,
                        0 <= start_angle_q8(*prev) <= 131068,
                        forall|m: int|
                            0 <= m < 3 ==> distances@[m] == cabin_dist_q2(
                                prev.ultra_cabins@[pos as int],
                                next_major(*prev, capsule, pos as int),
                                m,
                            ) && dist_in_range(distances@[m] as int),
                {
                    let ghost j = 3 * pos + k;
                    assert(j / 3 == pos && j % 3 == k);
                    assert(-34000000 <= j * inc <= 34000000) by (nonlinear_arith)
                        requires
                            0 <= j < 96,
                            -350000 <= inc <= 350000,
                    ;
                    let dist_q2 = distances[k];
                    let scan = Self::make_scan(curr_angle_raw_q16, angle_inc_q16, dist_q2);
                    scans.push(scan);
                    assert((j + 1) * inc == j * inc + inc) by (nonlinear_arith);
                    curr_angle_raw_q16 += angle_inc_q16;
                }
            }

            assert(scans@ =~= capsule_scans(*prev, capsule));
            res = Some(ParsedUltraCapsule { scans });
        }
        self.previous = Some(capsule);
        res
    }

    /// The three distances of `cabin`, `next` being the cabin after it.
    fn cabin_distances(cabin: u32, next: u32) -> (d: [i32; 3])
        ensures
            forall|m: int|
                0 <= m < 3 ==> d@[m] == cabin_dist_q2(cabin, major_of(next), m) && dist_in_range(
                    d@[m] as int,
                ),
    {
        let combined_x3 = cabin;

        let dist_major = (combined_x3 & 0xFFF) as i32;
        let dist_predict1 = ((combined_x3 << 10) as i32) >> 22;
        let dist_predict2 = (combined_x3 as i32) >> 22;
        let dist_major2 = (next & 0xFFF) as i32;
        proof {
            assert(dist_major == combined_x3 % 4096) by (bit_vector)
                requires
                    dist_major == (combined_x3 & 0xFFF) as i32,
            ;
            assert(dist_major2 == next % 4096) by (bit_vector)
                requires
                    dist_major2 == (next & 0xFFF) as i32,
            ;
            let f1 = (combined_x3 / 4096) % 1024;
            assert(dist_predict1 == if f1 >= 512 {
                f1 - 1024
            } else {
                f1 as int
            }) by (bit_vector)
                requires
                    dist_predict1 == ((combined_x3 << 10) as i32) >> 22,
                    f1 == (combined_x3 / 4096) % 1024,
            ;
            let f2 = combined_x3 / 4194304;
            assert(dist_predict2 == if f2 >= 512 {
                f2 - 1024
            } else {
                f2 as int
            }) by (bit_vector)
                requires
                    dist_predict2 == (combined_x3 as i32) >> 22,
                    f2 == combined_x3 / 4194304,
            ;
        }

        let (dist_base1, scale_lvl1) = Self::varbitscale_decode(dist_major);
        let (dist_base2, scale_lvl2) = Self::varbitscale_decode(dist_major2);

        let mut dist_base1 = dist_base1;
        if dist_major == 0 && dist_major2 != 0 {
            dist_base1 = dist_base2;
        }

        let dist_q2_0 = dist_major * 4;
        assert(0xFFFFFE00u32 as i32 == -512i32) by (bit_vector);

        let dist_q2_1 = if dist_predict1 == 0xFFFFFE00u32 as i32 || dist_predict1 == 0x1FF {
            0
        } else {
            let dist_predict_scaled = Self::shl_small(dist_predict1, scale_lvl1);
            (dist_predict_scaled + dist_base1) * 4
        };

        let dist_q2_2 = if dist_predict2 == 0xFFFFFE00u32 as i32 || dist_predict2 == 0x1FF {
            0
        } else {
            let dist_predict_scaled = Self::shl_small(dist_predict2, scale_lvl2);
            (dist_predict_scaled + dist_base2) * 4
        };

        proof {
            let (b1, l1) = vbs_decode(dist_major as int);
            let (b2, l2) = vbs_decode(dist_major2 as int);
            assert(dist_q2_0 == cabin_dist_q2(cabin, major_of(next), 0));
            assert(dist_q2_1 == cabin_dist_q2(cabin, major_of(next), 1));
            assert(dist_q2_2 == cabin_dist_q2(cabin, major_of(next), 2));
        }
        let d = [dist_q2_0, dist_q2_1, dist_q2_2];
        assert(d@ == seq![dist_q2_0, dist_q2_1, dist_q2_2]);
        d
    }

    /// `v << level` for a small `v` and a level of at most 4.
    fn shl_small(v: i32, level: u32) -> (r: i32)
        requires
            -0x4000000 <= v <= 0x7FFFFBF,
            level <= 4,
        ensures
            r == v * two_pow(level as nat),
            v >= 0 ==> 0 <= r <= 16 * v,
            v < 0 ==> 16 * v <= r < 0,
    {
        let r = v << level;
        proof {
            reveal_with_fuel(two_pow, 5);
            if level == 0 {
                assert(r == v) by (bit_vector)
                    requires
                        r == v << level,
                        level == 0,
                ;
                assert(two_pow(level as nat) == 1);
            } else if level == 1 {
                assert(r == v * 2) by (bit_vector)
                    requires
                        r == v << level,
                        level == 1,
                        -0x4000000 <= v <= 0x7FFFFBF,
                ;
                assert(two_pow(level as nat) == 2);
            } else if level == 2 {
                assert(r == v * 4) by (bit_vector)
                    requires
                        r == v << level,
                        level == 2,
                        -0x4000000 <= v <= 0x7FFFFBF,
                ;
                assert(two_pow(level as nat) == 4);
            } else if level == 3 {
                assert(r == v * 8) by (bit_vector)
                    requires
                        r == v << level,
                        level == 3,
                        -0x4000000 <= v <= 0x7FFFFBF,
                ;
                assert(two_pow(level as nat) == 8);
            } else {
                assert(r == v * 16) by (bit_vector)
                    requires
                        r == v << level,
                        level == 4,
                        -0x4000000 <= v <= 0x7FFFFBF,
                ;
                assert(two_pow(level as nat) == 16);
            }
        }
        r
    }

    /// One sample at raw angle `curr_angle_raw_q16` and distance `dist_q2`.
    fn make_scan(curr_angle_raw_q16: i32, angle_inc_q16: i32, dist_q2: i32) -> (s: UltraCapsuleScan)
        requires
            -68000000 <= curr_angle_raw_q16 <= 68000000,
            -350000 <= angle_inc_q16 <= 350000,
            dist_in_range(dist_q2 as int),
        ensures
            s == scan_from(curr_angle_raw_q16 as int, angle_inc_q16 as int, dist_q2 as int),
    {
        let sync_bit = ((curr_angle_raw_q16 + angle_inc_q16) % FULL_TURN_Q16) < angle_inc_q16;

        let mut offset_angle_mean_q16 = NEAR_OFFSET_RAD_Q16;

        if dist_q2 >= (50 * 4) {
            let k1: i32 = 98361;
            let k2 = k1 / dist_q2;
            assert(0 <= k2 <= 491) by (nonlinear_arith)
                requires
                    k2 == 98361int / (dist_q2 as int),
                    dist_q2 >= 200,
            ;
            assert(0 <= k2 * k2 <= 241081) by (nonlinear_arith)
                requires
                    0 <= k2 <= 491,
            ;
            assert(0 <= k2 * k2 * k2 <= 118370771) by (nonlinear_arith)
                requires
                    0 <= k2 <= 491,
            ;
            offset_angle_mean_q16 = FAR_OFFSET_RAD_Q16 - k2 * 64 - (k2 * k2 * k2) / 98304;
        }
        assert(offset_angle_mean_q16 == mean_offset_rad_q16(dist_q2 as int));
        let offset_deg_q16 = rad_to_deg_q16_single_exec(offset_angle_mean_q16);
        proof {
            Self::lemma_deg_bound(offset_angle_mean_q16 as int);
        }

        let shifted = curr_angle_raw_q16 - offset_deg_q16;
        let angle_q6 = shifted >> 10;
        assert(angle_q6 == shifted / 1024) by (bit_vector)
            requires
                angle_q6 == shifted >> 10,
        ;

        let angle_q6 = Self::normalize_angle(angle_q6);
        let angle_z_q14 = (angle_q6 * 256) / 90;

        UltraCapsuleScan {
            sync: sync_bit,
            quality: if dist_q2 != 0 {
                0x2F
            } else {
                0
            },
            angle_z_q14,
            dist_mm_q2: dist_q2,
        }
    }

    proof fn lemma_start_angle_bound(c: UltraCapsuleResponse)
        ensures
            0 <= start_angle_q8(c) <= 131068,
    {
        let a = c.start_angle_q6;
        assert(a & 0x7FFF <= 0x7FFF) by (bit_vector);
    }

    /// The q16 degrees of an offset within 65536 stay within four million.
    proof fn lemma_deg_bound(x: int)
        requires
            -65536 <= x <= 65536,
        ensures
            -4000000 <= rad_to_deg_q16_single(x) <= 4000000,
    {
        let num = (if x < 0 { -x } else { x }) * 180 * 4194304;
        assert(0 <= num <= 65536 * 754974720);
        assert(num / 13176795 <= 3760000) by (nonlinear_arith)
            requires
                0 <= num <= 65536 * 754974720,
        ;
    }

    /// Decodes a variable bit scaled major distance into its base distance
    /// and scale level. Below `i32::MIN + 0x400` the first subtraction
    /// overflows; above `0x80003BF` the base plus the shifted remainder no
    /// longer fits an `i32` (from `0x8000400` on, the shift itself drops high
    /// bits). Callers pass 12-bit fields.
    fn varbitscale_decode(scaled: i32) -> (r: (i32, u32))
        requires
            i32::MIN + 0x400 <= scaled <= 0x80003BF,
        ensures
            r.0 == vbs_decode(scaled as int).0,
            r.1 == vbs_decode(scaled as int).1,
            0 <= scaled <= 4095 ==> 0 <= r.0 <= 50160,
            r.1 <= 4,
    {
        let vbs_scaled_base: [i32; 5] = [0x400, 0x200, 0x100, 0x80, 0];
        let vbs_scaled_lvl: [u32; 5] = [4, 3, 2, 1, 0];
        let vbs_target_base: [i32; 5] = [0x400, 0x200, 0x100, 0x80, 0];

        for i in 0..5usize
            invariant
                i32::MIN + 0x400 <= scaled <= 0x80003BF,
                vbs_scaled_base@ == seq![0x400i32, 0x200, 0x100, 0x80, 0],
                vbs_scaled_lvl@ == seq![4u32, 3, 2, 1, 0],
                vbs_target_base@ == seq![0x400i32, 0x200, 0x100, 0x80, 0],
                forall|m: int| 0 <= m < i ==> scaled < #[trigger] vbs_scaled_base@[m],
        {
            let remain = scaled - vbs_scaled_base[i];
            if remain >= 0 {
                let scaled_remain = Self::shl_small(remain, vbs_scaled_lvl[i]);
                proof {
                    reveal_with_fuel(two_pow, 5);
                    if i > 0 {
                        assert(scaled < vbs_scaled_base@[0]);
                    }
                    if i > 1 {
                        assert(scaled < vbs_scaled_base@[1]);
                    }
                    if i > 2 {
                        assert(scaled < vbs_scaled_base@[2]);
                    }
                    if i > 3 {
                        assert(scaled < vbs_scaled_base@[3]);
                    }
                    let lvl = vbs_scaled_lvl@[i as int];
                    if i == 0 {
                        assert(lvl == 4 && two_pow(lvl as nat) == 16);
                        assert(scaled_remain == remain * 16);
                        assert(vbs_decode(scaled as int) == (0x400 + (scaled - 0x400) * 16, 4int));
                    } else if i == 1 {
                        assert(lvl == 3 && two_pow(lvl as nat) == 8);
                        assert(scaled_remain == remain * 8);
                        assert(vbs_decode(scaled as int) == (0x200 + (scaled - 0x200) * 8, 3int));
                    } else if i == 2 {
                        assert(lvl == 2 && two_pow(lvl as nat) == 4);
                        assert(scaled_remain == remain * 4);
                        assert(vbs_decode(scaled as int) == (0x100 + (scaled - 0x100) * 4, 2int));
                    } else if i == 3 {
                        assert(lvl == 1 && two_pow(lvl as nat) == 2);
                        assert(scaled_remain == remain * 2);
                        assert(vbs_decode(scaled as int) == (0x80 + (scaled - 0x80) * 2, 1int));
                    } else {
                        assert(lvl == 0 && two_pow(lvl as nat) == 1);
                        assert(scaled_remain == remain);
                        assert(vbs_decode(scaled as int) == (scaled as int, 0int));
                    }
                }
                return (vbs_target_base[i] + scaled_remain, vbs_scaled_lvl[i]);
            }
        }

        (0, 0)
    }

    /// Brings a q6 angle into one turn by adding or taking away one turn.
    fn normalize_angle(angle_q6: i32) -> (r: i32)
        ensures
            r == normalize_angle_q6(angle_q6 as int),
    {
        let mut angle = angle_q6;
        if angle < 0 {
            angle += FULL_TURN_Q6;
        }
        if angle >= FULL_TURN_Q6 {
            angle -= FULL_TURN_Q6;
        }
        angle
    }
}

} // verus!
