//! Higher level command interface

use vstd::prelude::*;

use crate::rplidar::packet::{request_bytes, xor_all, OpCode, Packet};

verus! {

/// A request to the device.
pub enum Command {
    Stop,
    Reset,
    Scan,
    /// 5 byte payload, only 1 is used for working mode
    /// followed by 4 zeros
    ExpressScan(WorkingMode),
    ForceScan,
    GetInfo,
    GetHealth,
    GetSampleRate,
    GetLidarConf(LidarConf),
}

impl Command {
    /// The commands that can be encoded: stop, reset, scan and express scan.
    pub open spec fn is_supported(&self) -> bool {
        ||| self is Stop
        ||| self is Reset
        ||| self is Scan
        ||| self is ExpressScan
    }

    /// The request bytes of a supported command.
    pub open spec fn packet(&self) -> Seq<u8> {
        match self {
            Command::Stop => request_bytes(OpCode::Stop.byte(), seq![]),
            Command::Reset => request_bytes(OpCode::Reset.byte(), seq![]),
            Command::Scan => request_bytes(OpCode::Scan.byte(), seq![]),
            Command::ExpressScan(wm) => request_bytes(
                OpCode::ExpressScan.byte(),
                seq![wm.byte(), 0u8, 0u8, 0u8, 0u8],
            ),
            _ => seq![],
        }
    }

    /// Encodes the command as a request.
    pub fn to_packet(&self) -> (bytes: Vec<u8>)
        requires
            self.is_supported(),
        ensures
            bytes@ == self.packet(),
    {
        let packet = match self {
            Self::Stop => Packet::new(OpCode::Stop, &[]),
            Self::Reset => Packet::new(OpCode::Reset, &[]),
            Self::Scan => Packet::new(OpCode::Scan, &[]),
            Self::ExpressScan(wm) => {
                let payload = [wm.to_byte(), 0, 0, 0, 0];
                let p = Packet::new(OpCode::ExpressScan, &payload);
                assert(payload@ =~= seq![wm.byte(), 0u8, 0u8, 0u8, 0u8]);
                p
            },
            _ => vstd::pervasive::unreached(),
        };

        packet.to_bytes()
    }
}

/// The request bytes, written out: stop is `A5 25`, reset `A5 40`, scan
/// `A5 20`; an express scan in working mode `w` is `A5 82`, the payload length
/// 5, the mode byte `w` as it is, four zero bytes, and the exclusive or of the
/// eight bytes before it (legacy mode sends mode byte 0).
pub proof fn lemma_request_bytes(w: u8)
    ensures
        Command::Stop.packet() == seq![0xA5u8, 0x25u8],
        Command::Reset.packet() == seq![0xA5u8, 0x40u8],
        Command::Scan.packet() == seq![0xA5u8, 0x20u8],
        Command::ExpressScan(WorkingMode::Extended(w)).packet() == seq![
            0xA5u8,
            0x82u8,
            5u8,
            w,
            0u8,
            0u8,
            0u8,
            0u8,
            0xA5u8 ^ 0x82u8 ^ 5u8 ^ w,
        ],
        Command::ExpressScan(WorkingMode::Legacy).packet() == seq![
            0xA5u8,
            0x82u8,
            5u8,
            0u8,
            0u8,
            0u8,
            0u8,
            0u8,
            0x22u8,
        ],
{
    lemma_express_scan_bytes(w);
    lemma_express_scan_bytes(0);
}

/// The express scan request with mode byte `w`; with mode byte 0 its
/// checksum is 0x22.
proof fn lemma_express_scan_bytes(w: u8)
    ensures
        request_bytes(OpCode::ExpressScan.byte(), seq![w, 0u8, 0u8, 0u8, 0u8]) == seq![
            0xA5u8,
            0x82u8,
            5u8,
            w,
            0u8,
            0u8,
            0u8,
            0u8,
            0xA5u8 ^ 0x82u8 ^ 5u8 ^ w,
        ],
        0xA5u8 ^ 0x82u8 ^ 5u8 ^ 0u8 == 0x22u8,
{
    let payload = seq![w, 0u8, 0u8, 0u8, 0u8];
    let body = seq![0xA5u8, 0x82u8, 5u8] + payload;
    assert(body =~= seq![0xA5u8, 0x82u8, 5u8, w, 0u8, 0u8, 0u8, 0u8]);
    reveal_with_fuel(xor_all, 9);
    assert(body.drop_last() =~= seq![0xA5u8, 0x82u8, 5u8, w, 0u8, 0u8, 0u8]);
    assert(body.drop_last().drop_last() =~= seq![0xA5u8, 0x82u8, 5u8, w, 0u8, 0u8]);
    assert(body.drop_last().drop_last().drop_last() =~= seq![0xA5u8, 0x82u8, 5u8, w, 0u8]);
    assert(body.drop_last().drop_last().drop_last().drop_last() =~= seq![0xA5u8, 0x82u8, 5u8, w]);
    assert(seq![0xA5u8, 0x82u8, 5u8, w].drop_last() =~= seq![0xA5u8, 0x82u8, 5u8]);
    assert(seq![0xA5u8, 0x82u8, 5u8].drop_last() =~= seq![0xA5u8, 0x82u8]);
    assert(seq![0xA5u8, 0x82u8].drop_last() =~= seq![0xA5u8]);
    assert(seq![0xA5u8].drop_last() =~= Seq::<u8>::empty());
    let x = 0xA5u8 ^ 0x82u8 ^ 5u8 ^ w;
    assert(0u8 ^ 0xA5u8 ^ 0x82u8 ^ 5u8 ^ w ^ 0u8 ^ 0u8 ^ 0u8 ^ 0u8 == x && 0xA5u8 ^ 0x82u8 ^ 5u8
        ^ 0u8 == 0x22u8) by (bit_vector)
        requires
            x == 0xA5u8 ^ 0x82u8 ^ 5u8 ^ w,
    ;
    assert(xor_all(body) == x);
}

/// The working mode of an express scan.
pub enum WorkingMode {
    Legacy,
    Extended(u8),
}

impl WorkingMode {
    /// The byte that selects the mode.
    pub open spec fn byte(&self) -> u8 {
        match self {
            WorkingMode::Legacy => 0,
            WorkingMode::Extended(w) => *w,
        }
    }

    /// The byte that selects the mode.
    pub fn to_byte(&self) -> (b: u8)
        ensures
            b == self.byte(),
    {
        match self {
            Self::Legacy => 0,
            Self::Extended(w) => *w,
        }
    }
}

/// A configuration entry to query.
pub enum LidarConf {
    ScanModeCount,
}

/// The op codes of configuration queries.
#[derive(Debug, Clone, Copy, PartialEq, Eq, Structural)]
pub enum ConfOpCode {
    ScanModeCount,
}

impl ConfOpCode {
    /// The byte that encodes the query.
    pub open spec fn byte(self) -> u8 {
        match self {
            ConfOpCode::ScanModeCount => 0x70,
        }
    }

    /// The byte that encodes the query.
    pub fn to_u8(&self) -> (b: u8)
        ensures
            b == self.byte(),
    {
        match self {
            ConfOpCode::ScanModeCount => 0x70,
        }
    }
}

} // verus!
