//! Higher level command interface

use vstd::prelude::*;

use crate::packet::{request_bytes, OpCode, Packet};

verus! {

/// A request to the device.
pub enum Command {
    Stop,
    Reset,
    Scan,
    /// 5 byte payload, only 1 is used for working mode
    /// followed by 4 zeros
    ExpressScan(WorkingMode),
    ForceScan,
    GetInfo,
    GetHealth,
    GetSampleRate,
    GetLidarConf(LidarConf),
}

impl Command {
    /// The commands that can be encoded: stop, reset and scan.
    pub open spec fn is_supported(&self) -> bool {
        ||| self is Stop
        ||| self is Reset
        ||| self is Scan
    }

    /// The request bytes of a supported command.
    pub open spec fn packet(&self) -> Seq<u8> {
        match self {
            Command::Stop => request_bytes(OpCode::Stop.byte(), seq![]),
            Command::Reset => request_bytes(OpCode::Reset.byte(), seq![]),
            Command::Scan => request_bytes(OpCode::Scan.byte(), seq![]),
            _ => seq![],
        }
    }

    /// Encodes the command as a request.
    pub fn to_packet(&self) -> (bytes: Vec<u8>)
        requires
            self.is_supported(),
        ensures
            bytes@ == self.packet(),
    {
        let packet = match self {
            Self::Stop => Packet::new(OpCode::Stop, &[]),
            Self::Reset => Packet::new(OpCode::Reset, &[]),
            Self::Scan => Packet::new(OpCode::Scan, &[]),
            _ => vstd::pervasive::unreached(),
        };

        packet.to_bytes()
    }
}

/// The working mode of an express scan.
pub enum WorkingMode {
    Legacy,
    Extended(u8),
}

/// A configuration entry to query.
pub enum LidarConf {
    ScanModeCount,
}

/// The op codes of configuration queries.
#[derive(Debug, Clone, Copy, PartialEq, Eq, Structural)]
pub enum ConfOpCode {
    ScanModeCount,
}

impl ConfOpCode {
    /// The byte that encodes the query.
    pub open spec fn byte(self) -> u8 {
        match self {
            ConfOpCode::ScanModeCount => 0x70,
        }
    }

    /// The byte that encodes the query.
    pub fn to_u8(&self) -> (b: u8)
        ensures
            b == self.byte(),
    {
        match self {
            ConfOpCode::ScanModeCount => 0x70,
        }
    }
}

} // verus!
