//! Packet Format

use vstd::prelude::*;

verus! {

/// The byte that starts every request.
pub const START_FLAG: u8 = 0xA5;

/// The longest request: flag, op code, length, 255 payload bytes, checksum.
pub const MAX_REQ_PACKET_SIZE: usize = 1 + 1 + 1 + 255 + 1;

/// A request: an op code and up to 255 payload bytes.
pub struct Packet {
    pub op: OpCode,
    pub len: u8,
    pub payload: [u8; 255],
}

/// The request op codes.
#[derive(Debug, Clone, Copy, PartialEq, Eq, Structural)]
pub enum OpCode {
    Stop,
    Reset,
    Scan,
    ExpressScan,
    ForceScan,
    GetInfo,
    GetHealth,
    GetSampleRate,
    GetLidarConf,
}

impl OpCode {
    /// The byte that encodes the op code.
    pub open spec fn byte(self) -> u8 {
        match self {
            OpCode::Stop => 0x25,
            OpCode::Reset => 0x40,
            OpCode::Scan => 0x20,
            OpCode::ExpressScan => 0x82,
            OpCode::ForceScan => 0x21,
            OpCode::GetInfo => 0x50,
            OpCode::GetHealth => 0x52,
            OpCode::GetSampleRate => 0x59,
            OpCode::GetLidarConf => 0x84,
        }
    }

    /// The byte that encodes the op code.
    pub fn to_u8(&self) -> (b: u8)
        ensures
            b == self.byte(),
    {
        match self {
            OpCode::Stop => 0x25,
            OpCode::Reset => 0x40,
            OpCode::Scan => 0x20,
            OpCode::ExpressScan => 0x82,
            OpCode::ForceScan => 0x21,
            OpCode::GetInfo => 0x50,
            OpCode::GetHealth => 0x52,
            OpCode::GetSampleRate => 0x59,
            OpCode::GetLidarConf => 0x84,
        }
    }
}

/// The exclusive or of all bytes of `s`.
pub open spec fn xor_all(s: Seq<u8>) -> u8
    decreases s.len(),
{
    if s.len() == 0 {
        0
    } else {
        xor_all(s.drop_last()) ^ s.last()
    }
}

/// The bytes of a request: the start flag and the op code; when there is a
/// payload, then its length, the payload, and a checksum that is the
/// exclusive or of every byte before it.
pub open spec fn request_bytes(op: u8, payload: Seq<u8>) -> Seq<u8> {
    if payload.len() == 0 {
        seq![START_FLAG, op]
    } else {
        let body = seq![START_FLAG, op, payload.len() as u8] + payload;
        body.push(xor_all(body))
    }
}

/// A request with a payload has an exclusive or of all its bytes of zero.
pub proof fn lemma_request_checksum(op: u8, payload: Seq<u8>)
    requires
        payload.len() > 0,
    ensures
        xor_all(request_bytes(op, payload)) == 0,
{
    let body = seq![START_FLAG, op, payload.len() as u8] + payload;
    assert(body.push(xor_all(body)).drop_last() =~= body);
    let x = xor_all(body);
    assert(x ^ x == 0) by (bit_vector);
}

impl Packet {
    /// The payload bytes in use.
    pub open spec fn body(self) -> Seq<u8> {
        self.payload@.take(self.len as int)
    }

    /// A packet holding `payload`; the unused payload bytes are zero.
    pub fn new(op: OpCode, payload: &[u8]) -> (p: Packet)
        requires
            payload@.len() <= 255,
        ensures
            p.op == op,
            p.len == payload@.len(),
            p.body() == payload@,
            forall|i: int| payload@.len() <= i < 255 ==> p.payload@[i] == 0,
    {
        let mut cpy = [0u8; 255];
        for i in 0..payload.len()
            invariant
                payload@.len() <= 255,
                forall|k: int| 0 <= k < i ==> cpy@[k] == payload@[k],
                forall|k: int| i <= k < 255 ==> cpy@[k] == 0,
        {
            cpy[i] = payload[i];
        }
        let p = Packet { op, len: payload.len() as u8, payload: cpy };
        assert(p.body() =~= payload@);
        p
    }

    /// The bytes of the request (see [`request_bytes`]).
    pub fn to_bytes(self) -> (bytes: Vec<u8>)
        ensures
            bytes@ == request_bytes(self.op.byte(), self.body()),
    {
        let len = self.len as usize;
        let op = self.op.to_u8();
        let mut bytes: Vec<u8> = Vec::with_capacity(MAX_REQ_PACKET_SIZE);
        bytes.push(START_FLAG);
        bytes.push(op);

        if self.len != 0 {
            bytes.push(self.len);
            let ghost head = bytes@;

            let mut checksum: u8 = 0;

            checksum ^= START_FLAG;
            checksum ^= op;
            checksum ^= self.len;
            proof {
                reveal_with_fuel(xor_all, 4);
                assert(head.drop_last().drop_last().drop_last() =~= Seq::<u8>::empty());
                assert(head.drop_last().drop_last() =~= seq![START_FLAG]);
                assert(head.drop_last() =~= seq![START_FLAG, op]);
                assert(0u8 ^ START_FLAG == START_FLAG) by (bit_vector);
            }
            for i in 0..len
                invariant
                    len == self.len,
                    len <= 255,
                    bytes@ == head + self.payload@.take(i as int),
                    checksum == xor_all(bytes@),
            {
                let b = self.payload[i];
                let ghost before = bytes@;
                bytes.push(b);
                checksum ^= b;
                assert(bytes@.drop_last() =~= before);
                assert(head + self.payload@.take(i + 1) =~= before.push(b));
            }
            let ghost body = bytes@;
            assert(head =~= seq![START_FLAG, op, self.len]);
            assert(self.body().len() == len);
            assert(body =~= seq![START_FLAG, op, self.body().len() as u8] + self.body());
            bytes.push(checksum);
            assert(bytes@ =~= request_bytes(op, self.body()));
        } else {
            assert(bytes@ =~= request_bytes(op, self.body()));
        }
        bytes
    }
}

} // verus!
