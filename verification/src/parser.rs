//! Parser State Machine

use vstd::prelude::*;

verus! {

/// Reads responses byte by byte: `A5 5A`, a big-endian length whose two low
/// bits carry the send mode, a data type, then the payload.
#[derive(Clone, Debug)]
pub struct ResponseParser {
    state: ParserState,
    curr: FlatResponse,
}

/// A response: its length, send mode, data type and payload.
#[derive(Clone, Debug)]
pub struct FlatResponse {
    response_len: u32,
    send_mode: u8,
    dtype: u8,
    payload: Vec<u8>,
}

/// How far the parser is into a response.
#[derive(Clone, Copy, Debug)]
pub enum ParserState {
    WaitingForHeader,
    WaitingForHeaderInv,
    ReadingDataLenSendMode(u8),
    ReadingDataType,
    ReadingPayload,
}

/// A response as plain values: (length, send mode, data type, payload).
pub type ResponseView = (u32, u8, u8, Seq<u8>);

impl View for FlatResponse {
    type V = ResponseView;

    closed spec fn view(&self) -> ResponseView {
        (self.response_len, self.send_mode, self.dtype, self.payload@)
    }
}

/// The response with every field zero and no payload.
pub open spec fn empty_response() -> ResponseView {
    (0u32, 0u8, 0u8, Seq::empty())
}

/// What one byte does to the parser: the next state, the response being
/// built, and the response that the byte completes, if any.
pub open spec fn response_step(state: ParserState, curr: ResponseView, b: u8) -> (
    ParserState,
    ResponseView,
    Option<ResponseView>,
) {
    match state {
        ParserState::WaitingForHeader => if b == 0xA5 {
            (ParserState::WaitingForHeaderInv, curr, None)
        } else {
            (ParserState::WaitingForHeader, curr, None)
        },
        ParserState::WaitingForHeaderInv => if b == 0x5A {
            (ParserState::ReadingDataLenSendMode(0), curr, None)
        } else {
            (ParserState::WaitingForHeader, curr, None)
        },
        ParserState::ReadingDataLenSendMode(step) => {
            let len = curr.0 | ((b as u32) << (((3 - step) * 8) as u32));
            if step == 3 {
                (
                    ParserState::ReadingDataType,
                    (len & !3u32, (len & 3u32) as u8, curr.2, curr.3),
                    None,
                )
            } else {
                (
                    ParserState::ReadingDataLenSendMode((step + 1) as u8),
                    (len, curr.1, curr.2, curr.3),
                    None,
                )
            }
        },
        ParserState::ReadingDataType => (ParserState::ReadingDataType, (curr.0, curr.1, b, curr.3), None),
        ParserState::ReadingPayload => {
            let p = curr.3.push(b);
            if p.len() == curr.0 {
                (ParserState::WaitingForHeader, empty_response(), Some((curr.0, curr.1, curr.2, p)))
            } else {
                (ParserState::ReadingPayload, (curr.0, curr.1, curr.2, p), None)
            }
        },
    }
}

/// Feeding `bytes` one at a time: the final state, the response being built,
/// and the responses completed, in order.
pub open spec fn response_run(state: ParserState, curr: ResponseView, bytes: Seq<u8>) -> (
    ParserState,
    ResponseView,
    Seq<ResponseView>,
)
    decreases bytes.len(),
{
    if bytes.len() == 0 {
        (state, curr, Seq::empty())
    } else {
        let (s1, c1, outs) = response_run(state, curr, bytes.drop_last());
        let (s2, c2, out) = response_step(s1, c1, bytes.last());
        (
            s2,
            c2,
            match out {
                Some(r) => outs.push(r),
                None => outs,
            },
        )
    }
}

/// A parser that is not reading a payload never starts reading one, so it
/// completes no response, whatever bytes it is fed.
pub proof fn lemma_no_payload_no_response(state: ParserState, curr: ResponseView, bytes: Seq<u8>)
    requires
        !(state is ReadingPayload),
        state is ReadingDataLenSendMode ==> state->0 <= 3,
    ensures
        !(response_run(state, curr, bytes).0 is ReadingPayload),
        response_run(state, curr, bytes).0 is ReadingDataLenSendMode ==> response_run(
            state,
            curr,
            bytes,
        ).0->0 <= 3,
        response_run(state, curr, bytes).2.len() == 0,
    decreases bytes.len(),
{
    if bytes.len() > 0 {
        lemma_no_payload_no_response(state, curr, bytes.drop_last());
    }
}

impl Default for ParserState {
    fn default() -> (s: Self)
        ensures
            s is WaitingForHeader,
    {
        ParserState::WaitingForHeader
    }
}

impl Default for FlatResponse {
    fn default() -> (r: Self)
        ensures
            r@ == empty_response(),
    {
        FlatResponse { response_len: 0, send_mode: 0, dtype: 0, payload: Vec::new() }
    }
}

impl Default for ResponseParser {
    fn default() -> (p: Self)
        ensures
            p.wf(),
            p.state() is WaitingForHeader,
            p.current() == empty_response(),
    {
        ResponseParser { state: ParserState::WaitingForHeader, curr: FlatResponse::default() }
    }
}

impl ResponseParser {
    /// The parser's state.
    pub closed spec fn state(&self) -> ParserState {
        self.state
    }

    /// The response being built.
    pub closed spec fn current(&self) -> ResponseView {
        self.curr@
    }

    /// A length is read in at most four steps.
    pub closed spec fn wf(&self) -> bool {
        self.state is ReadingDataLenSendMode ==> self.state->0 <= 3
    }

    /// Takes a run of bytes; returns the responses they complete, in order.
    pub fn feed(&mut self, bytes: &[u8]) -> (responses: Vec<FlatResponse>)
        requires
            old(self).wf(),
        ensures
            final(self).wf(),
            ({
                let (s, c, outs) = response_run(old(self).state(), old(self).current(), bytes@);
                &&& final(self).state() == s
                &&& final(self).current() == c
                &&& responses@.len() == outs.len()
                &&& forall|i: int| 0 <= i < outs.len() ==> #[trigger] responses@[i]@ == outs[i]
            }),
    {
        let mut responses: Vec<FlatResponse> = vec![];
        let ghost state0 = self.state();
        let ghost curr0 = self.current();
        for i in 0..bytes.len()
            invariant
                self.wf(),
                ({
                    let (s, c, outs) = response_run(state0, curr0, bytes@.take(i as int));
                    &&& self.state() == s
                    &&& self.current() == c
                    &&& responses@.len() == outs.len()
                    &&& forall|k: int| 0 <= k < outs.len() ==> #[trigger] responses@[k]@ == outs[k]
                }),
        {
            assert(bytes@.take(i + 1).drop_last() =~= bytes@.take(i as int));
            if let Some(resp) = self.feed_single(bytes[i]) {
                responses.push(resp);
            }
        }
        assert(bytes@.take(bytes@.len() as int) =~= bytes@);
        responses
    }

    /// Takes one byte; returns the response it completes, if any.
    pub fn feed_single(&mut self, byte: u8) -> (res: Option<FlatResponse>)
        requires
            old(self).wf(),
        ensures
            final(self).wf(),
            ({
                let (s, c, out) = response_step(old(self).state(), old(self).current(), byte);
                &&& final(self).state() == s
                &&& final(self).current() == c
                &&& res is Some <==> out is Some
                &&& res matches Some(r) ==> out == Some(r@)
            }),
    {
        let mut res = None;

        match (self.state, byte) {
            (ParserState::WaitingForHeader, 0xA5) => self.state = ParserState::WaitingForHeaderInv,
            (ParserState::WaitingForHeaderInv, 0x5A) => {
                self.state = ParserState::ReadingDataLenSendMode(0)
            },
            (ParserState::ReadingDataLenSendMode(step), b) => {
                self.curr.response_len |= (b as u32) << ((3 - step) * 8);
                if step == 3 {
                    self.curr.send_mode = (self.curr.response_len & 3) as u8;
                    self.curr.response_len &= !3;
                    self.state = ParserState::ReadingDataType
                } else {
                    self.state = ParserState::ReadingDataLenSendMode(step + 1)
                }
            },
            (ParserState::ReadingDataType, d) => {
                self.curr.dtype = d;
            },
            (ParserState::ReadingPayload, p) => {
                self.curr.payload.push(p);
                if self.curr.payload.len() == self.curr.response_len as usize {
                    let mut done = FlatResponse::default();
                    std::mem::swap(&mut done, &mut self.curr);
                    res = Some(done);
                    self.state = ParserState::WaitingForHeader;
                }
            },
            // Invalid state, revert to header
            _ => self.state = ParserState::WaitingForHeader,
        }

        res
    }
}

} // verus!
