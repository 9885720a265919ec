//! Payload parsing state machine

use vstd::prelude::*;

verus! {

/// Collects the bytes of one payload of a known length.
#[derive(Debug, Clone)]
pub struct PayloadParser {
    payload: Vec<u8>,
    len: usize,
}

/// What one byte does to a parser that holds `buffered` and expects `len`
/// bytes: the bytes it holds afterwards, and the payload that the byte
/// completes, if any.
pub open spec fn payload_step(buffered: Seq<u8>, len: usize, b: u8) -> (Seq<u8>, Option<Seq<u8>>) {
    let p = buffered.push(b);
    if p.len() == len {
        (Seq::empty(), Some(p))
    } else {
        (p, None)
    }
}

/// Feeding `bytes` to a parser that holds `buffered` and expects `len` bytes:
/// the bytes held at the end, and what each byte returned, in order.
pub open spec fn payload_run(buffered: Seq<u8>, len: usize, bytes: Seq<u8>) -> (Seq<u8>, Seq<Option<Seq<u8>>>)
    decreases bytes.len(),
{
    if bytes.len() == 0 {
        (buffered, Seq::empty())
    } else {
        let (b1, outs) = payload_run(buffered, len, bytes.drop_last());
        let (b2, out) = payload_step(b1, len, bytes.last());
        (b2, outs.push(out))
    }
}

/// A parser that holds nothing and expects `len` (at least one) bytes, fed
/// `len` bytes, returns nothing until the last byte, which returns the bytes
/// as a payload; it holds nothing afterwards.
pub proof fn lemma_payload_collected(len: usize, bytes: Seq<u8>)
    requires
        len >= 1,
        bytes.len() == len,
    ensures
        payload_run(Seq::empty(), len, bytes) == (
            Seq::<u8>::empty(),
            Seq::new((len - 1) as nat, |i: int| Option::<Seq<u8>>::None).push(Some(bytes)),
        ),
{
    lemma_payload_prefix_run(len, bytes, len - 1);
    assert(bytes.drop_last() =~= bytes.take(len - 1));
    assert(bytes.take(len - 1).push(bytes.last()) =~= bytes);
}

/// The first `k` bytes (fewer than `len`) are held as they come, and each
/// returns nothing.
proof fn lemma_payload_prefix_run(len: usize, bytes: Seq<u8>, k: int)
    requires
        bytes.len() == len,
        0 <= k < len,
    ensures
        payload_run(Seq::empty(), len, bytes.take(k)) == (bytes.take(k), Seq::new(
            k as nat,
            |i: int| Option::<Seq<u8>>::None,
        )),
    decreases k,
{
    if k == 0 {
        assert(bytes.take(0) =~= Seq::<u8>::empty());
        assert(Seq::new(0, |i: int| Option::<Seq<u8>>::None) =~= Seq::<Option<Seq<u8>>>::empty());
    } else {
        lemma_payload_prefix_run(len, bytes, k - 1);
        assert(bytes.take(k).drop_last() =~= bytes.take(k - 1));
        assert(bytes.take(k - 1).push(bytes.take(k).last()) =~= bytes.take(k));
        assert(Seq::new((k - 1) as nat, |i: int| Option::<Seq<u8>>::None).push(None) =~= Seq::new(
            k as nat,
            |i: int| Option::<Seq<u8>>::None,
        ));
    }
}

/// Feeding `a` then `b` is feeding `a + b`.
pub proof fn lemma_payload_run_append(buffered: Seq<u8>, len: usize, a: Seq<u8>, b: Seq<u8>)
    ensures
        payload_run(buffered, len, a + b) == ({
            let (b1, o1) = payload_run(buffered, len, a);
            let (b2, o2) = payload_run(b1, len, b);
            (b2, o1 + o2)
        }),
    decreases b.len(),
{
    if b.len() == 0 {
        assert(a + b =~= a);
        let (b1, o1) = payload_run(buffered, len, a);
        assert(o1 + Seq::<Option<Seq<u8>>>::empty() =~= o1);
    } else {
        lemma_payload_run_append(buffered, len, a, b.drop_last());
        assert((a + b).drop_last() =~= a + b.drop_last());
        assert((a + b).last() == b.last());
        let (b1, o1) = payload_run(buffered, len, a);
        let (b2, o2) = payload_run(b1, len, b.drop_last());
        let (b3, out) = payload_step(b2, len, b.last());
        assert((o1 + o2).push(out) =~= o1 + o2.push(out));
    }
}

/// A parser that holds nothing and expects `len` (at least one) bytes, fed
/// `k * len` bytes, returns for byte `j` (counting from 0) the `len` bytes
/// ending with it when `j + 1` is a multiple of `len`, and nothing otherwise;
/// it holds nothing afterwards.
pub proof fn lemma_payloads_collected(len: usize, bytes: Seq<u8>, k: nat)
    requires
        len >= 1,
        bytes.len() == k * len,
    ensures
        payload_run(Seq::empty(), len, bytes).0 == Seq::<u8>::empty(),
        payload_run(Seq::empty(), len, bytes).1.len() == bytes.len(),
        forall|j: int|
            0 <= j < bytes.len() ==> #[trigger] payload_run(Seq::empty(), len, bytes).1[j] == if (j
                + 1) % (len as int) == 0 {
                Some(bytes.subrange(j + 1 - len, j + 1))
            } else {
                None
            },
    decreases k,
{
    if k == 0 {
        assert(k * len == 0) by (nonlinear_arith)
            requires
                k == 0,
        ;
        assert(bytes =~= Seq::<u8>::empty());
    } else {
        let n = len as int;
        let split = (k - 1) * n;
        assert(split + n == k * n) by (nonlinear_arith)
            requires
                split == (k - 1) * n,
                k >= 1,
        ;
        let head = bytes.take(split);
        let tail = bytes.skip(split);
        assert(head + tail =~= bytes);
        lemma_payloads_collected(len, head, (k - 1) as nat);
        lemma_payload_run_append(Seq::empty(), len, head, tail);
        lemma_payload_collected(len, tail);
        let outs1 = payload_run(Seq::<u8>::empty(), len, head).1;
        let outs2 = payload_run(Seq::<u8>::empty(), len, tail).1;
        let outs = payload_run(Seq::<u8>::empty(), len, bytes).1;
        assert(outs == outs1 + outs2);
        assert forall|j: int| 0 <= j < bytes.len() implies #[trigger] outs[j] == if (j + 1) % n == 0 {
            Some(bytes.subrange(j + 1 - len, j + 1))
        } else {
            None
        } by {
            if j < split {
                assert(outs[j] == outs1[j]);
                if (j + 1) % n == 0 {
                    assert(j + 1 >= n) by (nonlinear_arith)
                        requires
                            (j + 1) % n == 0,
                            j >= 0,
                            n >= 1,
                    ;
                    assert(head.subrange(j + 1 - n, j + 1) =~= bytes.subrange(j + 1 - n, j + 1));
                }
            } else {
                let i = j - split;
                assert(outs[j] == outs2[i]);
                assert((j + 1) % n == (i + 1) % n) by (nonlinear_arith)
                    requires
                        j == split + i,
                        split == (k - 1) * n,
                        n >= 1,
                ;
                if i < n - 1 {
                    assert((i + 1) % n != 0) by (nonlinear_arith)
                        requires
                            0 <= i < n - 1,
                    ;
                } else {
                    assert(i == n - 1);
                    assert((i + 1) % n == 0) by (nonlinear_arith)
                        requires
                            i == n - 1,
                            n >= 1,
                    ;
                    assert(tail =~= bytes.subrange(j + 1 - len, j + 1));
                }
            }
        }
    }
}

impl Default for PayloadParser {
    fn default() -> (p: Self)
        ensures
            p.buffered() == Seq::<u8>::empty(),
            p.expected_len() == 0,
    {
        PayloadParser { payload: Vec::new(), len: 0 }
    }
}

impl PayloadParser {
    /// The bytes of the unfinished payload.
    pub closed spec fn buffered(&self) -> Seq<u8> {
        self.payload@
    }

    /// The length of the payloads being collected.
    pub closed spec fn expected_len(&self) -> usize {
        self.len
    }

    /// Starts collecting payloads of `len` bytes, dropping what was buffered.
    pub fn set_payload_len(&mut self, len: usize)
        ensures
            final(self).expected_len() == len,
            final(self).buffered() == Seq::<u8>::empty(),
    {
        self.len = len;
        if !self.payload.is_empty() {
            self.payload = vec![];
        }
    }

    /// Takes the next byte; returns the payload it completes, if any.
    pub fn feed(&mut self, byte: u8) -> (res: Option<Vec<u8>>)
        ensures
            final(self).expected_len() == old(self).expected_len(),
            final(self).buffered() == payload_step(old(self).buffered(), old(self).expected_len(), byte).0,
            res matches Some(v) ==> payload_step(old(self).buffered(), old(self).expected_len(), byte).1
                == Some(v@),
            res is None ==> payload_step(old(self).buffered(), old(self).expected_len(), byte).1 is None,
    {
        let mut res = None;
        self.payload.push(byte);
        if self.payload.len() == self.len {
            let mut taken = Vec::new();
            std::mem::swap(&mut taken, &mut self.payload);
            res = Some(taken);
        }

        res
    }
}

} // verus!
