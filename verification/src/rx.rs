//! Resynchronizing reassembly of the inbound vendor-channel byte stream.
//!
//! Bytes arrive in chunks of arbitrary size. The reassembler buffers them
//! and runs a small parser: it scans for the magic word one byte at a time,
//! reads a payload length, rejects lengths of zero or above
//! `MAX_PAYLOAD_LENGTH`, and emits each completed payload. The parser reads
//! the magic word and the length in the same little-endian order the frame
//! encoder writes, so both directions of the wire share one layout. The
//! parser's behaviour is captured by the spec functions `rx_step` and
//! `rx_drain`, and the executable state machine is proved to implement
//! them.

use vstd::prelude::*;
use vstd::bytes::spec_u32_from_le_bytes;
use std::collections::VecDeque;
use crate::frame::{MAGIC_WORD, MAX_PAYLOAD_LENGTH};

verus! {

/// Which part of a frame the parser is waiting for.
#[derive(Debug, Clone, Copy, PartialEq, Eq, Structural)]
pub enum UsbRxState {
    AwaitingMagicWord,
    ReadingLength,
    ReadingPayload { payload_length: u32 },
}

/// A declared payload length the parser accepts.
pub open spec fn spec_state_valid(s: UsbRxState) -> bool {
    match s {
        UsbRxState::ReadingPayload { payload_length } =>
            1 <= payload_length <= MAX_PAYLOAD_LENGTH as u32,
        _ => true,
    }
}

/// Whether the buffered bytes suffice for the parser to act.
pub open spec fn can_step(s: UsbRxState, buf: Seq<u8>) -> bool {
    match s {
        UsbRxState::AwaitingMagicWord => buf.len() >= 4,
        UsbRxState::ReadingLength => buf.len() >= 4,
        UsbRxState::ReadingPayload { payload_length } => buf.len() >= payload_length,
    }
}

/// The payloads one parser action emits.
pub open spec fn emitted(m: Option<Seq<u8>>) -> Seq<Seq<u8>> {
    match m {
        Some(p) => seq![p],
        None => seq![],
    }
}

/// One parser action: the next state, the bytes left in the buffer, and
/// the payload completed by the action, if any.
pub open spec fn rx_step(s: UsbRxState, buf: Seq<u8>) -> (UsbRxState, Seq<u8>, Option<Seq<u8>>)
    recommends
        spec_state_valid(s),
        can_step(s, buf),
{
    match s {
        UsbRxState::AwaitingMagicWord => {
            if spec_u32_from_le_bytes(buf.subrange(0, 4)) == MAGIC_WORD {
                (UsbRxState::ReadingLength, buf.skip(4), None)
            } else {
                (UsbRxState::AwaitingMagicWord, buf.skip(1), None)
            }
        },
        UsbRxState::ReadingLength => {
            let l = spec_u32_from_le_bytes(buf.subrange(0, 4));
            if 1 <= l && l <= MAX_PAYLOAD_LENGTH as u32 {
                (UsbRxState::ReadingPayload { payload_length: l }, buf.skip(4), None)
            } else {
                (UsbRxState::AwaitingMagicWord, buf, None)
            }
        },
        UsbRxState::ReadingPayload { payload_length } => {
            (
                UsbRxState::AwaitingMagicWord,
                buf.skip(payload_length as int),
                Some(buf.take(payload_length as int)),
            )
        },
    }
}

/// Termination measure of the parser loop: every action either consumes a
/// byte or leaves `ReadingLength`.
pub open spec fn rx_measure(s: UsbRxState, buf: Seq<u8>) -> nat {
    2 * buf.len() + (if (s matches UsbRxState::ReadingLength) { 1 as nat } else { 0 as nat })
}

/// Runs the parser until the buffered bytes no longer suffice: the final
/// state, the bytes left over, and the payloads emitted, in order.
pub open spec fn rx_drain(s: UsbRxState, buf: Seq<u8>) -> (UsbRxState, Seq<u8>, Seq<Seq<u8>>)
    decreases rx_measure(s, buf),
{
    if !spec_state_valid(s) || !can_step(s, buf) {
        (s, buf, seq![])
    } else {
        let (s1, b1, m) = rx_step(s, buf);
        let (s2, b2, ms) = rx_drain(s1, b1);
        (s2, b2, emitted(m) + ms)
    }
}

/// Reassembles the chunked inbound byte stream into complete payloads.
pub struct RxReassembler {
    data: VecDeque<u8>,
    state: UsbRxState,
}

impl RxReassembler {
    /// The bytes buffered and not yet consumed.
    pub closed spec fn buf(&self) -> Seq<u8> {
        self.data@
    }

    /// The parser's current state.
    pub closed spec fn phase(&self) -> UsbRxState {
        self.state
    }

    /// Between calls the state is valid and the parser has consumed all it
    /// can.
    pub open spec fn wf(&self) -> bool {
        spec_state_valid(self.phase()) && !can_step(self.phase(), self.buf())
    }

    pub fn new() -> (r: Self)
        ensures
            r.wf(),
            r.phase() == UsbRxState::AwaitingMagicWord,
            r.buf() == Seq::<u8>::empty(),
    {
        RxReassembler { data: VecDeque::new(), state: UsbRxState::AwaitingMagicWord }
    }

    /// The next four buffered bytes, read as a little-endian word.
    fn peek_word(&self) -> (x: u32)
        requires
            self.buf().len() >= 4,
        ensures
            x == spec_u32_from_le_bytes(self.buf().subrange(0, 4)),
    {
        let mut v: Vec<u8> = Vec::new();
        v.push(self.data[0]);
        v.push(self.data[1]);
        v.push(self.data[2]);
        v.push(self.data[3]);
        proof {
            assert(v@ =~= self.buf().subrange(0, 4));
        }
        vstd::bytes::u32_from_le_bytes(v.as_slice())
    }

    /// Removes the first `n` buffered bytes and returns them.
    fn take_front(&mut self, n: usize) -> (taken: Vec<u8>)
        requires
            old(self).buf().len() >= n,
        ensures
            final(self).buf() == old(self).buf().skip(n as int),
            final(self).phase() == old(self).phase(),
            taken@ == old(self).buf().take(n as int),
    {
        let mut taken: Vec<u8> = Vec::new();
        let mut i: usize = 0;
        while i < n
            invariant
                i <= n,
                old(self).buf().len() >= n,
                self.state == old(self).state,
                self.data@ == old(self).data@.skip(i as int),
                taken@ == old(self).data@.take(i as int),
            decreases n - i,
        {
            let b = self.data.pop_front().unwrap();
            taken.push(b);
            i = i + 1;
            proof {
                assert(self.data@ =~= old(self).data@.skip(i as int));
                assert(taken@ =~= old(self).data@.take(i as int));
            }
        }
        taken
    }

    /// Buffers a chunk of inbound bytes and runs the parser to completion,
    /// returning the payloads completed by the chunk, in order.
    pub fn extend(&mut self, bytes: &[u8]) -> (msgs: Vec<Vec<u8>>)
        requires
            old(self).wf(),
        ensures
            final(self).wf(),
            ({
                let (s2, b2, ms) = rx_drain(old(self).phase(), old(self).buf() + bytes@);
                &&& final(self).phase() == s2
                &&& final(self).buf() == b2
                &&& msgs.deep_view() == ms
            }),
    {
        let ghost s0 = self.state;
        let ghost b0 = self.data@ + bytes@;
        let mut i: usize = 0;
        while i < bytes.len()
            invariant
                i <= bytes@.len(),
                self.state == s0,
                self.data@ == old(self).data@ + bytes@.take(i as int),
            decreases bytes@.len() - i,
        {
            self.data.push_back(bytes[i]);
            i = i + 1;
            proof {
                assert(self.data@ =~= old(self).data@ + bytes@.take(i as int));
            }
        }
        proof {
            assert(bytes@.take(bytes@.len() as int) =~= bytes@);
            assert(self.data@ == b0);
        }
        let mut msgs: Vec<Vec<u8>> = Vec::new();
        loop
            invariant
                spec_state_valid(self.state),
                rx_drain(s0, b0) == ({
                    let (s2, b2, ms) = rx_drain(self.state, self.data@);
                    (s2, b2, msgs.deep_view() + ms)
                }),
            ensures
                !can_step(self.state, self.data@),
            decreases rx_measure(self.state, self.data@),
        {
            let ghost s_cur = self.state;
            let ghost b_cur = self.data@;
            let ghost msgs_cur = msgs.deep_view();
            match self.state {
                UsbRxState::AwaitingMagicWord => {
                    if self.data.len() >= 4 {
                        let w = self.peek_word();
                        if w == MAGIC_WORD {
                            let _ = self.take_front(4);
                            self.state = UsbRxState::ReadingLength;
                        } else {
                            let _ = self.data.pop_front();
                            proof {
                                assert(self.data@ =~= b_cur.skip(1));
                            }
                        }
                    } else {
                        break;
                    }
                },
                UsbRxState::ReadingLength => {
                    if self.data.len() >= 4 {
                        let l = self.peek_word();
                        if 1 <= l && l <= MAX_PAYLOAD_LENGTH as u32 {
                            let _ = self.take_front(4);
                            self.state = UsbRxState::ReadingPayload { payload_length: l };
                        } else {
                            self.state = UsbRxState::AwaitingMagicWord;
                        }
                    } else {
                        break;
                    }
                },
                UsbRxState::ReadingPayload { payload_length } => {
                    if self.data.len() >= payload_length as usize {
                        let msg = self.take_front(payload_length as usize);
                        msgs.push(msg);
                        self.state = UsbRxState::AwaitingMagicWord;
                        proof {
                            assert(msgs.deep_view() =~~= msgs_cur.push(b_cur.take(payload_length as int)));
                            assert(msgs.deep_view() + rx_drain(self.state, self.data@).2
                                =~~= msgs_cur + (emitted(Some(b_cur.take(payload_length as int)))
                                    + rx_drain(self.state, self.data@).2));
                        }
                    } else {
                        break;
                    }
                },
            }
            proof {
                assert(can_step(s_cur, b_cur));
                assert((self.state, self.data@, match s_cur {
                    UsbRxState::ReadingPayload { payload_length } =>
                        Some(b_cur.take(payload_length as int)),
                    _ => None::<Seq<u8>>,
                }) == rx_step(s_cur, b_cur));
                lemma_emitted_assoc(msgs_cur, rx_step(s_cur, b_cur).2, rx_drain(self.state, self.data@).2);
            }
        }
        msgs
    }
}

/// Appending one emission and then a message list equals appending them
/// grouped the other way.
proof fn lemma_emitted_assoc(a: Seq<Seq<u8>>, m: Option<Seq<u8>>, b: Seq<Seq<u8>>)
    ensures
        (a + emitted(m)) + b =~= a + (emitted(m) + b),
        m is None ==> a + emitted(m) =~= a,
        m matches Some(p) ==> a + emitted(m) =~= a.push(p),
{
}

/// The parser stops only for want of bytes, and in a valid state.
pub proof fn lemma_drain_stuck(s: UsbRxState, buf: Seq<u8>)
    requires
        spec_state_valid(s),
    ensures
        !can_step(rx_drain(s, buf).0, rx_drain(s, buf).1),
        spec_state_valid(rx_drain(s, buf).0),
    decreases rx_measure(s, buf),
{
    if can_step(s, buf) {
        let (s1, b1, m) = rx_step(s, buf);
        lemma_drain_stuck(s1, b1);
    }
}

/// Feeding `buf` and then `ext` drains the same states and messages as
/// feeding `buf + ext` at once.
pub proof fn lemma_drain_append(s: UsbRxState, buf: Seq<u8>, ext: Seq<u8>)
    requires
        spec_state_valid(s),
    ensures
        ({
            let (s1, b1, m1) = rx_drain(s, buf);
            let (s2, b2, m2) = rx_drain(s1, b1 + ext);
            rx_drain(s, buf + ext) == (s2, b2, m1 + m2)
        }),
    decreases rx_measure(s, buf),
{
    let (s1, b1, m1) = rx_drain(s, buf);
    if !can_step(s, buf) {
        assert(rx_drain(s, buf) == (s, buf, Seq::<Seq<u8>>::empty()));
        let (s2, b2, m2) = rx_drain(s1, b1 + ext);
        assert(m1 + m2 =~= m2);
    } else {
        let (t, c, m) = rx_step(s, buf);
        // The same action applies when `ext` is appended, leaving `c + ext`.
        assert(rx_step(s, buf + ext) == (t, c + ext, m)) by {
            match s {
                UsbRxState::AwaitingMagicWord => {
                    assert((buf + ext).subrange(0, 4) =~= buf.subrange(0, 4));
                    if spec_u32_from_le_bytes(buf.subrange(0, 4)) == MAGIC_WORD {
                        assert((buf + ext).skip(4) =~= buf.skip(4) + ext);
                    } else {
                        assert((buf + ext).skip(1) =~= buf.skip(1) + ext);
                    }
                },
                UsbRxState::ReadingLength => {
                    assert((buf + ext).subrange(0, 4) =~= buf.subrange(0, 4));
                    let l = spec_u32_from_le_bytes(buf.subrange(0, 4));
                    if 1 <= l && l <= MAX_PAYLOAD_LENGTH as u32 {
                        assert((buf + ext).skip(4) =~= buf.skip(4) + ext);
                    } else {
                        assert(buf + ext =~= buf + ext);
                    }
                },
                UsbRxState::ReadingPayload { payload_length } => {
                    assert((buf + ext).skip(payload_length as int)
                        =~= buf.skip(payload_length as int) + ext);
                    assert((buf + ext).take(payload_length as int)
                        =~= buf.take(payload_length as int));
                },
            }
        }
        assert(spec_state_valid(t));
        lemma_drain_append(t, c, ext);
        let (u1, d1, n1) = rx_drain(t, c);
        assert(rx_drain(s, buf) == (u1, d1, emitted(m) + n1));
        let (u2, d2, n2) = rx_drain(u1, d1 + ext);
        assert(rx_drain(s, buf + ext) == (u2, d2, emitted(m) + (n1 + n2)));
        assert(emitted(m) + (n1 + n2) =~= (emitted(m) + n1) + n2);
    }
}

/// All the chunks' bytes, in order.
pub open spec fn concat_all(chunks: Seq<Seq<u8>>) -> Seq<u8>
    decreases chunks.len(),
{
    if chunks.len() == 0 {
        Seq::empty()
    } else {
        chunks[0] + concat_all(chunks.drop_first())
    }
}

/// Feeding the chunks one at a time, draining after each: the final state,
/// the bytes left over, and all messages emitted, in order.
pub open spec fn feed(s: UsbRxState, buf: Seq<u8>, chunks: Seq<Seq<u8>>) -> (UsbRxState, Seq<u8>, Seq<Seq<u8>>)
    decreases chunks.len(),
{
    if chunks.len() == 0 {
        (s, buf, seq![])
    } else {
        let (s1, b1, m1) = rx_drain(s, buf + chunks[0]);
        let (s2, b2, m2) = feed(s1, b1, chunks.drop_first());
        (s2, b2, m1 + m2)
    }
}

/// Feeding chunks one at a time equals feeding their concatenation at once.
pub proof fn lemma_feed_concat(s: UsbRxState, buf: Seq<u8>, chunks: Seq<Seq<u8>>)
    requires
        spec_state_valid(s),
        !can_step(s, buf),
    ensures
        feed(s, buf, chunks) == rx_drain(s, buf + concat_all(chunks)),
    decreases chunks.len(),
{
    if chunks.len() == 0 {
        assert(buf + concat_all(chunks) =~= buf);
        assert(rx_drain(s, buf) == (s, buf, Seq::<Seq<u8>>::empty()));
        assert(feed(s, buf, chunks).2 =~= Seq::<Seq<u8>>::empty());
    } else {
        let (s1, b1, m1) = rx_drain(s, buf + chunks[0]);
        lemma_drain_stuck(s, buf + chunks[0]);
        lemma_feed_concat(s1, b1, chunks.drop_first());
        lemma_drain_append(s, buf + chunks[0], concat_all(chunks.drop_first()));
        assert(buf + concat_all(chunks) =~= (buf + chunks[0]) + concat_all(chunks.drop_first()));
    }
}

/// Draining one well-formed frame from a fresh parser emits exactly its
/// payload and leaves the parser fresh again.
pub proof fn lemma_frame_drain(payload: Seq<u8>)
    requires
        1 <= payload.len() <= MAX_PAYLOAD_LENGTH,
    ensures
        rx_drain(UsbRxState::AwaitingMagicWord, crate::frame::spec_frame_bytes(payload))
            == (UsbRxState::AwaitingMagicWord, Seq::<u8>::empty(), seq![payload]),
{
    vstd::bytes::lemma_auto_spec_u32_to_from_le_bytes();
    let f = crate::frame::spec_frame_bytes(payload);
    let magic = vstd::bytes::spec_u32_to_le_bytes(MAGIC_WORD);
    let lenb = vstd::bytes::spec_u32_to_le_bytes(payload.len() as u32);
    let empty = Seq::<u8>::empty();
    let am = UsbRxState::AwaitingMagicWord;
    let rl = UsbRxState::ReadingLength;
    assert(f.subrange(0, 4) =~= magic);
    assert(spec_u32_from_le_bytes(f.subrange(0, 4)) == MAGIC_WORD);
    let b1 = f.skip(4);
    assert(rx_step(am, f) == (rl, b1, None::<Seq<u8>>));
    assert(b1 =~= lenb + payload);
    assert(b1.subrange(0, 4) =~= lenb);
    let l = spec_u32_from_le_bytes(b1.subrange(0, 4));
    assert(l == payload.len() as u32);
    let rp = UsbRxState::ReadingPayload { payload_length: l };
    let b2 = b1.skip(4);
    assert(b2 =~= payload);
    assert(rx_step(rl, b1) == (rp, b2, None::<Seq<u8>>));
    assert(b2.skip(l as int) =~= empty);
    assert(b2.take(l as int) =~= payload);
    assert(rx_step(rp, b2) == (am, empty, Some(payload)));
    assert(!can_step(am, empty));
    assert(rx_drain(am, empty) == (am, empty, Seq::<Seq<u8>>::empty()));
    assert(rx_drain(rp, b2) == (am, empty, emitted(Some(payload)) + Seq::<Seq<u8>>::empty()));
    assert(emitted(Some(payload)) + Seq::<Seq<u8>>::empty() =~= seq![payload]);
    assert(rx_drain(rl, b1) == (am, empty, emitted(None) + seq![payload]));
    assert(emitted(None::<Seq<u8>>) + seq![payload] =~= seq![payload]);
    assert(rx_drain(am, f) == (am, empty, emitted(None) + seq![payload]));
}

/// Chunk invariance: however a frame's bytes are split into chunks, feeding
/// the chunks in order to a fresh reassembler yields exactly one message,
/// the frame's payload, and leaves the reassembler fresh again.
pub proof fn lemma_chunk_invariance(payload: Seq<u8>, chunks: Seq<Seq<u8>>)
    requires
        1 <= payload.len() <= MAX_PAYLOAD_LENGTH,
        concat_all(chunks) == crate::frame::spec_frame_bytes(payload),
    ensures
        feed(UsbRxState::AwaitingMagicWord, Seq::empty(), chunks)
            == (UsbRxState::AwaitingMagicWord, Seq::<u8>::empty(), seq![payload]),
{
    lemma_feed_concat(UsbRxState::AwaitingMagicWord, Seq::empty(), chunks);
    assert(Seq::empty() + concat_all(chunks) =~= crate::frame::spec_frame_bytes(payload));
    lemma_frame_drain(payload);
}

/// Whether the four bytes of `b` starting at `i` are the magic word.
pub open spec fn magic_word_at(b: Seq<u8>, i: int) -> bool {
    b.subrange(i, i + 4) == vstd::bytes::spec_u32_to_le_bytes(MAGIC_WORD)
}

/// Resynchronization: junk bytes in front of a valid frame are discarded
/// one by one, as long as no four consecutive bytes starting in the junk
/// (including bytes overlapping the frame) look like the magic word, and
/// the frame's payload is still emitted, alone.
pub proof fn lemma_resync(junk: Seq<u8>, payload: Seq<u8>)
    requires
        1 <= payload.len() <= MAX_PAYLOAD_LENGTH,
        forall|i: int| 0 <= i < junk.len()
            ==> !#[trigger] magic_word_at(junk + crate::frame::spec_frame_bytes(payload), i),
    ensures
        rx_drain(UsbRxState::AwaitingMagicWord, junk + crate::frame::spec_frame_bytes(payload))
            == (UsbRxState::AwaitingMagicWord, Seq::<u8>::empty(), seq![payload]),
    decreases junk.len(),
{
    vstd::bytes::lemma_auto_spec_u32_to_from_le_bytes();
    let f = crate::frame::spec_frame_bytes(payload);
    let b = junk + f;
    if junk.len() == 0 {
        assert(b =~= f);
        lemma_frame_drain(payload);
    } else {
        assert(!magic_word_at(b, 0));
        assert(spec_u32_from_le_bytes(b.subrange(0, 4)) != MAGIC_WORD) by {
            assert(b.subrange(0int, 4int) =~= b.subrange(0int, 0int + 4));
            assert(b.subrange(0, 4).len() == 4);
            if spec_u32_from_le_bytes(b.subrange(0, 4)) == MAGIC_WORD {
                assert(vstd::bytes::spec_u32_to_le_bytes(spec_u32_from_le_bytes(b.subrange(0, 4)))
                    == b.subrange(0, 4));
            }
        }
        assert(rx_step(UsbRxState::AwaitingMagicWord, b)
            == (UsbRxState::AwaitingMagicWord, b.skip(1), None::<Seq<u8>>));
        assert(b.skip(1) =~= junk.skip(1) + f);
        assert forall|i: int| 0 <= i < junk.skip(1).len()
            implies !#[trigger] magic_word_at(junk.skip(1) + f, i) by {
            assert((junk.skip(1) + f).subrange(i, i + 4) =~= b.subrange(i + 1, (i + 1) + 4));
            assert(!magic_word_at(b, i + 1));
        }
        lemma_resync(junk.skip(1), payload);
        let tail = rx_drain(UsbRxState::AwaitingMagicWord, junk.skip(1) + f).2;
        assert(emitted(None::<Seq<u8>>) + tail =~= tail);
        assert(rx_drain(UsbRxState::AwaitingMagicWord, b)
            == (UsbRxState::AwaitingMagicWord, Seq::<u8>::empty(), emitted(None::<Seq<u8>>) + tail));
    }
}

/// Length-bound rejection: a declared length of zero or above
/// `MAX_PAYLOAD_LENGTH` sends the parser back to scanning for the magic
/// word without consuming a byte or emitting a message, so the scan
/// resumes at the rejected length field.
pub proof fn lemma_length_rejection(buf: Seq<u8>)
    requires
        buf.len() >= 4,
        ({
            let l = spec_u32_from_le_bytes(buf.subrange(0, 4));
            l == 0 || l > MAX_PAYLOAD_LENGTH as u32
        }),
    ensures
        rx_step(UsbRxState::ReadingLength, buf)
            == (UsbRxState::AwaitingMagicWord, buf, None::<Seq<u8>>),
        rx_drain(UsbRxState::ReadingLength, buf) == rx_drain(UsbRxState::AwaitingMagicWord, buf),
{
    let (s2, b2, ms) = rx_drain(UsbRxState::AwaitingMagicWord, buf);
    assert(rx_drain(UsbRxState::ReadingLength, buf).2 =~= ms);
}

} // verus!
