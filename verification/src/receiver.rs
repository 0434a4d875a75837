use vstd::prelude::*;
use crate::frame::{ControlFrame, FRAME_LEN, START_BYTE};

verus! {

// --- Specification model: one receiver step on one byte ---

/// Cursor after the receiver handles one byte, starting from cursor `c`.
/// A start marker always restarts the frame at position 0 (the marker is
/// stored there, leaving the cursor at 1), even mid-frame; with no frame
/// open (`c == 0`) any other byte is discarded; otherwise the byte is
/// stored and the cursor advances, returning to 0 when the frame completes.
pub open spec fn next_cursor(c: int, byte: u8) -> int {
    if byte == START_BYTE {
        1
    } else if c == 0 {
        0
    } else if c == FRAME_LEN - 1 {
        0
    } else {
        c + 1
    }
}

/// Whether handling one byte from cursor `c` completes a frame.
pub open spec fn step_emits(c: int, byte: u8) -> bool {
    c == FRAME_LEN - 1 && byte != START_BYTE
}

/// Partial buffer after the receiver handles one byte from cursor `c`.
pub open spec fn next_buf(c: int, b: Seq<u8>, byte: u8) -> Seq<u8> {
    if byte == START_BYTE {
        b.update(0, byte)
    } else if c == 0 {
        b
    } else {
        b.update(c, byte)
    }
}

// --- Specification model: a whole byte stream ---

/// Cursor after feeding the stream `s` to a receiver whose cursor was `c`.
pub open spec fn cursor_from(c: int, s: Seq<u8>) -> int
    decreases s.len(),
{
    if s.len() == 0 {
        c
    } else {
        next_cursor(cursor_from(c, s.drop_last()), s.last())
    }
}

/// Partial buffer after feeding the stream `s` to a receiver whose cursor
/// was `c` and whose buffer held `b`.
pub open spec fn buf_from(c: int, b: Seq<u8>, s: Seq<u8>) -> Seq<u8>
    decreases s.len(),
{
    if s.len() == 0 {
        b
    } else {
        next_buf(cursor_from(c, s.drop_last()), buf_from(c, b, s.drop_last()), s.last())
    }
}

/// The frames completed, in order, while feeding the stream `s` to a
/// receiver whose cursor was `c` and whose buffer held `b`.
pub open spec fn frames_from(c: int, b: Seq<u8>, s: Seq<u8>) -> Seq<Seq<u8>>
    decreases s.len(),
{
    if s.len() == 0 {
        Seq::empty()
    } else if step_emits(cursor_from(c, s.drop_last()), s.last()) {
        frames_from(c, b, s.drop_last()).push(buf_from(c, b, s))
    } else {
        frames_from(c, b, s.drop_last())
    }
}

/// Partial buffer of a fresh receiver: six zero bytes.
pub open spec fn init_buf() -> Seq<u8> {
    Seq::new(FRAME_LEN as nat, |i: int| 0u8)
}

/// Whether a fresh receiver fed the stream `s` completes a frame at step `i`.
pub open spec fn emits_at(s: Seq<u8>, i: int) -> bool
    recommends
        0 <= i < s.len(),
{
    step_emits(cursor_from(0, s.take(i)), s[i])
}

/// The frame a fresh receiver fed the stream `s` completes at step `i`.
pub open spec fn frame_at(s: Seq<u8>, i: int) -> Seq<u8>
    recommends
        emits_at(s, i),
{
    next_buf(cursor_from(0, s.take(i)), buf_from(0, init_buf(), s.take(i)), s[i])
}

/// The framing discipline, stated on the stream alone: position `i` ends a
/// frame exactly when a start marker stands `FRAME_LEN - 1` bytes earlier
/// and no byte after it up to and including position `i` is a start marker.
pub open spec fn frame_boundary(s: Seq<u8>, i: int) -> bool {
    &&& FRAME_LEN - 1 <= i < s.len()
    &&& s[i - (FRAME_LEN - 1)] == START_BYTE
    &&& forall|j: int| i - (FRAME_LEN - 2) <= j <= i ==> s[j] != START_BYTE
}

// --- The receiver invariant, and the framing law ---

/// Position `p` holds a start marker that no later byte of `s` repeats:
/// the start of the frame still open after `s`, if one is.
spec fn open_at(s: Seq<u8>, p: int) -> bool {
    &&& 0 <= p < s.len()
    &&& s[p] == START_BYTE
    &&& forall|j: int| p < j < s.len() ==> s[j] != START_BYTE
}

/// What holds of a fresh receiver's state after any stream `s`: the cursor
/// counts the bytes of the frame still open, those bytes sit at the front
/// of the buffer, and a cursor of 0 means no start marker stands within the
/// last `FRAME_LEN - 1` bytes unanswered.
spec fn state_inv(b0: Seq<u8>, s: Seq<u8>) -> bool {
    let c = cursor_from(0, s);
    let b = buf_from(0, b0, s);
    &&& 0 <= c < FRAME_LEN
    &&& b.len() == FRAME_LEN
    &&& (c > 0 ==> open_at(s, s.len() - c)
        && b.subrange(0, c) == s.subrange(s.len() - c, s.len() as int))
    &&& (c == 0 ==> forall|p: int| s.len() - (FRAME_LEN - 1) <= p < s.len() ==> !open_at(s, p))
}

proof fn lemma_state_inv(b0: Seq<u8>, s: Seq<u8>)
    requires
        b0.len() == FRAME_LEN,
    ensures
        state_inv(b0, s),
    decreases s.len(),
{
    if s.len() == 0 {
    } else {
        let s0 = s.drop_last();
        lemma_state_inv(b0, s0);
        let byte = s.last();
        let c0 = cursor_from(0, s0);
        let b0s = buf_from(0, b0, s0);
        let c = cursor_from(0, s);
        let b = buf_from(0, b0, s);
        let n = s.len() as int;
        assert(s0.len() == n - 1);
        assert(forall|j: int| 0 <= j < n - 1 ==> s0[j] == s[j]);
        if byte == START_BYTE {
            assert(c == 1);
            assert(open_at(s, n - 1));
            assert(b.subrange(0, 1) =~= s.subrange(n - 1, n));
        } else if c0 == 0 {
            assert(c == 0);
            assert forall|p: int| n - (FRAME_LEN - 1) <= p < n implies !open_at(s, p) by {
                if open_at(s, p) {
                    if p == n - 1 {
                        assert(s[p] != START_BYTE);
                    } else {
                        assert forall|j: int| p < j < n - 1 implies s0[j] != START_BYTE by {
                            assert(s[j] != START_BYTE);
                        }
                        assert(open_at(s0, p));
                        assert(s0.len() - (FRAME_LEN - 1) <= p < s0.len());
                    }
                }
            }
        } else if c0 < FRAME_LEN - 1 {
            assert(c == c0 + 1);
            assert(open_at(s0, n - 1 - c0));
            assert forall|j: int| (n - c) < j < n implies s[j] != START_BYTE by {
                if j < n - 1 {
                    assert(s0[j] != START_BYTE);
                }
            }
            assert(open_at(s, n - c));
            let lo = n - c;
            assert(b == b0s.update(c0, byte));
            assert(b0s.subrange(0, c0) == s0.subrange(n - 1 - c0, n - 1));
            assert forall|k: int| 0 <= k < c implies b.subrange(0, c)[k] == s.subrange(lo, n)[k] by {
                if k < c0 {
                    assert(b0s.subrange(0, c0)[k] == s0.subrange(n - 1 - c0, n - 1)[k]);
                    assert(b[k] == b0s[k]);
                    assert(s.subrange(lo, n)[k] == s[lo + k]);
                } else {
                    assert(b[k] == byte);
                    assert(s.subrange(lo, n)[k] == s[n - 1]);
                }
            }
            assert(b.subrange(0, c) =~= s.subrange(lo, n));
        } else {
            // c0 == FRAME_LEN - 1 and the byte is no marker: a frame completes
            assert(c == 0);
            assert(open_at(s0, n - 1 - c0));
            assert forall|p: int| n - (FRAME_LEN - 1) <= p < n implies !open_at(s, p) by {
                if open_at(s, p) {
                    if p == n - 1 {
                        assert(s[p] != START_BYTE);
                    } else {
                        assert(n - 1 - c0 < p < n - 1);
                        assert(s0[p] != START_BYTE);
                        assert(s[p] == s0[p]);
                    }
                }
            }
        }
    }
}

/// The framing law: a fresh receiver fed any byte stream completes a frame
/// at a position exactly when that position is a frame boundary — a start
/// marker followed by exactly `FRAME_LEN - 1` further bytes with no
/// intervening start marker — and the frame it completes is precisely that
/// window of the stream.
pub proof fn lemma_framing(s: Seq<u8>, i: int)
    requires
        0 <= i < s.len(),
    ensures
        emits_at(s, i) <==> frame_boundary(s, i),
        emits_at(s, i) ==> frame_at(s, i) == s.subrange(i - (FRAME_LEN - 1), i + 1),
{
    let t = s.take(i);
    lemma_state_inv(init_buf(), t);
    let c = cursor_from(0, t);
    let b = buf_from(0, init_buf(), t);
    assert(t.len() == i);
    assert(forall|j: int| 0 <= j < i ==> t[j] == s[j]);
    if emits_at(s, i) {
        assert(c == FRAME_LEN - 1);
        assert(open_at(t, i - (FRAME_LEN - 1)));
        assert(s[i - (FRAME_LEN - 1)] == START_BYTE);
        assert forall|j: int| i - (FRAME_LEN - 2) <= j <= i implies s[j] != START_BYTE by {
            if j < i {
                assert(t[j] != START_BYTE);
            }
        }
        assert(frame_boundary(s, i));
        let lo = i - (FRAME_LEN - 1);
        assert(b.subrange(0, FRAME_LEN - 1) == t.subrange(lo, i));
        let fr = frame_at(s, i);
        assert(fr == b.update(FRAME_LEN - 1, s[i]));
        assert forall|k: int| 0 <= k < FRAME_LEN implies fr[k] == s.subrange(lo, i + 1)[k] by {
            if k < FRAME_LEN - 1 {
                assert(b.subrange(0, FRAME_LEN - 1)[k] == t.subrange(lo, i)[k]);
                assert(fr[k] == b[k]);
                assert(t.subrange(lo, i)[k] == t[lo + k]);
            } else {
                assert(fr[k] == s[i]);
            }
        }
        assert(fr =~= s.subrange(lo, i + 1));
    }
    if frame_boundary(s, i) {
        let lo = i - (FRAME_LEN - 1);
        assert(s[i] != START_BYTE);
        assert(open_at(t, lo)) by {
            assert(t[lo] == s[lo]);
            assert forall|j: int| lo < j < i implies t[j] != START_BYTE by {
                assert(i - (FRAME_LEN - 2) <= j <= i);
                assert(s[j] != START_BYTE);
            }
        }
        if c == 0 {
            assert(!open_at(t, lo));
            assert(false);
        } else if c < FRAME_LEN - 1 {
            assert(open_at(t, i - c));
            assert(s[i - c] == START_BYTE);
            assert(i - (FRAME_LEN - 2) <= i - c <= i);
            assert(false);
        }
        assert(c == FRAME_LEN - 1);
        assert(emits_at(s, i));
    }
}

/// The windows of `s` that end at a frame boundary, in order: what the
/// framing discipline says a receiver must deliver.
pub open spec fn boundary_windows(s: Seq<u8>) -> Seq<Seq<u8>>
    decreases s.len(),
{
    if s.len() == 0 {
        Seq::empty()
    } else if frame_boundary(s, s.len() - 1) {
        boundary_windows(s.drop_last()).push(
            s.subrange(s.len() - FRAME_LEN, s.len() as int),
        )
    } else {
        boundary_windows(s.drop_last())
    }
}

/// The framing law over a whole stream: a fresh receiver delivers exactly
/// the boundary windows of the stream, in order — no frame besides those,
/// none of those missed, and each with exactly the window's bytes.
pub proof fn lemma_frames_are_boundary_windows(s: Seq<u8>)
    ensures
        frames_from(0, init_buf(), s) == boundary_windows(s),
    decreases s.len(),
{
    if s.len() == 0 {
    } else {
        let s0 = s.drop_last();
        let n = s.len() as int;
        lemma_frames_are_boundary_windows(s0);
        assert(s.take(n - 1) =~= s0);
        lemma_framing(s, n - 1);
        assert(step_emits(cursor_from(0, s0), s.last()) == emits_at(s, n - 1));
        if emits_at(s, n - 1) {
            assert(buf_from(0, init_buf(), s) == frame_at(s, n - 1));
        }
    }
}

// --- The executable receiver ---

/// Byte-level state machine assembling fixed-length command frames from a
/// byte stream, with start-marker resynchronization. It depends on no byte
/// source: bytes are handed in one at a time, so the receiving (interrupt)
/// context owns it exclusively and any byte sequence can drive it.
pub struct FrameReceiver {
    buf: ControlFrame,
    cursor: usize,
}

impl FrameReceiver {
    #[verifier::type_invariant]
    spec fn inv(self) -> bool {
        self.cursor < FRAME_LEN
    }

    /// The cursor: how many bytes of the open frame are already stored.
    pub closed spec fn cursor_spec(self) -> int {
        self.cursor as int
    }

    /// The partial buffer.
    pub closed spec fn buf_spec(self) -> Seq<u8> {
        self.buf@
    }

    /// A fresh receiver: seeking a start marker, buffer cleared.
    pub fn new() -> (r: Self)
        ensures
            r.cursor_spec() == 0,
            r.buf_spec() == init_buf(),
    {
        let r = FrameReceiver { buf: [0u8, 0u8, 0u8, 0u8, 0u8, 0u8], cursor: 0 };
        proof {
            assert(r.buf@ =~= init_buf());
        }
        r
    }

    /// Handles one received byte, returning the completed frame if this
    /// byte finished one. Read errors of the byte source never reach this
    /// function: on a missed read the caller simply does not call it, and
    /// the partial frame stands untouched for the next attempt.
    pub fn push_byte(&mut self, byte: u8) -> (r: Option<ControlFrame>)
        ensures
            final(self).cursor_spec() == next_cursor(old(self).cursor_spec(), byte),
            final(self).buf_spec() == next_buf(old(self).cursor_spec(), old(self).buf_spec(), byte),
            r.is_some() == step_emits(old(self).cursor_spec(), byte),
            r matches Some(f) ==> f@ == final(self).buf_spec(),
    {
        proof {
            use_type_invariant(&*self);
        }
        if self.cursor == 0 && byte != START_BYTE {
            // not aligned: discard bytes until a start marker arrives
            return None;
        }
        // a start marker forces resynchronization, even mid-frame
        let at: usize = if byte == START_BYTE {
            0
        } else {
            self.cursor
        };
        self.buf[at] = byte;
        if at == FRAME_LEN - 1 {
            // a whole frame is assembled
            self.cursor = 0;
            Some(self.buf)
        } else {
            self.cursor = at + 1;
            None
        }
    }

    /// Feeds a whole byte sequence, collecting every frame completed along
    /// the way, in order.
    pub fn feed(&mut self, bytes: &Vec<u8>) -> (frames: Vec<ControlFrame>)
        ensures
            final(self).cursor_spec() == cursor_from(old(self).cursor_spec(), bytes@),
            final(self).buf_spec() == buf_from(
                old(self).cursor_spec(),
                old(self).buf_spec(),
                bytes@,
            ),
            frames@.map_values(|f: ControlFrame| f@) == frames_from(
                old(self).cursor_spec(),
                old(self).buf_spec(),
                bytes@,
            ),
    {
        let ghost c0: int = self.cursor_spec();
        let ghost b0: Seq<u8> = self.buf_spec();
        let mut frames: Vec<ControlFrame> = Vec::new();
        let mut k: usize = 0;
        while k < bytes.len()
            invariant
                k <= bytes.len(),
                self.cursor_spec() == cursor_from(c0, bytes@.take(k as int)),
                self.buf_spec() == buf_from(c0, b0, bytes@.take(k as int)),
                frames@.map_values(|f: ControlFrame| f@) == frames_from(
                    c0,
                    b0,
                    bytes@.take(k as int),
                ),
            decreases bytes.len() - k,
        {
            let ghost prefix: Seq<u8> = bytes@.take(k as int);
            let ghost done: Seq<Seq<u8>> = frames@.map_values(|f: ControlFrame| f@);
            let b = bytes[k];
            let r = self.push_byte(b);
            proof {
                assert(bytes@.take(k as int + 1).drop_last() =~= prefix);
                assert(bytes@.take(k as int + 1).last() == b);
            }
            if let Some(f) = r {
                frames.push(f);
                proof {
                    assert(frames@.map_values(|fr: ControlFrame| fr@) =~= done.push(f@));
                }
            }
            k = k + 1;
        }
        proof {
            assert(bytes@.take(bytes@.len() as int) =~= bytes@);
        }
        frames
    }
}

} // verus!
