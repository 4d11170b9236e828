//! The transport codec: turns the raw byte stream into complete,
//! newline-terminated frames, buffering partial reads, and says how an
//! encoded packet travels as exactly one frame.

use vstd::prelude::*;
use crate::json::{no_nl, JValM, jval_wf, print_jval, lemma_print_no_nl};

verus! {

/// Index of the first newline at or after `i`, or the length when none.
pub open spec fn first_nl(s: Seq<u8>, i: int) -> int
    decreases s.len() - i,
{
    if i < 0 || i >= s.len() {
        s.len() as int
    } else if s[i] == 10 {
        i
    } else {
        first_nl(s, i + 1)
    }
}

/// One frame's payload: the bytes before the delimiter, less one
/// trailing carriage return.
pub open spec fn trim_cr(f: Seq<u8>) -> Seq<u8> {
    if f.len() > 0 && f.last() == 13 {
        f.drop_last()
    } else {
        f
    }
}

/// Splits a byte stream into its complete frames and the residue after
/// the last delimiter.
pub open spec fn split_frames(s: Seq<u8>) -> (Seq<Seq<u8>>, Seq<u8>)
    decreases s.len(),
{
    let j = first_nl(s, 0);
    if j < 0 || j >= s.len() {
        (Seq::<Seq<u8>>::empty(), s)
    } else {
        let (rest_frames, rem) = split_frames(s.subrange(j + 1, s.len() as int));
        (seq![trim_cr(s.subrange(0, j))] + rest_frames, rem)
    }
}

proof fn lemma_first_nl_bounds(s: Seq<u8>, i: int)
    requires
        0 <= i <= s.len(),
    ensures
        i <= first_nl(s, i) <= s.len(),
        first_nl(s, i) < s.len() ==> s[first_nl(s, i)] == 10,
        forall|j: int| i <= j < first_nl(s, i) ==> s[j] != 10,
    decreases s.len() - i,
{
    if i < s.len() && s[i] != 10 {
        lemma_first_nl_bounds(s, i + 1);
    }
}

/// A stream without delimiters splits into no frames and itself.
proof fn lemma_split_no_nl(s: Seq<u8>)
    requires
        no_nl(s),
    ensures
        split_frames(s) == (Seq::<Seq<u8>>::empty(), s),
    decreases s.len(),
{
    lemma_first_nl_bounds(s, 0);
    if first_nl(s, 0) < s.len() {
        assert(s[first_nl(s, 0)] == 10);
    }
}

/// An encoded packet (its JSON text and the CR LF terminator) appended
/// to a delimiter-free stream splits into exactly the earlier text plus
/// one frame holding the JSON text, with nothing left over.
pub proof fn lemma_wire_framing(v: JValM)
    requires
        jval_wf(v),
    ensures
        split_frames(print_jval(v) + seq![13u8, 10u8]) == (
            seq![print_jval(v)],
            Seq::<u8>::empty(),
        ),
{
    lemma_print_no_nl(v);
    let p = print_jval(v);
    let s = p + seq![13u8, 10u8];
    assert(s[p.len() as int + 1] == 10);
    assert forall|j: int| 0 <= j < p.len() + 1 implies s[j] != 10 by {
        if j < p.len() {
            assert(s[j] == p[j]);
        } else {
            assert(s[j] == 13);
        }
    }
    lemma_first_nl_bounds(s, 0);
    assert(first_nl(s, 0) == p.len() + 1) by {
        if first_nl(s, 0) < p.len() + 1 {
            assert(s[first_nl(s, 0)] == 10);
        }
    }
    let head = s.subrange(0, p.len() as int + 1);
    assert(head.last() == 13);
    assert(trim_cr(head) =~= p);
    let tail = s.subrange(p.len() as int + 2, s.len() as int);
    assert(tail =~= Seq::<u8>::empty());
    lemma_split_no_nl(tail);
    assert(seq![trim_cr(head)] + Seq::<Seq<u8>>::empty() =~= seq![p]);
}

/// Accumulates incoming bytes and hands out the complete frames.
pub struct FrameBuffer {
    pub buf: Vec<u8>,
}

impl FrameBuffer {
    /// No complete frame ever stays buffered.
    pub open spec fn wf(self) -> bool {
        first_nl(self.buf@, 0) == self.buf@.len()
    }

    pub fn new() -> (r: FrameBuffer)
        ensures
            r.buf@ == Seq::<u8>::empty(),
            r.wf(),
    {
        FrameBuffer { buf: Vec::new() }
    }

    /// Appends `incoming` to the buffered bytes and extracts every
    /// complete frame, trimmed of one trailing carriage return; bytes
    /// after the last delimiter stay buffered for the next call.
    pub fn feed(&mut self, incoming: &[u8]) -> (frames: Vec<Vec<u8>>)
        requires
            old(self).wf(),
        ensures
            ({
                let (fs, rem) = split_frames(old(self).buf@ + incoming@);
                &&& frames@.len() == fs.len()
                &&& (forall|i: int| 0 <= i < fs.len() ==> frames@[i]@ == fs[i])
                &&& final(self).buf@ == rem
            }),
            final(self).wf(),
    {
        let ghost total = self.buf@ + incoming@;
        let mut data: Vec<u8> = Vec::new();
        crate::json::push_bytes(&mut data, self.buf.as_slice());
        crate::json::push_bytes(&mut data, incoming);
        proof {
            assert(data@ =~= total);
        }
        let mut frames: Vec<Vec<u8>> = Vec::new();
        loop
            invariant
                total == old(self).buf@ + incoming@,
                ({
                    let (fs, rem) = split_frames(total);
                    let (fs2, rem2) = split_frames(data@);
                    &&& fs == frames@.map_values(|f: Vec<u8>| f@) + fs2
                    &&& rem == rem2
                }),
            decreases data@.len(),
        {
            let j = scan_nl(&data);
            if j == data.len() {
                proof {
                    let (fs2, rem2) = split_frames(data@);
                    assert(fs2 =~= Seq::<Seq<u8>>::empty());
                    assert(rem2 == data@);
                    assert(split_frames(total).0 =~= frames@.map_values(|f: Vec<u8>| f@));
                }
                self.buf = data;
                proof {
                    lemma_first_nl_bounds(self.buf@, 0);
                }
                return frames;
            }
            let mut frame = subrange_vec(&data, 0, j);
            if frame.len() > 0 && frame[frame.len() - 1] == 13 {
                frame.pop();
            }
            proof {
                assert(frame@ =~= trim_cr(data@.subrange(0, j as int)));
            }
            let rest = subrange_vec(&data, j + 1, data.len());
            let ghost prev = data@;
            let ghost prev_frames = frames@;
            frames.push(frame);
            data = rest;
            proof {
                let (fs2, rem2) = split_frames(prev);
                assert(fs2 == seq![trim_cr(prev.subrange(0, j as int))] + split_frames(
                    prev.subrange(j as int + 1, prev.len() as int),
                ).0);
                assert(frames@.map_values(|f: Vec<u8>| f@) =~= prev_frames.map_values(
                    |f: Vec<u8>| f@,
                ).push(trim_cr(prev.subrange(0, j as int))));
                assert(split_frames(total).0 =~= frames@.map_values(|f: Vec<u8>| f@)
                    + split_frames(data@).0);
            }
        }
    }
}

/// Index of the first newline in `data`, or its length.
fn scan_nl(data: &Vec<u8>) -> (j: usize)
    ensures
        j == first_nl(data@, 0),
        j <= data@.len(),
{
    let mut i: usize = 0;
    while i < data.len()
        invariant
            0 <= i <= data@.len(),
            first_nl(data@, 0) == first_nl(data@, i as int),
        decreases data@.len() - i,
    {
        if data[i] == 10 {
            return i;
        }
        i = i + 1;
    }
    i
}

/// A copy of `s[from..to]`.
fn subrange_vec(s: &Vec<u8>, from: usize, to: usize) -> (r: Vec<u8>)
    requires
        from <= to <= s@.len(),
    ensures
        r@ == s@.subrange(from as int, to as int),
{
    let mut r: Vec<u8> = Vec::new();
    let mut i = from;
    while i < to
        invariant
            from <= i <= to <= s@.len(),
            r@ == s@.subrange(from as int, i as int),
        decreases to - i,
    {
        r.push(s[i]);
        proof {
            assert(s@.subrange(from as int, i as int + 1) =~= s@.subrange(
                from as int,
                i as int,
            ).push(s@[i as int]));
        }
        i = i + 1;
    }
    proof {
        assert(r@ =~= s@.subrange(from as int, to as int));
    }
    r
}

} // verus!
