//! Server-Sent-Event reassembly.
//!
//! Upstream bytes arrive at arbitrary chunk boundaries.  An SSE frame ends at
//! a blank line, i.e. at the byte pair `\n\n`.  The reassembler appends each
//! chunk to a buffer and drains every complete frame out of it; the buffer
//! only ever retains the unterminated tail of the stream.  The payload of a
//! frame is what follows `"data: "` on each of its lines.

use vstd::prelude::*;

verus! {

/// A frame delimiter (blank line) starts at index `i`.
pub open spec fn spec_delim_at(b: Seq<u8>, i: int) -> bool {
    0 <= i && i + 2 <= b.len() && b[i] == 10 && b[i + 1] == 10
}

/// Index of the first frame delimiter, if any.
pub open spec fn spec_find_delim(b: Seq<u8>) -> Option<int>
    decreases b.len(),
{
    if b.len() < 2 {
        None
    } else if b[0] == 10 && b[1] == 10 {
        Some(0)
    } else {
        match spec_find_delim(b.drop_first()) {
            Some(i) => Some(i + 1),
            None => None,
        }
    }
}

pub proof fn lemma_find_delim_props(b: Seq<u8>)
    ensures
        match spec_find_delim(b) {
            Some(i) => spec_delim_at(b, i) && (forall|k: int|
                0 <= k < i ==> !spec_delim_at(b, k)),
            None => forall|k: int| !spec_delim_at(b, k),
        },
    decreases b.len(),
{
    if b.len() < 2 {
        assert forall|k: int| !spec_delim_at(b, k) by {}
    } else if b[0] == 10 && b[1] == 10 {
    } else {
        lemma_find_delim_props(b.drop_first());
        assert forall|k: int| spec_delim_at(b.drop_first(), k) == spec_delim_at(b, k + 1) by {
            if 0 <= k && k + 2 <= b.drop_first().len() {
                assert(b.drop_first()[k] == b[k + 1]);
                assert(b.drop_first()[k + 1] == b[k + 2]);
            }
        }
        match spec_find_delim(b.drop_first()) {
            Some(i) => {
                assert(spec_delim_at(b, i + 1));
                assert forall|k: int| 0 <= k < i + 1 implies !spec_delim_at(b, k) by {
                    if k == 0 {
                        assert(!(b[0] == 10 && b[1] == 10));
                    } else {
                        assert(!spec_delim_at(b.drop_first(), k - 1));
                    }
                }
            },
            None => {
                assert forall|k: int| !spec_delim_at(b, k) by {
                    if k == 0 {
                        assert(!(b[0] == 10 && b[1] == 10));
                    } else if k > 0 {
                        assert(!spec_delim_at(b.drop_first(), k - 1));
                    }
                }
            },
        }
    }
}

pub proof fn lemma_find_delim_first(b: Seq<u8>, i: int)
    requires
        spec_delim_at(b, i),
        forall|k: int| 0 <= k < i ==> !spec_delim_at(b, k),
    ensures
        spec_find_delim(b) == Some(i),
    decreases b.len(),
{
    if i == 0 {
    } else {
        assert(!spec_delim_at(b, 0));
        assert(spec_delim_at(b.drop_first(), i - 1)) by {
            assert(b.drop_first()[i - 1] == b[i]);
            assert(b.drop_first()[i] == b[i + 1]);
        }
        assert forall|k: int| 0 <= k < i - 1 implies !spec_delim_at(b.drop_first(), k) by {
            assert(b.drop_first()[k] == b[k + 1]);
            assert(b.drop_first()[k + 1] == b[k + 2]);
            assert(!spec_delim_at(b, k + 1));
        }
        lemma_find_delim_first(b.drop_first(), i - 1);
    }
}

/// The complete frames at the front of `b`, each including its `\n\n` end.
pub open spec fn spec_frames(b: Seq<u8>) -> Seq<Seq<u8>>
    decreases b.len(),
    via spec_frames_dec
{
    match spec_find_delim(b) {
        Some(i) => seq![b.take(i + 2)] + spec_frames(b.skip(i + 2)),
        None => Seq::empty(),
    }
}

#[via_fn]
proof fn spec_frames_dec(b: Seq<u8>) {
    lemma_find_delim_props(b);
}

/// What remains of `b` after every complete frame: the unterminated tail.
pub open spec fn spec_tail(b: Seq<u8>) -> Seq<u8>
    decreases b.len(),
    via spec_tail_dec
{
    match spec_find_delim(b) {
        Some(i) => spec_tail(b.skip(i + 2)),
        None => b,
    }
}

#[via_fn]
proof fn spec_tail_dec(b: Seq<u8>) {
    lemma_find_delim_props(b);
}

/// The tail never holds a delimiter, so it never holds a complete frame.
pub proof fn lemma_tail_no_delim(b: Seq<u8>)
    ensures
        spec_find_delim(spec_tail(b)) is None,
    decreases b.len(),
{
    lemma_find_delim_props(b);
    match spec_find_delim(b) {
        Some(i) => {
            lemma_tail_no_delim(b.skip(i + 2));
        },
        None => {},
    }
}

/// Chunk boundaries do not matter: handing the stream over in two pieces
/// yields the frames of the whole, with the same tail carried across.
pub proof fn lemma_stream_split(x: Seq<u8>, y: Seq<u8>)
    ensures
        spec_frames(x + y) == spec_frames(x) + spec_frames(spec_tail(x) + y),
        spec_tail(x + y) == spec_tail(spec_tail(x) + y),
    decreases x.len(),
{
    lemma_find_delim_props(x);
    match spec_find_delim(x) {
        None => {
            assert(spec_frames(x) == Seq::<Seq<u8>>::empty());
            assert(spec_tail(x) == x);
            assert(spec_frames(x + y) =~= spec_frames(x) + spec_frames(spec_tail(x) + y));
        },
        Some(i) => {
            assert(spec_delim_at(x + y, i)) by {
                assert((x + y)[i] == x[i]);
                assert((x + y)[i + 1] == x[i + 1]);
            }
            assert forall|k: int| 0 <= k < i implies !spec_delim_at(x + y, k) by {
                assert((x + y)[k] == x[k]);
                assert((x + y)[k + 1] == x[k + 1]);
                assert(!spec_delim_at(x, k));
            }
            lemma_find_delim_first(x + y, i);
            assert((x + y).take(i + 2) =~= x.take(i + 2));
            assert((x + y).skip(i + 2) =~= x.skip(i + 2) + y);
            lemma_stream_split(x.skip(i + 2), y);
            assert(spec_frames(x + y) =~= spec_frames(x) + spec_frames(spec_tail(x) + y));
        },
    }
}

/// Index of the first frame delimiter in a buffer.
fn find_delim(buf: &Vec<u8>) -> (r: Option<usize>)
    ensures
        match r {
            Some(i) => spec_find_delim(buf@) == Some(i as int),
            None => spec_find_delim(buf@) is None,
        },
{
    let n = buf.len();
    if n < 2 {
        proof {
            lemma_find_delim_props(buf@);
            if spec_find_delim(buf@) is Some {
                assert(spec_delim_at(buf@, spec_find_delim(buf@).unwrap()));
            }
        }
        return None;
    }
    let mut i: usize = 0;
    while i < n - 1
        invariant
            n == buf@.len(),
            2 <= n,
            i <= n - 1,
            forall|k: int| 0 <= k < i ==> !spec_delim_at(buf@, k),
        decreases n - i,
    {
        if buf[i] == 10 && buf[i + 1] == 10 {
            proof {
                lemma_find_delim_first(buf@, i as int);
            }
            return Some(i);
        }
        i = i + 1;
    }
    proof {
        assert forall|k: int| !spec_delim_at(buf@, k) by {
            if 0 <= k && k + 2 <= buf@.len() {
                assert(!spec_delim_at(buf@, k));
            }
        }
        lemma_find_delim_props(buf@);
        if spec_find_delim(buf@) is Some {
            assert(spec_delim_at(buf@, spec_find_delim(buf@).unwrap()));
        }
    }
    None
}

/// Buffers the upstream byte stream and hands out complete frames.
pub struct SseReassembler {
    buf: Vec<u8>,
}

impl SseReassembler {
    /// The unterminated tail retained between chunks.
    pub closed spec fn pending(self) -> Seq<u8> {
        self.buf@
    }

    /// The buffer never holds a complete, undispatched frame.
    pub closed spec fn wf(self) -> bool {
        spec_find_delim(self.buf@) is None
    }

    pub fn new() -> (r: Self)
        ensures
            r.wf(),
            r.pending() == Seq::<u8>::empty(),
    {
        let r = SseReassembler { buf: Vec::new() };
        proof {
            assert(spec_find_delim(r.buf@) is None);
        }
        r
    }

    /// Take in one chunk and return every frame completed by it, in order.
    #[verifier::loop_isolation(false)]
    pub fn push_chunk(&mut self, chunk: &[u8]) -> (frames: Vec<Vec<u8>>)
        requires
            old(self).wf(),
        ensures
            final(self).wf(),
            frames@.map_values(|f: Vec<u8>| f@) == spec_frames(old(self).pending() + chunk@),
            final(self).pending() == spec_tail(old(self).pending() + chunk@),
    {
        self.buf.extend_from_slice(chunk);
        proof {
            assert(self.buf@ =~= old(self).pending() + chunk@);
        }
        let ghost total = self.buf@;
        let mut frames: Vec<Vec<u8>> = Vec::new();
        let mut m = find_delim(&self.buf);
        proof {
            assert(frames@.map_values(|f: Vec<u8>| f@) + spec_frames(self.buf@) =~= spec_frames(
                total,
            ));
        }
        while m.is_some()
            invariant
                match m {
                    Some(i) => spec_find_delim(self.buf@) == Some(i as int),
                    None => spec_find_delim(self.buf@) is None,
                },
                spec_frames(total) == frames@.map_values(|f: Vec<u8>| f@) + spec_frames(
                    self.buf@,
                ),
                spec_tail(total) == spec_tail(self.buf@),
            decreases self.buf@.len(),
        {
            let i = m.unwrap();
            let blen = self.buf.len();
            proof {
                lemma_find_delim_props(self.buf@);
                assert(spec_delim_at(self.buf@, i as int));
                assert(i as int + 2 <= blen);
            }
            let ghost before = self.buf@;
            let mut rest = self.buf.split_off(i + 2);
            core::mem::swap(&mut self.buf, &mut rest);
            frames.push(rest);
            proof {
                assert(rest@ =~= before.take(i + 2));
                assert(self.buf@ =~= before.skip(i + 2));
                assert(frames@.map_values(|f: Vec<u8>| f@) =~= frames@.drop_last().map_values(
                    |f: Vec<u8>| f@,
                ).push(before.take(i + 2)));
                assert(spec_frames(before) == seq![before.take(i + 2)] + spec_frames(
                    before.skip(i + 2),
                ));
                assert(spec_frames(total) =~= frames@.map_values(|f: Vec<u8>| f@) + spec_frames(
                    self.buf@,
                ));
            }
            m = find_delim(&self.buf);
        }
        proof {
            assert(spec_frames(self.buf@) == Seq::<Seq<u8>>::empty());
            assert(frames@.map_values(|f: Vec<u8>| f@) =~= spec_frames(total));
        }
        frames
    }
}

/// Index of the first newline byte, if any.
pub open spec fn spec_find_nl(b: Seq<u8>) -> Option<int>
    decreases b.len(),
{
    if b.len() == 0 {
        None
    } else if b[0] == 10 {
        Some(0)
    } else {
        match spec_find_nl(b.drop_first()) {
            Some(i) => Some(i + 1),
            None => None,
        }
    }
}

proof fn lemma_find_nl_props(b: Seq<u8>)
    ensures
        match spec_find_nl(b) {
            Some(i) => 0 <= i < b.len() && b[i] == 10 && (forall|k: int|
                0 <= k < i ==> b[k] != 10),
            None => forall|k: int| 0 <= k < b.len() ==> b[k] != 10,
        },
    decreases b.len(),
{
    if b.len() == 0 {
    } else if b[0] == 10 {
    } else {
        lemma_find_nl_props(b.drop_first());
        assert(forall|k: int|
            0 <= k < b.drop_first().len() ==> b.drop_first()[k] == b[k + 1]);
        match spec_find_nl(b.drop_first()) {
            Some(i) => {
                assert(b[i + 1] == b.drop_first()[i]);
                assert forall|k: int| 0 <= k < i + 1 implies b[k] != 10 by {
                    if k > 0 {
                        assert(b.drop_first()[k - 1] != 10);
                    }
                }
            },
            None => {
                assert forall|k: int| 0 <= k < b.len() implies b[k] != 10 by {
                    if k > 0 {
                        assert(b.drop_first()[k - 1] != 10);
                    }
                }
            },
        }
    }
}

proof fn lemma_find_nl_first(b: Seq<u8>, i: int)
    requires
        0 <= i < b.len(),
        b[i] == 10,
        forall|k: int| 0 <= k < i ==> b[k] != 10,
    ensures
        spec_find_nl(b) == Some(i),
    decreases b.len(),
{
    if i > 0 {
        lemma_find_nl_first(b.drop_first(), i - 1);
    }
}

/// A frame's lines, split on newline bytes; a trailing newline yields a final
/// empty line, as slice splitting does.
pub open spec fn spec_split_lines(b: Seq<u8>) -> Seq<Seq<u8>>
    decreases b.len(),
    via spec_split_lines_dec
{
    match spec_find_nl(b) {
        Some(i) => seq![b.take(i)] + spec_split_lines(b.skip(i + 1)),
        None => seq![b],
    }
}

#[via_fn]
proof fn spec_split_lines_dec(b: Seq<u8>) {
    lemma_find_nl_props(b);
}

/// The bytes of `"data: "`.
pub open spec fn spec_data_prefix() -> Seq<u8> {
    seq![100u8, 97u8, 116u8, 97u8, 58u8, 32u8]
}

pub open spec fn spec_is_data_line(l: Seq<u8>) -> bool {
    l.len() >= 6 && l.take(6) == spec_data_prefix()
}

/// The payloads of a line list: what follows `"data: "` on each data line.
pub open spec fn spec_payloads_of_lines(ls: Seq<Seq<u8>>) -> Seq<Seq<u8>>
    decreases ls.len(),
{
    if ls.len() == 0 {
        Seq::empty()
    } else {
        (if spec_is_data_line(ls[0]) {
            seq![ls[0].skip(6)]
        } else {
            Seq::empty()
        }) + spec_payloads_of_lines(ls.drop_first())
    }
}

/// The payloads carried by one frame.
pub open spec fn spec_frame_payloads(b: Seq<u8>) -> Seq<Seq<u8>> {
    spec_payloads_of_lines(spec_split_lines(b))
}

/// First newline at or after `start`.
fn find_nl_from(b: &Vec<u8>, start: usize) -> (r: Option<usize>)
    requires
        start <= b@.len(),
    ensures
        match r {
            Some(j) => start <= j < b@.len() && b@[j as int] == 10 && (forall|k: int|
                start <= k < j ==> b@[k] != 10),
            None => forall|k: int| start <= k < b@.len() ==> b@[k] != 10,
        },
{
    let n = b.len();
    let mut j = start;
    while j < n
        invariant
            n == b@.len(),
            start <= j <= n,
            forall|k: int| start <= k < j ==> b@[k] != 10,
        decreases n - j,
    {
        if b[j] == 10 {
            return Some(j);
        }
        j = j + 1;
    }
    None
}

/// Split a frame into its lines.
#[verifier::loop_isolation(false)]
fn split_lines(b: &Vec<u8>) -> (lines: Vec<Vec<u8>>)
    ensures
        lines@.map_values(|l: Vec<u8>| l@) == spec_split_lines(b@),
{
    let n = b.len();
    let mut lines: Vec<Vec<u8>> = Vec::new();
    let mut start: usize = 0;
    let mut fin = false;
    proof {
        assert(b@.skip(0) =~= b@);
    }
    while !fin
        invariant
            start <= n,
            !fin ==> spec_split_lines(b@) == lines@.map_values(|l: Vec<u8>| l@)
                + spec_split_lines(b@.skip(start as int)),
            fin ==> lines@.map_values(|l: Vec<u8>| l@) == spec_split_lines(b@),
        decreases n - start + (if fin {
            0int
        } else {
            1int
        }),
    {
        let ghost rest = b@.skip(start as int);
        match find_nl_from(b, start) {
            Some(j) => {
                proof {
                    assert(rest[j - start] == b@[j as int]);
                    assert forall|k: int| 0 <= k < j - start implies rest[k] != 10 by {
                        assert(rest[k] == b@[start + k]);
                    }
                    lemma_find_nl_first(rest, j - start);
                }
                let line = vstd::slice::slice_to_vec(
                    vstd::slice::slice_subrange(b.as_slice(), start, j),
                );
                lines.push(line);
                proof {
                    assert(rest.take(j - start) =~= b@.subrange(start as int, j as int));
                    assert(rest.skip(j - start + 1) =~= b@.skip(j + 1));
                    assert(spec_split_lines(rest) == seq![rest.take(j - start)]
                        + spec_split_lines(rest.skip(j - start + 1)));
                    assert(lines@.map_values(|l: Vec<u8>| l@) =~= lines@.drop_last().map_values(
                        |l: Vec<u8>| l@,
                    ).push(line@));
                    assert(spec_split_lines(b@) =~= lines@.map_values(|l: Vec<u8>| l@)
                        + spec_split_lines(b@.skip(j + 1)));
                }
                start = j + 1;
            },
            None => {
                proof {
                    assert forall|k: int| 0 <= k < rest.len() implies rest[k] != 10 by {
                        assert(rest[k] == b@[start + k]);
                    }
                    lemma_find_nl_props(rest);
                    if spec_find_nl(rest) is Some {
                        assert(rest[spec_find_nl(rest).unwrap()] == 10);
                    }
                    assert(spec_split_lines(rest) == seq![rest]);
                }
                let line = vstd::slice::slice_to_vec(
                    vstd::slice::slice_subrange(b.as_slice(), start, n),
                );
                lines.push(line);
                proof {
                    assert(line@ =~= rest);
                    assert(lines@.map_values(|l: Vec<u8>| l@) =~= lines@.drop_last().map_values(
                        |l: Vec<u8>| l@,
                    ).push(line@));
                    assert(lines@.map_values(|l: Vec<u8>| l@) =~= spec_split_lines(b@));
                }
                fin = true;
            },
        }
    }
    lines
}

fn is_data_line(l: &Vec<u8>) -> (r: bool)
    ensures
        r == spec_is_data_line(l@),
{
    if l.len() >= 6 && l[0] == 100 && l[1] == 97 && l[2] == 116 && l[3] == 97 && l[4] == 58
        && l[5] == 32 {
        proof {
            assert(l@.take(6) =~= spec_data_prefix());
        }
        true
    } else {
        proof {
            if l@.len() >= 6 && l@.take(6) == spec_data_prefix() {
                assert(l@[0] == l@.take(6)[0]);
                assert(l@[1] == l@.take(6)[1]);
                assert(l@[2] == l@.take(6)[2]);
                assert(l@[3] == l@.take(6)[3]);
                assert(l@[4] == l@.take(6)[4]);
                assert(l@[5] == l@.take(6)[5]);
            }
        }
        false
    }
}

/// Extract the `data:` payloads of one frame, in order.
#[verifier::loop_isolation(false)]
pub fn frame_payloads(frame: &Vec<u8>) -> (ps: Vec<Vec<u8>>)
    ensures
        ps@.map_values(|p: Vec<u8>| p@) == spec_frame_payloads(frame@),
{
    let lines = split_lines(frame);
    let mut ps: Vec<Vec<u8>> = Vec::new();
    let n = lines.len();
    let mut i: usize = 0;
    proof {
        assert(lines@.map_values(|l: Vec<u8>| l@).skip(0) =~= lines@.map_values(
            |l: Vec<u8>| l@,
        ));
    }
    while i < n
        invariant
            i <= n,
            n == lines@.len(),
            spec_frame_payloads(frame@) == ps@.map_values(|p: Vec<u8>| p@)
                + spec_payloads_of_lines(lines@.map_values(|l: Vec<u8>| l@).skip(i as int)),
        decreases n - i,
    {
        let ghost lviews = lines@.map_values(|l: Vec<u8>| l@);
        proof {
            assert(lviews.skip(i as int)[0] == lviews[i as int]);
            assert(lviews.skip(i as int).drop_first() =~= lviews.skip(i + 1));
        }
        let line = &lines[i];
        if is_data_line(line) {
            let ll = line.len();
            let p = vstd::slice::slice_to_vec(vstd::slice::slice_subrange(line.as_slice(), 6, ll));
            ps.push(p);
            proof {
                assert(p@ =~= lviews[i as int].skip(6));
                assert(ps@.map_values(|q: Vec<u8>| q@) =~= ps@.drop_last().map_values(
                    |q: Vec<u8>| q@,
                ).push(p@));
                assert(spec_frame_payloads(frame@) =~= ps@.map_values(|q: Vec<u8>| q@)
                    + spec_payloads_of_lines(lviews.skip(i + 1)));
            }
        } else {
            proof {
                assert(spec_frame_payloads(frame@) =~= ps@.map_values(|q: Vec<u8>| q@)
                    + spec_payloads_of_lines(lviews.skip(i + 1)));
            }
        }
        i = i + 1;
    }
    proof {
        assert(spec_frame_payloads(frame@) =~= ps@.map_values(|p: Vec<u8>| p@));
    }
    ps
}

/// The bytes of the `"[DONE]"` sentinel payload.
pub open spec fn spec_done_payload() -> Seq<u8> {
    seq![91u8, 68u8, 79u8, 78u8, 69u8, 93u8]
}

/// Whether a payload is the terminal `[DONE]` sentinel.
pub fn is_done_payload(p: &Vec<u8>) -> (r: bool)
    ensures
        r == (p@ == spec_done_payload()),
{
    if p.len() == 6 && p[0] == 91 && p[1] == 68 && p[2] == 79 && p[3] == 78 && p[4] == 69 && p[5]
        == 93 {
        proof {
            assert(p@ =~= spec_done_payload());
        }
        true
    } else {
        proof {
            if p@ == spec_done_payload() {
                assert(p@[0] == 91u8);
                assert(p@[1] == 68u8);
                assert(p@[2] == 79u8);
                assert(p@[3] == 78u8);
                assert(p@[4] == 69u8);
                assert(p@[5] == 93u8);
            }
        }
        false
    }
}

} // verus!
