//! Frame reassembly: lines out of a byte stream that arrives in arbitrary chunks.
//!
//! A line is what stands between two newlines of the stream. What follows the
//! last newline is the fragment: the beginning of a line that has not ended
//! yet. `lines_of` and `tail_of` say what these are for a whole stream;
//! `Reassembler` computes them incrementally and keeps only the fragment.

use vstd::prelude::*;

verus! {

/// The byte that ends a line.
pub const NEWLINE: u8 = 10;

/// Whether `s` holds no newline.
pub open spec fn newline_free(s: Seq<u8>) -> bool {
    forall|i: int| 0 <= i < s.len() ==> #[trigger] s[i] != NEWLINE
}

/// The position of the first newline of `s`, or `s.len()` where it has none.
pub open spec fn first_newline(s: Seq<u8>) -> int
    decreases s.len(),
{
    if s.len() == 0 || s[0] == NEWLINE {
        0
    } else {
        1 + first_newline(s.skip(1))
    }
}

/// The complete lines of `s`, in order and without their newlines: the first
/// is what stands before the first newline, the others are the lines of what
/// follows it.
pub open spec fn lines_of(s: Seq<u8>) -> Seq<Seq<u8>>
    decreases s.len(),
{
    let i = first_newline(s);
    if 0 <= i < s.len() {
        seq![s.take(i)] + lines_of(s.skip(i + 1))
    } else {
        Seq::empty()
    }
}

/// The fragment of `s`: what follows its last newline, all of `s` where it has
/// none.
pub open spec fn tail_of(s: Seq<u8>) -> Seq<u8>
    decreases s.len(),
{
    let i = first_newline(s);
    if 0 <= i < s.len() {
        tail_of(s.skip(i + 1))
    } else {
        s
    }
}

/// `lines` written out again, a newline after each, followed by `tail`.
pub open spec fn join_lines(lines: Seq<Seq<u8>>, tail: Seq<u8>) -> Seq<u8>
    decreases lines.len(),
{
    if lines.len() == 0 {
        tail
    } else {
        lines[0] + seq![NEWLINE] + join_lines(lines.skip(1), tail)
    }
}

/// The views of the lines that a reassembler hands out.
pub open spec fn line_views(lines: Seq<Vec<u8>>) -> Seq<Seq<u8>> {
    Seq::new(lines.len(), |i: int| lines[i]@)
}

/// What `first_newline` finds: a position within `s` before which no newline
/// stands, and at which one stands unless `s` has none.
pub proof fn lemma_first_newline(s: Seq<u8>)
    ensures
        0 <= first_newline(s) <= s.len(),
        newline_free(s.take(first_newline(s))),
        first_newline(s) < s.len() ==> s[first_newline(s)] == NEWLINE,
        newline_free(s) <==> first_newline(s) == s.len(),
    decreases s.len(),
{
    if s.len() == 0 || s[0] == NEWLINE {
    } else {
        let r = s.skip(1);
        lemma_first_newline(r);
        let i = first_newline(r);
        let head = s.take(i + 1);
        assert forall|k: int| 0 <= k < head.len() implies #[trigger] head[k] != NEWLINE by {
            if k > 0 {
                assert(r.take(i)[k - 1] == s[k]);
            }
        }
        if newline_free(s) {
            assert forall|k: int| 0 <= k < r.len() implies #[trigger] r[k] != NEWLINE by {}
        }
        if i == r.len() {
            assert forall|k: int| 0 <= k < s.len() implies #[trigger] s[k] != NEWLINE by {
                if k > 0 {
                    assert(r[k - 1] == s[k]);
                }
            }
        }
    }
}

/// The first newline of `a + b` is that of `a` where `a` has one, and else
/// that of `b`, counted from the start of `a`.
pub proof fn lemma_first_newline_concat(a: Seq<u8>, b: Seq<u8>)
    ensures
        first_newline(a + b) == if first_newline(a) < a.len() {
            first_newline(a)
        } else {
            a.len() + first_newline(b)
        },
    decreases a.len(),
{
    lemma_first_newline(a);
    if a.len() > 0 && a[0] != NEWLINE {
        assert((a + b).skip(1) =~= a.skip(1) + b);
        lemma_first_newline_concat(a.skip(1), b);
        lemma_first_newline(a.skip(1));
    }
}

/// A stream without a newline has no complete line and is its own fragment.
pub proof fn lemma_newline_free(s: Seq<u8>)
    requires
        newline_free(s),
    ensures
        lines_of(s) == Seq::<Seq<u8>>::empty(),
        tail_of(s) == s,
{
    lemma_first_newline(s);
}

/// The fragment never holds a newline, and neither does a line.
pub proof fn lemma_no_newline_left(s: Seq<u8>)
    ensures
        newline_free(tail_of(s)),
        forall|k: int| 0 <= k < lines_of(s).len() ==> newline_free(#[trigger] lines_of(s)[k]),
    decreases s.len(),
{
    lemma_first_newline(s);
    let i = first_newline(s);
    if i < s.len() {
        let rest = s.skip(i + 1);
        lemma_no_newline_left(rest);
        assert forall|k: int| 0 <= k < lines_of(s).len() implies newline_free(
            #[trigger] lines_of(s)[k],
        ) by {
            if k > 0 {
                assert(lines_of(s)[k] == lines_of(rest)[k - 1]);
            }
        }
    }
}

/// Reassembly loses and adds nothing: the lines and the fragment, written out
/// with their newlines, are the stream.
pub proof fn lemma_reassembly_lossless(s: Seq<u8>)
    ensures
        join_lines(lines_of(s), tail_of(s)) == s,
    decreases s.len(),
{
    lemma_first_newline(s);
    let i = first_newline(s);
    if i < s.len() {
        let rest = s.skip(i + 1);
        lemma_reassembly_lossless(rest);
        assert(lines_of(s).skip(1) =~= lines_of(rest));
    }
}

/// What a stream gives when more bytes follow: the lines that `a` had
/// completed stay, and the rest is what the fragment of `a`, followed by `b`,
/// gives.
pub proof fn lemma_lines_concat(a: Seq<u8>, b: Seq<u8>)
    ensures
        lines_of(a + b) == lines_of(a) + lines_of(tail_of(a) + b),
        tail_of(a + b) == tail_of(tail_of(a) + b),
    decreases a.len(),
{
    lemma_first_newline(a);
    lemma_first_newline_concat(a, b);
    let i = first_newline(a);
    if i < a.len() {
        let rest = a.skip(i + 1);
        assert((a + b).take(i) =~= a.take(i));
        assert((a + b).skip(i + 1) =~= rest + b);
        lemma_lines_concat(rest, b);
    }
}

/// One more byte after a stream: a newline completes the fragment as a line,
/// any other byte lengthens the fragment.
pub proof fn lemma_lines_push(s: Seq<u8>, b: u8)
    ensures
        lines_of(s.push(b)) == if b == NEWLINE {
            lines_of(s).push(tail_of(s))
        } else {
            lines_of(s)
        },
        tail_of(s.push(b)) == if b == NEWLINE {
            Seq::<u8>::empty()
        } else {
            tail_of(s).push(b)
        },
{
    let t = tail_of(s);
    let one = seq![b];
    assert(s.push(b) =~= s + one);
    lemma_lines_concat(s, one);
    lemma_no_newline_left(s);
    lemma_first_newline(t);
    lemma_first_newline_concat(t, one);
    lemma_first_newline(t + one);
    if b == NEWLINE {
        let i = first_newline(t + one);
        assert((t + one).take(i) =~= t);
        let nothing = Seq::<u8>::empty();
        assert((t + one).skip(i + 1) =~= nothing);
        assert(lines_of(nothing) =~= Seq::<Seq<u8>>::empty());
        assert(tail_of(nothing) =~= nothing);
    }
}

/// The fragment that a reassembler holds after it has been fed `chunks`, one
/// after another, from the start of a stream.
pub open spec fn fragment_after(chunks: Seq<Seq<u8>>) -> Seq<u8>
    decreases chunks.len(),
{
    if chunks.len() == 0 {
        Seq::empty()
    } else {
        tail_of(fragment_after(chunks.drop_last()) + chunks.last())
    }
}

/// The lines that a reassembler has handed out while it was fed `chunks`, one
/// after another, from the start of a stream: those of the first feed, then
/// those of the second, and so on.
pub open spec fn lines_after(chunks: Seq<Seq<u8>>) -> Seq<Seq<u8>>
    decreases chunks.len(),
{
    if chunks.len() == 0 {
        Seq::empty()
    } else {
        lines_after(chunks.drop_last()) + lines_of(
            fragment_after(chunks.drop_last()) + chunks.last(),
        )
    }
}

/// Every line of a stream that has ended: its complete lines, and after them
/// the fragment, unless it is empty.
pub open spec fn all_lines(stream: Seq<u8>) -> Seq<Seq<u8>> {
    if tail_of(stream).len() > 0 {
        lines_of(stream).push(tail_of(stream))
    } else {
        lines_of(stream)
    }
}

/// Fed chunk by chunk, a reassembler hands out the lines of the whole stream
/// and is left with the fragment of the whole stream.
pub proof fn lemma_feeding_reassembles(chunks: Seq<Seq<u8>>)
    ensures
        lines_after(chunks) == lines_of(chunks.flatten()),
        fragment_after(chunks) == tail_of(chunks.flatten()),
    decreases chunks.len(),
{
    chunks.lemma_flatten_and_flatten_alt_are_equivalent();
    if chunks.len() == 0 {
        lemma_newline_free(Seq::<u8>::empty());
    } else {
        let before = chunks.drop_last();
        before.lemma_flatten_and_flatten_alt_are_equivalent();
        lemma_feeding_reassembles(before);
        lemma_lines_concat(before.flatten(), chunks.last());
    }
}

/// Split invariance: however one stream is cut into chunks, the reassembler
/// hands out the same lines in the same order and is left with the same
/// fragment.
pub proof fn lemma_split_invariance(a: Seq<Seq<u8>>, b: Seq<Seq<u8>>)
    requires
        a.flatten() == b.flatten(),
    ensures
        lines_after(a) == lines_after(b),
        fragment_after(a) == fragment_after(b),
{
    lemma_feeding_reassembles(a);
    lemma_feeding_reassembles(b);
}

/// The cut of `stream` at its line boundaries: one chunk for each complete
/// line, its newline included, and one more for the fragment, unless it is
/// empty.
pub open spec fn cut_by_lines(stream: Seq<u8>) -> Seq<Seq<u8>>
    decreases stream.len(),
{
    let i = first_newline(stream);
    if 0 <= i < stream.len() {
        seq![stream.take(i + 1)] + cut_by_lines(stream.skip(i + 1))
    } else if stream.len() > 0 {
        seq![stream]
    } else {
        Seq::empty()
    }
}

/// The chunks of the cut at the line boundaries, one after another, are the
/// stream.
pub proof fn lemma_cut_by_lines(stream: Seq<u8>)
    ensures
        cut_by_lines(stream).flatten() == stream,
    decreases stream.len(),
{
    lemma_first_newline(stream);
    let i = first_newline(stream);
    let cut = cut_by_lines(stream);
    let nothing = Seq::<Seq<u8>>::empty();
    if i < stream.len() {
        let rest = stream.skip(i + 1);
        lemma_cut_by_lines(rest);
        assert(cut.drop_first() =~= cut_by_lines(rest));
    } else if stream.len() > 0 {
        assert(cut.drop_first() =~= nothing);
        assert(nothing.flatten() =~= Seq::<u8>::empty());
    }
}

/// Any cut of a stream gives what the cut at the line boundaries gives: the
/// same lines in the same order, and the same fragment.
pub proof fn lemma_any_cut_is_as_good(chunks: Seq<Seq<u8>>)
    ensures
        lines_after(chunks) == lines_after(cut_by_lines(chunks.flatten())),
        fragment_after(chunks) == fragment_after(cut_by_lines(chunks.flatten())),
{
    lemma_cut_by_lines(chunks.flatten());
    lemma_split_invariance(chunks, cut_by_lines(chunks.flatten()));
}

/// The frame reassembler: it takes the chunks of a stream as they arrive,
/// hands out each line as soon as its newline has arrived, and keeps the
/// fragment for the next chunk.
pub struct Reassembler {
    fragment: Vec<u8>,
}

impl View for Reassembler {
    type V = Seq<u8>;

    /// The fragment held: the bytes since the last newline.
    closed spec fn view(&self) -> Seq<u8> {
        self.fragment@
    }
}

impl Reassembler {
    /// The fragment held never contains a newline: every line that has ended
    /// has been handed out.
    #[verifier::type_invariant]
    closed spec fn fragment_is_open(&self) -> bool {
        newline_free(self.fragment@)
    }

    /// A reassembler at the start of a stream. `capacity` is a hint: room for so
    /// many bytes of a line is set aside where the memory can be had.
    pub fn new(capacity: usize) -> (r: Reassembler)
        ensures
            r@ == Seq::<u8>::empty(),
    {
        let mut fragment: Vec<u8> = Vec::new();
        let _ = fragment.try_reserve(capacity);
        Reassembler { fragment }
    }

    /// The fragment held: the bytes that have arrived since the last newline.
    pub fn fragment(&self) -> (bytes: &[u8])
        ensures
            bytes@ == self@,
            newline_free(bytes@),
    {
        proof {
            use_type_invariant(self);
        }
        self.fragment.as_slice()
    }

    /// Takes the next chunk of the stream. Returns the lines that it completes,
    /// in order and without their newlines, empty lines included; what follows
    /// the last newline is kept as the new fragment. Every byte is looked at
    /// once, when it arrives: the fragment is never scanned again.
    pub fn feed(&mut self, chunk: &[u8]) -> (lines: Vec<Vec<u8>>)
        ensures
            line_views(lines@) == lines_of(old(self)@ + chunk@),
            final(self)@ == tail_of(old(self)@ + chunk@),
            newline_free(final(self)@),
    {
        let mut lines: Vec<Vec<u8>> = Vec::new();
        let mut fragment: Vec<u8> = Vec::new();
        proof {
            use_type_invariant(&*self);
        }
        std::mem::swap(&mut self.fragment, &mut fragment);
        let mut i: usize = 0;
        proof {
            lemma_newline_free(fragment@);
        }
        while i < chunk.len()
            invariant
                i <= chunk.len(),
                line_views(lines@) == lines_of(old(self)@ + chunk@.take(i as int)),
                fragment@ == tail_of(old(self)@ + chunk@.take(i as int)),
            decreases chunk.len() - i,
        {
            let b = chunk[i];
            proof {
                let seen = old(self)@ + chunk@.take(i as int);
                lemma_lines_push(seen, b);
                assert(seen.push(b) =~= old(self)@ + chunk@.take(i + 1));
            }
            if b == NEWLINE {
                lines.push(fragment);
                fragment = Vec::new();
            } else {
                fragment.push(b);
            }
            i += 1;
        }
        proof {
            assert(chunk@.take(chunk.len() as int) =~= chunk@);
            lemma_no_newline_left(old(self)@ + chunk@);
        }
        self.fragment = fragment;
        lines
    }

    /// Ends the stream: hands out the fragment as the last line, though no
    /// newline ended it, and leaves the reassembler empty. `None` where no byte
    /// followed the last newline.
    pub fn finish(&mut self) -> (last: Option<Vec<u8>>)
        ensures
            final(self)@ == Seq::<u8>::empty(),
            match last {
                Some(line) => old(self)@.len() > 0 && line@ == old(self)@,
                None => old(self)@.len() == 0,
            },
    {
        let mut line: Vec<u8> = Vec::new();
        std::mem::swap(&mut self.fragment, &mut line);
        if line.len() > 0 {
            Some(line)
        } else {
            None
        }
    }
}

} // verus!
