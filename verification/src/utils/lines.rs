//! The lines of a text held as bytes.
use vstd::prelude::*;

verus! {

/// The place of the first line feed in `b`, or the length of `b` if it
/// holds none.
pub open spec fn first_newline(b: Seq<u8>) -> int
    decreases b.len(),
{
    if b.len() == 0 || b[0] == 10 {
        0
    } else {
        1 + first_newline(b.drop_first())
    }
}

/// The line without one carriage return at its end, if it has one.
pub open spec fn without_carriage_return(line: Seq<u8>) -> Seq<u8> {
    if line.len() > 0 && line.last() == 13 {
        line.drop_last()
    } else {
        line
    }
}

/// The lines of a text. A line ends at a line feed, which is not part of
/// it, nor is a carriage return just before that line feed. What follows
/// the last line feed is a line of its own unless it is empty, and keeps a
/// carriage return at its end.
pub open spec fn lines(b: Seq<u8>) -> Seq<Seq<u8>>
    decreases b.len(),
{
    if b.len() == 0 {
        Seq::empty()
    } else {
        let k = first_newline(b);
        if 0 <= k < b.len() {
            seq![without_carriage_return(b.take(k))] + lines(b.skip(k + 1))
        } else {
            seq![b]
        }
    }
}

/// The first line feed lies within the text or at its end.
pub proof fn lemma_first_newline_bounds(b: Seq<u8>)
    ensures
        0 <= first_newline(b) <= b.len(),
    decreases b.len(),
{
    if b.len() > 0 && b[0] != 10 {
        lemma_first_newline_bounds(b.drop_first());
    }
}

/// Where the first line feed of a text is, given that none comes earlier.
pub proof fn lemma_first_newline(b: Seq<u8>, k: int)
    requires
        0 <= k <= b.len(),
        forall|i: int| 0 <= i < k ==> b[i] != 10,
        k < b.len() ==> b[k] == 10,
    ensures
        first_newline(b) == k,
    decreases k,
{
    if k > 0 {
        let rest = b.drop_first();
        assert forall|i: int| 0 <= i < k - 1 implies rest[i] != 10 by {
            assert(rest[i] == b[i + 1]);
        }
        lemma_first_newline(rest, k - 1);
    }
}

/// The end of the line that starts at `start`: the place of the next line
/// feed, or the end of the text.
pub fn line_end(text: &[u8], start: usize) -> (end: usize)
    requires
        start <= text.len(),
    ensures
        start <= end <= text.len(),
        end == start + first_newline(text@.skip(start as int)),
{
    let mut j: usize = start;
    while j < text.len() && text[j] != 10
        invariant
            start <= j <= text.len(),
            forall|k: int| start <= k < j ==> text@[k] != 10,
        decreases text.len() - j,
    {
        j = j + 1;
    }
    proof {
        let rest = text@.skip(start as int);
        assert forall|i: int| 0 <= i < j - start implies rest[i] != 10 by {
            assert(rest[i] == text@[start + i]);
        }
        lemma_first_newline(rest, j - start);
    }
    j
}

} // verus!
