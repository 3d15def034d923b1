//! Framing of the response stream: a line is every byte up to and including
//! the next newline; what is left when the stream ends is a last line
//! without one.

use vstd::prelude::*;
use vstd::slice::{slice_subrange, slice_to_vec};
use crate::decoder::contents;
use crate::frame::NEWLINE;

verus! {

/// Length of the first line of `bytes`: up to and including the first
/// newline, or all of `bytes` when there is none.
pub open spec fn line_len(bytes: Seq<u8>) -> int
    decreases bytes.len(),
{
    if bytes.len() == 0 {
        0
    } else if bytes[0] == NEWLINE {
        1
    } else {
        1 + line_len(bytes.skip(1))
    }
}

/// The first line is never longer than the stream, is empty only when the
/// stream is, holds no newline before its last byte, and ends with one unless
/// the stream ends first.
pub proof fn lemma_line_len(bytes: Seq<u8>)
    ensures
        0 <= line_len(bytes) <= bytes.len(),
        bytes.len() > 0 ==> line_len(bytes) >= 1,
        forall|i: int| 0 <= i < line_len(bytes) - 1 ==> #[trigger] bytes[i] != NEWLINE,
        line_len(bytes) < bytes.len() ==> bytes[line_len(bytes) - 1] == NEWLINE,
    decreases bytes.len(),
{
    if bytes.len() > 0 && bytes[0] != NEWLINE {
        let rest = bytes.skip(1);
        lemma_line_len(rest);
        assert forall|i: int| 0 <= i < line_len(bytes) - 1 implies #[trigger] bytes[i]
            != NEWLINE by {
            if i > 0 {
                assert(bytes[i] == rest[i - 1]);
            }
        }
        assert(line_len(bytes) < bytes.len() ==> bytes[line_len(bytes) - 1] == rest[line_len(rest)
            - 1]);
    }
}

/// A prefix is the first line when it holds no newline before its last byte
/// and either ends with one or reaches the end of the stream.
pub proof fn lemma_line_len_is(bytes: Seq<u8>, n: int)
    requires
        1 <= n <= bytes.len(),
        forall|i: int| 0 <= i < n - 1 ==> #[trigger] bytes[i] != NEWLINE,
        bytes[n - 1] == NEWLINE || n == bytes.len(),
    ensures
        line_len(bytes) == n,
    decreases n,
{
    if n > 1 {
        let rest = bytes.skip(1);
        assert(bytes[0] != NEWLINE);
        assert forall|i: int| 0 <= i < n - 2 implies #[trigger] rest[i] != NEWLINE by {
            assert(rest[i] == bytes[i + 1]);
        }
        assert(rest[n - 2] == bytes[n - 1]);
        lemma_line_len_is(rest, n - 1);
    } else if bytes[0] != NEWLINE {
        reveal_with_fuel(line_len, 2);
    }
}

/// The lines of a stream, in order.
pub open spec fn lines_of(bytes: Seq<u8>) -> Seq<Seq<u8>>
    decreases bytes.len(),
    via lines_of_decreases
{
    if bytes.len() == 0 {
        Seq::empty()
    } else {
        let n = line_len(bytes);
        seq![bytes.take(n)] + lines_of(bytes.skip(n))
    }
}

#[via_fn]
proof fn lines_of_decreases(bytes: Seq<u8>) {
    lemma_line_len(bytes);
}

/// Cutting a stream into lines loses and adds nothing: the lines, joined
/// again, are the stream.
pub proof fn lemma_lines_rejoin(bytes: Seq<u8>)
    ensures
        lines_of(bytes).flatten() == bytes,
    decreases bytes.len(),
{
    if bytes.len() == 0 {
        assert(lines_of(bytes).flatten() =~= bytes);
    } else {
        lemma_line_len(bytes);
        let n = line_len(bytes);
        let first = seq![bytes.take(n)];
        let rest = lines_of(bytes.skip(n));
        lemma_lines_rejoin(bytes.skip(n));
        vstd::seq_lib::lemma_flatten_concat(first, rest);
        assert(first.flatten() =~= bytes.take(n)) by {
            assert(first.drop_first().flatten() =~= Seq::<u8>::empty());
        }
        assert(bytes.take(n) + bytes.skip(n) =~= bytes);
    }
}

/// No line of a stream is empty.
pub proof fn lemma_lines_nonempty(bytes: Seq<u8>)
    ensures
        forall|i: int| 0 <= i < lines_of(bytes).len() ==> (#[trigger] lines_of(bytes)[i]).len() > 0,
    decreases bytes.len(),
{
    if bytes.len() > 0 {
        lemma_line_len(bytes);
        let n = line_len(bytes);
        lemma_lines_nonempty(bytes.skip(n));
        assert forall|i: int| 0 <= i < lines_of(bytes).len() implies (#[trigger] lines_of(
            bytes,
        )[i]).len() > 0 by {
            if i > 0 {
                assert(lines_of(bytes)[i] == lines_of(bytes.skip(n))[i - 1]);
            }
        }
    }
}

/// Cuts a stream into its lines.
pub fn split_lines(bytes: &[u8]) -> (lines: Vec<Vec<u8>>)
    ensures
        contents(lines@) == lines_of(bytes@),
{
    let mut lines: Vec<Vec<u8>> = Vec::new();
    let mut start: usize = 0;
    assert(bytes@.skip(0) =~= bytes@);
    assert(contents(lines@) + lines_of(bytes@) =~= lines_of(bytes@));
    while start < bytes.len()
        invariant
            0 <= start <= bytes.len(),
            contents(lines@) + lines_of(bytes@.skip(start as int)) == lines_of(bytes@),
        decreases bytes.len() - start,
    {
        let mut end: usize = start;
        while end < bytes.len() && bytes[end] != NEWLINE
            invariant
                start <= end <= bytes.len(),
                forall|k: int| start <= k < end ==> #[trigger] bytes@[k] != NEWLINE,
            decreases bytes.len() - end,
        {
            end += 1;
        }
        let stop: usize = if end < bytes.len() {
            end + 1
        } else {
            end
        };
        let line = slice_to_vec(slice_subrange(bytes, start, stop));
        proof {
            let tail = bytes@.skip(start as int);
            let n = stop - start;
            assert forall|i: int| 0 <= i < n - 1 implies #[trigger] tail[i] != NEWLINE by {
                assert(tail[i] == bytes@[start + i]);
            }
            lemma_line_len_is(tail, n);
            assert(tail.take(n) =~= bytes@.subrange(start as int, stop as int));
            assert(tail.skip(n) =~= bytes@.skip(stop as int));
            assert(contents(lines@.push(line)) =~= contents(lines@) + seq![line@]);
            assert(contents(lines@.push(line)) + lines_of(bytes@.skip(stop as int)) =~= contents(
                lines@,
            ) + lines_of(tail));
        }
        lines.push(line);
        start = stop;
    }
    assert(contents(lines@) + lines_of(bytes@.skip(start as int)) =~= contents(lines@));
    lines
}

} // verus!
