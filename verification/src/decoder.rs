//! The response decoder: what the client does with each line it reads, and
//! what a whole response amounts to.

use vstd::prelude::*;
use vstd::slice::slice_to_vec;
use crate::error::{ClientError, Verdict};
use crate::frame::{frame_status, is_termination_frame, termination_status, FRAME_LEN, NEWLINE};
use crate::lines::{lines_of, split_lines};

verus! {

/// What one read of a line from the connection returned.
#[derive(Clone, Copy, Debug, PartialEq, Eq, Structural)]
pub enum Read {
    /// The read succeeded and delivered this many bytes; zero means the
    /// connection was closed.
    Bytes(usize),
    /// The read itself failed.
    Failed,
}

/// What the client does after one read.
#[derive(Clone, Copy, Debug, PartialEq, Eq, Structural)]
pub enum Reaction {
    /// Write the line to standard output as it is, and read on.
    Forward,
    /// Report the failed read on standard error, and read on.
    Report,
    /// Stop reading; the verdict decides the exit code.
    Finish(Verdict),
}

/// The reaction that the protocol prescribes for a read and the line it filled.
pub open spec fn reaction_to(read: Read, line: Seq<u8>) -> Reaction {
    match read {
        Read::Failed => Reaction::Report,
        Read::Bytes(count) => if count == 0 {
            Reaction::Finish(Verdict::Failure(ClientError::ProtocolError))
        } else if is_termination_frame(line) {
            Reaction::Finish(Verdict::Status(frame_status(line)))
        } else {
            Reaction::Forward
        },
    }
}

/// Decides what to do after one read: a zero-byte read is an abnormal close,
/// the termination frame ends the stream with its status, every other line is
/// output.
pub fn react(read: Read, line: &[u8]) -> (reaction: Reaction)
    ensures
        reaction == reaction_to(read, line@),
{
    match read {
        Read::Failed => Reaction::Report,
        Read::Bytes(count) => {
            if count == 0 {
                Reaction::Finish(Verdict::Failure(ClientError::ProtocolError))
            } else {
                match termination_status(line) {
                    Some(status) => Reaction::Finish(Verdict::Status(status)),
                    None => Reaction::Forward,
                }
            }
        },
    }
}

/// Whether a read that delivered `line` ends the stream: an empty read is the
/// close, and the termination frame is the regular end.
pub open spec fn stops(line: Seq<u8>) -> bool {
    line.len() == 0 || is_termination_frame(line)
}

/// The number of reads before the first one that ends the stream; the number
/// of all reads if none does.
pub open spec fn stop_index(reads: Seq<Seq<u8>>) -> int
    decreases reads.len(),
{
    if reads.len() == 0 || stops(reads[0]) {
        0
    } else {
        1 + stop_index(reads.skip(1))
    }
}

/// The lines forwarded to standard output: all that come before the end of
/// the stream, unchanged and in order.
pub open spec fn outputs_of(reads: Seq<Seq<u8>>) -> Seq<Seq<u8>> {
    reads.take(stop_index(reads))
}

/// How the response ends: with the status of the first termination frame, or
/// with a protocol error when the connection closes before one arrives.
pub open spec fn verdict_of(reads: Seq<Seq<u8>>) -> Verdict {
    let at = stop_index(reads);
    if at < reads.len() && is_termination_frame(reads[at]) {
        Verdict::Status(frame_status(reads[at]))
    } else {
        Verdict::Failure(ClientError::ProtocolError)
    }
}

/// The byte content of a list of lines.
pub open spec fn contents(lines: Seq<Vec<u8>>) -> Seq<Seq<u8>> {
    Seq::new(lines.len(), |i: int| lines[i]@)
}

/// What a whole response came to.
#[derive(Clone, Debug, PartialEq, Eq)]
pub struct Transcript {
    /// The lines written to standard output, in order.
    pub forwarded: Vec<Vec<u8>>,
    /// How the stream ended.
    pub verdict: Verdict,
}

/// `stop_index` is the one position before which no read ends the stream and
/// at which one does, or the length if none does.
pub proof fn lemma_stop_index(reads: Seq<Seq<u8>>, at: int)
    requires
        0 <= at <= reads.len(),
        forall|j: int| 0 <= j < at ==> !stops(#[trigger] reads[j]),
        at < reads.len() ==> stops(reads[at]),
    ensures
        stop_index(reads) == at,
    decreases at,
{
    if at > 0 {
        let rest = reads.skip(1);
        assert forall|j: int| 0 <= j < at - 1 implies !stops(#[trigger] rest[j]) by {
            assert(rest[j] == reads[j + 1]);
        }
        lemma_stop_index(rest, at - 1);
    }
}

/// Replays the read loop over the successive reads of one connection, the
/// last of which is followed by the close: forwards every line up to the
/// first read that ends the stream, and tells how the stream ended.
pub fn decode_lines(reads: &Vec<Vec<u8>>) -> (transcript: Transcript)
    ensures
        transcript.forwarded@.len() == stop_index(contents(reads@)),
        contents(transcript.forwarded@) == outputs_of(contents(reads@)),
        transcript.verdict == verdict_of(contents(reads@)),
{
    let ghost all = contents(reads@);
    let mut forwarded: Vec<Vec<u8>> = Vec::new();
    let mut i: usize = 0;
    while i < reads.len()
        invariant
            0 <= i <= reads.len(),
            all == contents(reads@),
            forall|j: int| 0 <= j < i ==> !stops(#[trigger] all[j]),
            forwarded@.len() == i,
            contents(forwarded@) == all.take(i as int),
        decreases reads.len() - i,
    {
        let line = reads[i].as_slice();
        match react(Read::Bytes(line.len()), line) {
            Reaction::Finish(verdict) => {
                proof {
                    lemma_stop_index(all, i as int);
                }
                return Transcript { forwarded, verdict };
            },
            _ => {
                let ghost before = forwarded@;
                forwarded.push(slice_to_vec(line));
                assert forall|k: int| 0 <= k <= i implies contents(forwarded@)[k] == all[k] by {
                    if k < i {
                        assert(contents(before)[k] == all.take(i as int)[k]);
                    }
                }
                assert(contents(forwarded@) =~= all.take(i as int + 1));
            },
        }
        i += 1;
    }
    proof {
        lemma_stop_index(all, reads.len() as int);
        assert(all.take(reads.len() as int) =~= all);
    }
    Transcript { forwarded, verdict: Verdict::Failure(ClientError::ProtocolError) }
}

/// Decodes a whole response, given as the bytes that the daemon sent before
/// the connection closed: cuts it into lines and replays the read loop.
pub fn decode_stream(bytes: &[u8]) -> (transcript: Transcript)
    ensures
        transcript.forwarded@.len() == stop_index(lines_of(bytes@)),
        contents(transcript.forwarded@) == outputs_of(lines_of(bytes@)),
        transcript.verdict == verdict_of(lines_of(bytes@)),
{
    let reads = split_lines(bytes);
    decode_lines(&reads)
}

/// The stream ends within the reads; no read before its end ends it, and the
/// read at its end, if there is one, does.
pub proof fn lemma_stop_index_bounds(reads: Seq<Seq<u8>>)
    ensures
        0 <= stop_index(reads) <= reads.len(),
        forall|j: int| 0 <= j < stop_index(reads) ==> !stops(#[trigger] reads[j]),
        stop_index(reads) < reads.len() ==> stops(reads[stop_index(reads)]),
    decreases reads.len(),
{
    if reads.len() > 0 && !stops(reads[0]) {
        let rest = reads.skip(1);
        lemma_stop_index_bounds(rest);
        assert forall|j: int| 0 <= j < stop_index(reads) implies !stops(#[trigger] reads[j]) by {
            if j > 0 {
                assert(reads[j] == rest[j - 1]);
            }
        }
        assert(stop_index(reads) < reads.len() ==> reads[stop_index(reads)] == rest[stop_index(
            rest,
        )]);
    }
}

/// A line that is not the termination frame is never taken for one: whether
/// it is shorter or longer than six bytes, starts with a byte other than
/// zero, or does not end with the newline, it is forwarded.
pub proof fn lemma_other_lines_are_forwarded(count: usize, line: Seq<u8>)
    requires
        count > 0,
        line.len() != FRAME_LEN || line[0] != 0 || line[5] != NEWLINE,
    ensures
        reaction_to(Read::Bytes(count), line) == Reaction::Forward,
{
}

/// Every forwarded line is the line that was read at that position,
/// unchanged, and none of them is a termination frame.
pub proof fn lemma_outputs_are_verbatim(reads: Seq<Seq<u8>>, i: int)
    requires
        0 <= i < outputs_of(reads).len(),
    ensures
        i < reads.len(),
        outputs_of(reads)[i] == reads[i],
        !is_termination_frame(reads[i]),
{
    lemma_stop_index_bounds(reads);
}

/// A zero-byte read ends the stream with a protocol error, whose exit code is
/// `-1`, whatever output came before it and whatever might have followed;
/// the output that came before it has been forwarded.
pub proof fn lemma_close_is_fatal(before: Seq<Seq<u8>>, after: Seq<Seq<u8>>)
    requires
        forall|j: int| 0 <= j < before.len() ==> !stops(#[trigger] before[j]),
    ensures
        verdict_of(before.push(Seq::empty()) + after) == Verdict::Failure(
            ClientError::ProtocolError,
        ),
        verdict_of(before.push(Seq::empty()) + after).code() == -1,
        outputs_of(before.push(Seq::empty()) + after) == before,
{
    let reads = before.push(Seq::empty()) + after;
    assert forall|j: int| 0 <= j < before.len() implies !stops(#[trigger] reads[j]) by {
        assert(reads[j] == before[j]);
    }
    assert(reads[before.len() as int] == Seq::<u8>::empty());
    lemma_stop_index(reads, before.len() as int);
    assert(reads.take(before.len() as int) =~= before);
}

/// The first termination frame ends the stream with the status it carries,
/// after the output before it has been forwarded; nothing that follows it is
/// read, so no second frame can change the outcome.
pub proof fn lemma_frame_ends_stream(before: Seq<Seq<u8>>, frame: Seq<u8>, after: Seq<Seq<u8>>)
    requires
        forall|j: int| 0 <= j < before.len() ==> !stops(#[trigger] before[j]),
        is_termination_frame(frame),
    ensures
        verdict_of(before.push(frame) + after) == Verdict::Status(frame_status(frame)),
        verdict_of(before.push(frame) + after).code() == frame_status(frame),
        outputs_of(before.push(frame) + after) == before,
{
    let reads = before.push(frame) + after;
    assert forall|j: int| 0 <= j < before.len() implies !stops(#[trigger] reads[j]) by {
        assert(reads[j] == before[j]);
    }
    assert(reads[before.len() as int] == frame);
    lemma_stop_index(reads, before.len() as int);
    assert(reads.take(before.len() as int) =~= before);
}

/// Without a termination frame the exit code is `-1`, however many lines of
/// output arrived.
pub proof fn lemma_no_frame_is_failure(reads: Seq<Seq<u8>>)
    requires
        forall|j: int| 0 <= j < reads.len() ==> !is_termination_frame(#[trigger] reads[j]),
    ensures
        verdict_of(reads) == Verdict::Failure(ClientError::ProtocolError),
        verdict_of(reads).code() == -1,
{
    lemma_stop_index_bounds(reads);
}

} // verus!
