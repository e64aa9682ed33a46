//! The client's side of a test: what it sends, and the bookkeeping of the
//! ping, download and upload tests.

use crate::clock::{elapsed_ns, expired, now_ns, spec_elapsed_ns, spec_expired};
use crate::protocol::{payload_len, spec_payload_len, BUFFER_SIZE, OP_DATA, OP_END, OP_PING};
use vstd::prelude::*;

verus! {

/// One ping exchange: the round-trip time where the answer was the ping
/// opcode, nothing where it was any other byte or none at all.
pub open spec fn spec_ping_sample(reply: Option<u8>, sent_ns: u64, received_ns: u64) -> Option<
    u64,
> {
    if reply == Some(OP_PING) {
        Some(spec_elapsed_ns(sent_ns, received_ns))
    } else {
        None
    }
}

/// Judges one ping exchange. `reply` is the byte that was read after the
/// ping was sent, or `None` where the read failed; the two readings of the
/// clock were taken before the ping was sent and after the answer was read.
/// The sample counts only where the answer is the ping opcode.
pub fn ping_sample(reply: Option<u8>, sent_ns: u64, received_ns: u64) -> (sample: Option<u64>)
    ensures
        sample == spec_ping_sample(reply, sent_ns, received_ns),
        sample.is_some() <==> reply == Some(OP_PING),
{
    match reply {
        Some(byte) => {
            if byte == OP_PING {
                Some(elapsed_ns(sent_ns, received_ns))
            } else {
                None
            }
        },
        None => None,
    }
}

/// The sum of some samples.
pub open spec fn spec_sum(samples: Seq<u64>) -> nat
    decreases samples.len(),
{
    if samples.len() == 0 {
        0
    } else {
        spec_sum(samples.drop_last()) + samples.last() as nat
    }
}

/// The mean of some samples, rounded down to a whole number; of no samples
/// there is none.
pub fn mean(samples: &[u64]) -> (m: Option<u64>)
    ensures
        m.is_some() <==> samples@.len() > 0,
        m matches Some(v) ==> v == spec_sum(samples@) / samples@.len(),
{
    if samples.len() == 0 {
        return None;
    }
    let mut sum: u128 = 0;
    let mut i: usize = 0;
    while i < samples.len()
        invariant
            i <= samples@.len(),
            sum == spec_sum(samples@.subrange(0, i as int)),
            sum <= i * 0xffff_ffff_ffff_ffff,
        decreases samples@.len() - i,
    {
        proof {
            let next = samples@.subrange(0, i + 1);
            assert(next.drop_last() =~= samples@.subrange(0, i as int));
            assert(next.last() == samples@[i as int]);
        }
        let sample: u64 = samples[i];
        sum = sum + (sample as u128);
        i = i + 1;
    }
    assert(samples@.subrange(0, i as int) =~= samples@);
    let count: u128 = samples.len() as u128;
    let quotient: u128 = sum / count;
    assert(quotient <= 0xffff_ffff_ffff_ffff) by (nonlinear_arith)
        requires
            quotient == sum / count,
            count > 0,
            sum <= count * 0xffff_ffff_ffff_ffff,
    ;
    Some(quotient as u64)
}

/// How the reading of a download ends.
#[derive(Clone, Copy, Debug, PartialEq, Eq, Structural)]
pub enum DownloadEnd {
    /// The end marker was read.
    Finished,
    /// The input ended where an opcode or the rest of a payload was due.
    Truncated,
}

/// What a download found in a finite input, as a mathematical value.
pub ghost struct Tally {
    /// Number of data chunks read before the end.
    pub chunks: nat,
    /// How the reading ended.
    pub outcome: DownloadEnd,
    /// Number of input bytes read, the end marker included.
    pub consumed: nat,
}

/// The download on a finite input: each frame is read whole, a data chunk
/// is counted, the end marker stops the reading, and any other frame is
/// passed over.
pub open spec fn spec_download(input: Seq<u8>) -> Tally
    decreases input.len(),
{
    if input.len() == 0 {
        Tally { chunks: 0, outcome: DownloadEnd::Truncated, consumed: 0 }
    } else {
        let size = 1 + spec_payload_len(input[0]);
        if input.len() < size {
            Tally { chunks: 0, outcome: DownloadEnd::Truncated, consumed: 0 }
        } else if input[0] == OP_END {
            Tally { chunks: 0, outcome: DownloadEnd::Finished, consumed: size }
        } else {
            let rest = spec_download(input.subrange(size as int, input.len() as int));
            Tally {
                chunks: rest.chunks + if input[0] == OP_DATA {
                    1nat
                } else {
                    0nat
                },
                outcome: rest.outcome,
                consumed: size + rest.consumed,
            }
        }
    }
}

/// The running count of a download.
#[derive(Clone, Copy, Debug, PartialEq, Eq, Structural)]
pub struct Download {
    /// Number of data chunks read so far. The count stops at the largest
    /// number that the field holds.
    pub chunks: u64,
    /// Whether the end marker has been read.
    pub finished: bool,
}

/// The count after a whole frame with opcode `op` has been read: a data
/// chunk is counted, the end marker finishes the download, any other frame
/// changes nothing; and nothing changes once the download is finished.
pub open spec fn spec_count(before: Download, op: u8) -> Download {
    if before.finished {
        before
    } else if op == OP_END {
        Download { finished: true, ..before }
    } else if op == OP_DATA && before.chunks < u64::MAX {
        Download { chunks: (before.chunks + 1) as u64, ..before }
    } else {
        before
    }
}

impl Download {
    /// A download of which nothing has been read yet.
    pub fn new() -> (d: Download)
        ensures
            d == (Download { chunks: 0, finished: false }),
    {
        Download { chunks: 0, finished: false }
    }

    /// Takes note of one frame that has been read whole, payload included.
    pub fn count(&mut self, op: u8)
        ensures
            *final(self) == spec_count(*old(self), op),
    {
        if !self.finished {
            if op == OP_END {
                self.finished = true;
            } else if op == OP_DATA && self.chunks < u64::MAX {
                self.chunks = self.chunks + 1;
            }
        }
    }

    /// Number of filler bytes in the chunks counted so far.
    pub fn bytes(&self) -> (n: u128)
        ensures
            n == self.chunks * BUFFER_SIZE,
    {
        let chunks: u128 = self.chunks as u128;
        let size: u128 = BUFFER_SIZE as u128;
        assert(chunks * size <= 0xffff_ffff_ffff_ffff * 16384) by (nonlinear_arith)
            requires
                chunks <= 0xffff_ffff_ffff_ffff,
                size == 16384,
        ;
        chunks * size
    }
}

/// What a download found in a finite input.
#[derive(Clone, Copy, Debug, PartialEq, Eq)]
pub struct DownloadReport {
    /// Number of data chunks read before the end.
    pub chunks: u64,
    /// Number of filler bytes in those chunks.
    pub bytes: u64,
    /// How the reading ended.
    pub outcome: DownloadEnd,
    /// Number of input bytes read, the end marker included.
    pub consumed: usize,
}

/// Reads a download from a finite input: counts the data chunks up to the
/// end marker. What follows the end marker is not read.
pub fn download(input: &[u8]) -> (report: DownloadReport)
    ensures
        report.chunks == spec_download(input@).chunks,
        report.outcome == spec_download(input@).outcome,
        report.consumed == spec_download(input@).consumed,
        report.bytes == report.chunks * BUFFER_SIZE,
        report.bytes + report.chunks <= report.consumed <= input@.len(),
{
    let mut state: Download = Download::new();
    let mut pos: usize = 0;
    let mut done: bool = false;
    proof {
        assert(input@.subrange(0, input@.len() as int) =~= input@);
    }
    while !done
        invariant
            pos <= input@.len(),
            BUFFER_SIZE == 16384,
            state.chunks * 16385 <= pos,
            !done ==> !state.finished,
            !done ==> spec_download(input@).chunks == state.chunks + spec_download(
                input@.subrange(pos as int, input@.len() as int),
            ).chunks,
            !done ==> spec_download(input@).outcome == spec_download(
                input@.subrange(pos as int, input@.len() as int),
            ).outcome,
            !done ==> spec_download(input@).consumed == pos + spec_download(
                input@.subrange(pos as int, input@.len() as int),
            ).consumed,
            done ==> spec_download(input@) == (Tally {
                chunks: state.chunks as nat,
                outcome: if state.finished {
                    DownloadEnd::Finished
                } else {
                    DownloadEnd::Truncated
                },
                consumed: pos as nat,
            }),
        decreases input@.len() - pos + (if done { 0int } else { 1int }),
    {
        let ghost rest = input@.subrange(pos as int, input@.len() as int);
        if pos >= input.len() {
            done = true;
        } else {
            let op: u8 = input[pos];
            let n: usize = payload_len(op);
            assert(rest[0] == op);
            if input.len() - pos - 1 < n {
                done = true;
            } else {
                assert(rest.subrange(1 + n, rest.len() as int) =~= input@.subrange(
                    pos + 1 + n,
                    input@.len() as int,
                ));
                pos = pos + 1 + n;
                state.count(op);
                done = state.finished;
            }
        }
    }
    let outcome: DownloadEnd = if state.finished {
        DownloadEnd::Finished
    } else {
        DownloadEnd::Truncated
    };
    DownloadReport {
        chunks: state.chunks,
        bytes: state.chunks * 16384,
        outcome,
        consumed: pos,
    }
}

/// What the client does after it has written a chunk of an upload.
#[derive(Clone, Copy, Debug, PartialEq, Eq, Structural)]
pub enum UploadAction {
    /// The duration has not elapsed: write one more data chunk and flush.
    Chunk,
    /// The duration has elapsed: write the end marker.
    End,
}

/// An upload in progress.
#[derive(Clone, Copy, Debug, PartialEq, Eq, Structural)]
pub struct Upload {
    /// The clock's reading when the upload began.
    pub start_ns: u64,
    /// How long to upload for, in milliseconds.
    pub duration_ms: u64,
    /// Number of data chunks written so far. The count stops at the largest
    /// number that the field holds.
    pub chunks: u64,
}

/// The upload after one more chunk has been written.
pub open spec fn spec_chunk_sent(before: Upload) -> Upload {
    if before.chunks < u64::MAX {
        Upload { chunks: (before.chunks + 1) as u64, ..before }
    } else {
        before
    }
}

/// What follows a chunk after which the clock reads `now_ns`: the end
/// marker once the duration has elapsed, another chunk before that.
pub open spec fn spec_upload_action(upload: Upload, now_ns: u64) -> UploadAction {
    if spec_expired(upload.start_ns, now_ns, upload.duration_ms) {
        UploadAction::End
    } else {
        UploadAction::Chunk
    }
}

impl Upload {
    /// An upload of `duration_ms` milliseconds that begins while the clock
    /// reads `now_ns`. The first chunk is written whatever the duration.
    pub fn begin_at(duration_ms: u64, now_ns: u64) -> (u: Upload)
        ensures
            u == (Upload { start_ns: now_ns, duration_ms, chunks: 0 }),
    {
        Upload { start_ns: now_ns, duration_ms, chunks: 0 }
    }

    /// An upload of `duration_ms` milliseconds that begins now.
    pub fn begin(duration_ms: u64) -> (u: Upload)
        ensures
            u.duration_ms == duration_ms,
            u.chunks == 0,
    {
        let now: u64 = now_ns();
        Upload::begin_at(duration_ms, now)
    }

    /// Takes note of a chunk that has been written and flushed, after which
    /// the clock reads `now_ns`, and decides what to write next.
    pub fn chunk_sent_at(&mut self, now_ns: u64) -> (action: UploadAction)
        ensures
            *final(self) == spec_chunk_sent(*old(self)),
            action == spec_upload_action(*old(self), now_ns),
    {
        if self.chunks < u64::MAX {
            self.chunks = self.chunks + 1;
        }
        if expired(self.start_ns, now_ns, self.duration_ms) {
            UploadAction::End
        } else {
            UploadAction::Chunk
        }
    }

    /// Takes note of a chunk that has just been written and flushed, and
    /// decides what to write next by the clock's present reading, whatever
    /// that is.
    pub fn chunk_sent(&mut self) -> (action: UploadAction)
        ensures
            *final(self) == spec_chunk_sent(*old(self)),
            exists|now: u64| action == #[trigger] spec_upload_action(*old(self), now),
    {
        let now: u64 = now_ns();
        self.chunk_sent_at(now)
    }

    /// Number of filler bytes in the chunks written so far.
    pub fn bytes(&self) -> (n: u128)
        ensures
            n == self.chunks * BUFFER_SIZE,
    {
        let chunks: u128 = self.chunks as u128;
        let size: u128 = BUFFER_SIZE as u128;
        assert(chunks * size <= 0xffff_ffff_ffff_ffff * 16384) by (nonlinear_arith)
            requires
                chunks <= 0xffff_ffff_ffff_ffff,
                size == 16384,
        ;
        chunks * size
    }
}

} // verus!
