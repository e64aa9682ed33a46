//! The server's side of one connection: what each received frame makes the
//! handler do, and what a whole finite input makes it do.

use crate::mac::{probe, spec_probe};
use crate::protocol::{
    be_u64, decode_duration, payload_len, spec_frame, spec_payload_len, Command, DURATION_LEN,
    OP_PING, OP_REQUEST,
};
use vstd::prelude::*;
use vstd::slice::{slice_subrange, slice_to_vec};

verus! {

/// What the handler does after it has read one frame.
#[derive(Clone, Copy, Debug, PartialEq, Eq, Structural)]
pub enum Reaction {
    /// The frame is dropped and the next opcode is read.
    Nothing,
    /// This single byte is written back to the peer.
    Reply(u8),
    /// This duration, in milliseconds, is queued for the sender worker.
    Enqueue(u64),
    /// The digest of the received buffer began with this byte, which is
    /// printed as a diagnostic line.
    Diagnostic(u8),
    /// The handler returns without error.
    Close,
}

/// How the handling of a finite input ends.
#[derive(Clone, Copy, Debug, PartialEq, Eq, Structural)]
pub enum Outcome {
    /// A disconnect was read: the handler returned cleanly.
    Closed,
    /// The input ended where an opcode or the rest of a payload was due:
    /// the read fails, and the handler with it.
    Truncated,
}

/// The reaction to a frame whose payload is complete.
pub open spec fn spec_react(op: u8, payload: Seq<u8>, mac: bool) -> Reaction {
    match Command::spec_from_opcode(op) {
        Command::Data => if mac {
            match spec_probe(payload) {
                Some(b) => Reaction::Diagnostic(b),
                None => Reaction::Nothing,
            }
        } else {
            Reaction::Nothing
        },
        Command::Request => Reaction::Enqueue(be_u64(payload) as u64),
        Command::EndOfTest => Reaction::Nothing,
        Command::Ping => Reaction::Reply(OP_PING),
        Command::Disconnect => Reaction::Close,
        Command::Other(_) => Reaction::Nothing,
    }
}

/// Reacts to a frame whose payload has the length that its opcode announces.
fn dispatch(op: u8, payload: &[u8], mac: bool) -> (r: Reaction)
    requires
        payload@.len() == spec_payload_len(op),
    ensures
        r == spec_react(op, payload@, mac),
{
    match Command::from_opcode(op) {
        Command::Data => {
            if mac {
                match probe(payload) {
                    Some(b) => Reaction::Diagnostic(b),
                    None => Reaction::Nothing,
                }
            } else {
                Reaction::Nothing
            }
        },
        Command::Request => {
            match decode_duration(payload) {
                Some(ms) => Reaction::Enqueue(ms),
                None => Reaction::Nothing,
            }
        },
        Command::EndOfTest => Reaction::Nothing,
        Command::Ping => Reaction::Reply(OP_PING),
        Command::Disconnect => Reaction::Close,
        Command::Other(_) => Reaction::Nothing,
    }
}

/// Decides what the handler does with one frame: the opcode that was read
/// and the payload that was read after it. A payload of another length than
/// the opcode announces is no frame, and gets no reaction.
pub fn react(op: u8, payload: &[u8], mac: bool) -> (r: Option<Reaction>)
    ensures
        r.is_some() <==> payload@.len() == spec_payload_len(op),
        r matches Some(x) ==> x == spec_react(op, payload@, mac),
        op == OP_PING ==> (r == Some(Reaction::Reply(OP_PING)) || r.is_none()),
        r matches Some(Reaction::Reply(_)) ==> op == OP_PING,
{
    if payload.len() == payload_len(op) {
        Some(dispatch(op, payload, mac))
    } else {
        None
    }
}

/// A request that the client framed for `duration_ms` milliseconds is queued
/// by the handler with that same duration: the eight bytes mean to the one
/// what they mean to the other.
pub proof fn law_request_round_trip(payload: Seq<u8>, duration_ms: u64, mac: bool)
    requires
        payload.len() == DURATION_LEN,
        be_u64(payload) == duration_ms,
    ensures
        spec_react(OP_REQUEST, payload, mac) == Reaction::Enqueue(duration_ms),
        spec_run(spec_frame(OP_REQUEST, payload), mac) == (Trace {
            reactions: seq![Reaction::Enqueue(duration_ms)],
            outcome: Outcome::Truncated,
            consumed: 1 + DURATION_LEN as nat,
        }),
{
    let input = spec_frame(OP_REQUEST, payload);
    assert(input[0] == OP_REQUEST);
    assert(input.subrange(1, 9) =~= payload);
    let rest = input.subrange(9, input.len() as int);
    assert(rest.len() == 0);
    assert(spec_run(rest, mac) == truncated());
    assert(seq![Reaction::Enqueue(duration_ms)] + Seq::<Reaction>::empty() =~= seq![
        Reaction::Enqueue(duration_ms),
    ]);
}

/// What a finite input makes the handler do, as a mathematical value.
pub ghost struct Trace {
    /// One reaction for each complete frame that was handled, in order.
    pub reactions: Seq<Reaction>,
    /// How the handling ended.
    pub outcome: Outcome,
    /// Number of input bytes that the handled frames took up.
    pub consumed: nat,
}

/// The trace of an input on which nothing can be handled.
pub open spec fn truncated() -> Trace {
    Trace { reactions: Seq::empty(), outcome: Outcome::Truncated, consumed: 0 }
}

/// `rest` seen after frames of `size` bytes in all got `reactions`.
pub open spec fn after(reactions: Seq<Reaction>, size: nat, rest: Trace) -> Trace {
    Trace {
        reactions: reactions + rest.reactions,
        outcome: rest.outcome,
        consumed: size + rest.consumed,
    }
}

/// The handler on a finite input: it reads an opcode, then the payload that
/// the opcode announces, reacts, and goes on with the bytes that follow,
/// until it reads a disconnect or the input runs out.
pub open spec fn spec_run(input: Seq<u8>, mac: bool) -> Trace
    decreases input.len(),
{
    if input.len() == 0 {
        truncated()
    } else {
        let size = 1 + spec_payload_len(input[0]);
        if input.len() < size {
            truncated()
        } else {
            let reaction = spec_react(input[0], input.subrange(1, size as int), mac);
            if reaction == Reaction::Close {
                Trace {
                    reactions: seq![reaction],
                    outcome: Outcome::Closed,
                    consumed: size,
                }
            } else {
                after(
                    seq![reaction],
                    size,
                    spec_run(input.subrange(size as int, input.len() as int), mac),
                )
            }
        }
    }
}

/// What handling a finite input did.
#[derive(Debug)]
pub struct Report {
    /// One reaction for each complete frame that was handled, in order.
    pub reactions: Vec<Reaction>,
    /// How the handling ended.
    pub outcome: Outcome,
    /// Number of input bytes that the handled frames took up.
    pub consumed: usize,
}

impl View for Report {
    type V = Trace;

    open spec fn view(&self) -> Trace {
        Trace {
            reactions: self.reactions@,
            outcome: self.outcome,
            consumed: self.consumed as nat,
        }
    }
}

/// Runs the handler over a finite input. It ends on every input: with
/// `Closed` after a disconnect, with `Truncated` where the bytes run out.
/// It handles at most one frame for each byte of input.
pub fn run(input: &[u8], mac: bool) -> (report: Report)
    ensures
        report@ == spec_run(input@, mac),
        report.reactions@.len() <= report.consumed <= input@.len(),
{
    let mut reactions: Vec<Reaction> = Vec::new();
    let mut outcome: Outcome = Outcome::Truncated;
    let mut pos: usize = 0;
    let mut done: bool = false;
    proof {
        let whole = spec_run(input@, mac);
        assert(input@.subrange(0, input@.len() as int) =~= input@);
        assert(reactions@ + whole.reactions =~= whole.reactions);
    }
    while !done
        invariant
            pos <= input@.len(),
            reactions@.len() <= pos,
            !done ==> spec_run(input@, mac) == after(
                reactions@,
                pos as nat,
                spec_run(input@.subrange(pos as int, input@.len() as int), mac),
            ),
            done ==> spec_run(input@, mac) == (Trace {
                reactions: reactions@,
                outcome: outcome,
                consumed: pos as nat,
            }),
        decreases input@.len() - pos + (if done { 0int } else { 1int }),
    {
        let ghost rest = input@.subrange(pos as int, input@.len() as int);
        if pos >= input.len() {
            assert(reactions@ + Seq::<Reaction>::empty() =~= reactions@);
            outcome = Outcome::Truncated;
            done = true;
        } else {
            let op: u8 = input[pos];
            let n: usize = payload_len(op);
            assert(rest[0] == op);
            if input.len() - pos - 1 < n {
                assert(reactions@ + Seq::<Reaction>::empty() =~= reactions@);
                outcome = Outcome::Truncated;
                done = true;
            } else {
                let payload: &[u8] = slice_subrange(input, pos + 1, pos + 1 + n);
                assert(rest.subrange(1, 1 + n) =~= payload@);
                assert(rest.subrange(1 + n, rest.len() as int) =~= input@.subrange(
                    pos + 1 + n,
                    input@.len() as int,
                ));
                let reaction: Reaction = dispatch(op, payload, mac);
                let ghost before = reactions@;
                reactions.push(reaction);
                pos = pos + 1 + n;
                if reaction == Reaction::Close {
                    assert(before + seq![reaction] =~= reactions@);
                    outcome = Outcome::Closed;
                    done = true;
                } else {
                    let ghost tail = spec_run(
                        input@.subrange(pos as int, input@.len() as int),
                        mac,
                    );
                    assert(before + (seq![reaction] + tail.reactions) =~= reactions@
                        + tail.reactions);
                }
            }
        }
    }
    Report { reactions, outcome, consumed: pos }
}

/// The opcodes of the frames that the handler handles on a finite input, in
/// order: one for each reaction of `spec_run`.
pub open spec fn spec_opcodes(input: Seq<u8>, mac: bool) -> Seq<u8>
    decreases input.len(),
{
    if input.len() == 0 {
        Seq::empty()
    } else {
        let size = 1 + spec_payload_len(input[0]);
        if input.len() < size {
            Seq::empty()
        } else if spec_react(input[0], input.subrange(1, size as int), mac) == Reaction::Close {
            seq![input[0]]
        } else {
            seq![input[0]] + spec_opcodes(input.subrange(size as int, input.len() as int), mac)
        }
    }
}

/// The bytes that the handler writes back while it gives these reactions:
/// the byte of each reply, and nothing else.
pub open spec fn spec_written(reactions: Seq<Reaction>) -> Seq<u8>
    decreases reactions.len(),
{
    if reactions.len() == 0 {
        Seq::empty()
    } else {
        let head = spec_written(reactions.drop_last());
        match reactions.last() {
            Reaction::Reply(b) => head.push(b),
            _ => head,
        }
    }
}

/// The bytes that the handler writes back to the peer while it gives these
/// reactions.
pub fn written(reactions: &[Reaction]) -> (out: Vec<u8>)
    ensures
        out@ == spec_written(reactions@),
{
    let mut out: Vec<u8> = Vec::new();
    let mut i: usize = 0;
    while i < reactions.len()
        invariant
            i <= reactions@.len(),
            out@ == spec_written(reactions@.subrange(0, i as int)),
        decreases reactions@.len() - i,
    {
        proof {
            let next = reactions@.subrange(0, i + 1);
            assert(next.drop_last() =~= reactions@.subrange(0, i as int));
            assert(next.last() == reactions@[i as int]);
        }
        match reactions[i] {
            Reaction::Reply(b) => {
                out.push(b);
            },
            _ => {},
        }
        i = i + 1;
    }
    assert(reactions@.subrange(0, i as int) =~= reactions@);
    out
}

/// On every finite input the handler ends, after at most one frame for each
/// byte of input. It ends closed exactly when its last reaction is `Close`,
/// and it gives no reaction after a `Close`.
pub proof fn law_run_ends(input: Seq<u8>, mac: bool)
    ensures
        spec_run(input, mac).reactions.len() <= spec_run(input, mac).consumed <= input.len(),
        spec_run(input, mac).outcome == Outcome::Closed <==> spec_run(input, mac).reactions.len()
            > 0 && spec_run(input, mac).reactions.last() == Reaction::Close,
        forall|i: int|
            0 <= i < spec_run(input, mac).reactions.len() - 1 ==> spec_run(
                input,
                mac,
            ).reactions[i] != Reaction::Close,
    decreases input.len(),
{
    if input.len() > 0 {
        let size = 1 + spec_payload_len(input[0]);
        if input.len() >= size {
            let reaction = spec_react(input[0], input.subrange(1, size as int), mac);
            if reaction != Reaction::Close {
                let rest = input.subrange(size as int, input.len() as int);
                law_run_ends(rest, mac);
                let tail = spec_run(rest, mac);
                let whole = spec_run(input, mac);
                assert(whole.reactions =~= seq![reaction] + tail.reactions);
                assert forall|i: int| 0 <= i < whole.reactions.len() - 1 implies whole.reactions[i]
                    != Reaction::Close by {
                    if i > 0 {
                        assert(whole.reactions[i] == tail.reactions[i - 1]);
                    }
                }
            }
        }
    }
}

/// A byte that is no known opcode is skipped: the handler drops it, reads no
/// payload for it, and goes on with the byte that follows.
pub proof fn law_unknown_opcode_skipped(input: Seq<u8>, mac: bool)
    requires
        input.len() > 0,
        Command::spec_from_opcode(input[0]) is Other,
    ensures
        spec_run(input, mac) == after(
            seq![Reaction::Nothing],
            1,
            spec_run(input.subrange(1, input.len() as int), mac),
        ),
{
}

/// The handler answers each ping with the single byte of the ping opcode,
/// and writes nothing for any other frame: a reply is given to a ping only,
/// and every byte written back is the ping opcode.
pub proof fn law_ping_answered(input: Seq<u8>, mac: bool)
    ensures
        spec_opcodes(input, mac).len() == spec_run(input, mac).reactions.len(),
        forall|i: int|
            0 <= i < spec_run(input, mac).reactions.len() ==> (spec_opcodes(input, mac)[i]
                == OP_PING <==> #[trigger] spec_run(input, mac).reactions[i] == Reaction::Reply(
                OP_PING,
            )),
        forall|i: int|
            0 <= i < spec_run(input, mac).reactions.len() ==> (#[trigger] spec_run(
                input,
                mac,
            ).reactions[i] is Reply ==> spec_opcodes(input, mac)[i] == OP_PING),
    decreases input.len(),
{
    if input.len() > 0 {
        let size = 1 + spec_payload_len(input[0]);
        if input.len() >= size {
            let reaction = spec_react(input[0], input.subrange(1, size as int), mac);
            if reaction != Reaction::Close {
                let rest = input.subrange(size as int, input.len() as int);
                law_ping_answered(rest, mac);
                let tail = spec_run(rest, mac);
                let whole = spec_run(input, mac);
                assert(whole.reactions =~= seq![reaction] + tail.reactions);
                assert forall|i: int| 0 <= i < whole.reactions.len() implies (spec_opcodes(
                    input,
                    mac,
                )[i] == OP_PING <==> #[trigger] whole.reactions[i] == Reaction::Reply(OP_PING))
                    && (whole.reactions[i] is Reply ==> spec_opcodes(input, mac)[i] == OP_PING) by {
                    if i > 0 {
                        assert(whole.reactions[i] == tail.reactions[i - 1]);
                        assert(spec_opcodes(input, mac)[i] == spec_opcodes(rest, mac)[i - 1]);
                    }
                }
            }
        }
    }
}

proof fn lemma_written_prefix(input: Seq<u8>, mac: bool, n: int)
    requires
        0 <= n <= spec_run(input, mac).reactions.len(),
    ensures
        spec_written(spec_run(input, mac).reactions.subrange(0, n)).len() <= n,
        forall|j: int|
            0 <= j < spec_written(spec_run(input, mac).reactions.subrange(0, n)).len()
                ==> #[trigger] spec_written(spec_run(input, mac).reactions.subrange(0, n))[j]
                == OP_PING,
    decreases n,
{
    if n > 0 {
        let reactions = spec_run(input, mac).reactions;
        lemma_written_prefix(input, mac, n - 1);
        law_ping_answered(input, mac);
        let here = reactions.subrange(0, n);
        assert(here.drop_last() =~= reactions.subrange(0, n - 1));
        assert(here.last() == reactions[n - 1]);
    }
}

/// Every byte that the handler writes back is the ping opcode, and it writes
/// at most one for each frame: one for a reply, none for anything else.
pub proof fn law_written_is_pings(input: Seq<u8>, mac: bool)
    ensures
        spec_written(spec_run(input, mac).reactions).len() <= spec_run(
            input,
            mac,
        ).reactions.len(),
        forall|j: int|
            0 <= j < spec_written(spec_run(input, mac).reactions).len()
                ==> #[trigger] spec_written(spec_run(input, mac).reactions)[j] == OP_PING,
{
    let reactions = spec_run(input, mac).reactions;
    lemma_written_prefix(input, mac, reactions.len() as int);
    assert(reactions.subrange(0, reactions.len() as int) =~= reactions);
}

/// Whether some bytes are less than one frame: nothing, or an opcode with
/// less than the payload that it announces.
pub open spec fn spec_incomplete(bytes: Seq<u8>) -> bool {
    bytes.len() == 0 || bytes.len() < 1 + spec_payload_len(bytes[0])
}

/// What the handler leaves unread of an input on which it does not close is
/// less than one frame.
pub proof fn law_rest_is_incomplete(input: Seq<u8>, mac: bool)
    requires
        spec_run(input, mac).outcome == Outcome::Truncated,
    ensures
        spec_incomplete(
            input.subrange(spec_run(input, mac).consumed as int, input.len() as int),
        ),
    decreases input.len(),
{
    law_run_ends(input, mac);
    if input.len() > 0 {
        let size = 1 + spec_payload_len(input[0]);
        if input.len() >= size {
            let rest = input.subrange(size as int, input.len() as int);
            law_rest_is_incomplete(rest, mac);
            let tail = spec_run(rest, mac);
            law_run_ends(rest, mac);
            assert(rest.subrange(tail.consumed as int, rest.len() as int) =~= input.subrange(
                (size + tail.consumed) as int,
                input.len() as int,
            ));
        } else {
            assert(input.subrange(0, input.len() as int) =~= input);
        }
    } else {
        assert(input.subrange(0, input.len() as int) =~= input);
    }
}

/// The handler on an input that begins with a whole frame: the reaction to
/// that frame, and then, unless it closes, the handler on what follows.
proof fn lemma_first_frame(input: Seq<u8>, mac: bool)
    requires
        input.len() > 0,
        input.len() >= 1 + spec_payload_len(input[0]),
    ensures
        ({
            let size = 1 + spec_payload_len(input[0]);
            let reaction = spec_react(input[0], input.subrange(1, size as int), mac);
            spec_run(input, mac) == if reaction == Reaction::Close {
                Trace { reactions: seq![reaction], outcome: Outcome::Closed, consumed: size }
            } else {
                after(
                    seq![reaction],
                    size,
                    spec_run(input.subrange(size as int, input.len() as int), mac),
                )
            }
        }),
{
}

/// The handler does the same whether its input arrives at once or in two
/// pieces: it handles the first piece, keeps what completes no frame, and
/// goes on from there when the second piece arrives. After a disconnect it
/// reads nothing more.
pub proof fn law_handled_in_pieces(first: Seq<u8>, second: Seq<u8>, mac: bool)
    ensures
        spec_run(first, mac).outcome == Outcome::Closed ==> spec_run(first + second, mac)
            == spec_run(first, mac),
        spec_run(first, mac).outcome == Outcome::Truncated ==> spec_run(first + second, mac)
            == after(
            spec_run(first, mac).reactions,
            spec_run(first, mac).consumed,
            spec_run(
                first.subrange(spec_run(first, mac).consumed as int, first.len() as int) + second,
                mac,
            ),
        ),
    decreases first.len(),
{
    let whole = first + second;
    let joined = spec_run(whole, mac);
    let alone = spec_run(first, mac);
    if first.len() == 0 || first.len() < 1 + spec_payload_len(first[0]) {
        assert(alone == truncated());
        assert(first.subrange(0, first.len() as int) + second =~= whole);
        assert(alone.reactions + joined.reactions =~= joined.reactions);
    } else {
        let size = 1 + spec_payload_len(first[0]);
        let reaction = spec_react(first[0], first.subrange(1, size as int), mac);
        let rest = first.subrange(size as int, first.len() as int);
        let tail = spec_run(rest, mac);
        let later = spec_run(rest + second, mac);
        assert(whole[0] == first[0]);
        assert(whole.subrange(1, size as int) =~= first.subrange(1, size as int));
        assert(whole.subrange(size as int, whole.len() as int) =~= rest + second);
        lemma_first_frame(first, mac);
        lemma_first_frame(whole, mac);
        if reaction != Reaction::Close {
            assert(alone == after(seq![reaction], size, tail));
            assert(joined == after(seq![reaction], size, later));
            law_handled_in_pieces(rest, second, mac);
            if tail.outcome == Outcome::Truncated {
                law_run_ends(rest, mac);
                let left = rest.subrange(tail.consumed as int, rest.len() as int);
                let next = spec_run(left + second, mac);
                assert(later == after(tail.reactions, tail.consumed, next));
                assert(left =~= first.subrange(alone.consumed as int, first.len() as int));
                assert(joined.reactions =~= alone.reactions + next.reactions);
            }
        }
    }
}

/// The server's end of one connection: it takes the bytes of the stream as
/// they arrive and keeps those that complete no frame yet.
pub struct Connection {
    should_mac: bool,
    pending: Vec<u8>,
    closed: bool,
}

impl Connection {
    /// Whether each received buffer is hashed.
    pub closed spec fn should_mac(&self) -> bool {
        self.should_mac
    }

    /// The bytes that were received and complete no frame yet.
    pub closed spec fn pending(&self) -> Seq<u8> {
        self.pending@
    }

    /// Whether a disconnect has been handled.
    pub closed spec fn closed(&self) -> bool {
        self.closed
    }

    /// What is kept is less than one frame, and nothing once the connection
    /// is closed.
    pub open spec fn wf(&self) -> bool {
        &&& spec_incomplete(self.pending())
        &&& self.closed() ==> self.pending().len() == 0
    }

    /// A connection on which nothing has arrived yet.
    pub fn new(should_mac: bool) -> (c: Connection)
        ensures
            c.wf(),
            c.should_mac() == should_mac,
            c.pending() == Seq::<u8>::empty(),
            !c.closed(),
    {
        Connection { should_mac, pending: Vec::new(), closed: false }
    }

    /// Whether a disconnect has been handled.
    pub fn is_closed(&self) -> (b: bool)
        ensures
            b == self.closed(),
    {
        self.closed
    }

    /// Number of received bytes that wait for the rest of their frame.
    pub fn pending_len(&self) -> (n: usize)
        ensures
            n == self.pending().len(),
    {
        self.pending.len()
    }

    /// Handles the bytes that have just arrived, behind those that were
    /// kept: every frame that is now complete gets its reaction, and what
    /// is left over is kept for the next call. The report ends `Closed`
    /// once a disconnect is handled, and `Truncated` where more bytes are
    /// awaited. A closed connection reads nothing.
    pub fn handle(&mut self, received: &[u8]) -> (report: Report)
        requires
            old(self).wf(),
        ensures
            final(self).wf(),
            final(self).should_mac() == old(self).should_mac(),
            old(self).closed() ==> report@ == (Trace {
                reactions: Seq::empty(),
                outcome: Outcome::Closed,
                consumed: 0,
            }) && final(self).closed(),
            !old(self).closed() ==> report@ == spec_run(
                old(self).pending() + received@,
                old(self).should_mac(),
            ),
            !old(self).closed() ==> final(self).closed() == (report.outcome == Outcome::Closed),
            !final(self).closed() ==> final(self).pending() == (old(self).pending()
                + received@).subrange(
                report.consumed as int,
                (old(self).pending().len() + received@.len()) as int,
            ),
    {
        if self.closed {
            return Report { reactions: Vec::new(), outcome: Outcome::Closed, consumed: 0 };
        }
        let mut all: Vec<u8> = Vec::new();
        all.extend_from_slice(self.pending.as_slice());
        all.extend_from_slice(received);
        assert(all@ =~= old(self).pending() + received@);
        let report: Report = run(all.as_slice(), self.should_mac);
        if report.outcome == Outcome::Closed {
            self.pending = Vec::new();
            self.closed = true;
        } else {
            proof {
                law_rest_is_incomplete(all@, self.should_mac);
            }
            self.pending = slice_to_vec(slice_subrange(all.as_slice(), report.consumed, all.len()));
        }
        report
    }
}

} // verus!
