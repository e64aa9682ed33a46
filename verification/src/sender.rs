//! The sender worker of a connection and the queue that feeds it.
//!
//! The handler puts duration requests into the queue and goes on reading;
//! the worker takes them out one at a time and streams filler data for as
//! long as each one asks.

use crate::clock::{expired, now_ns, spec_expired};
use std::collections::VecDeque;
use vstd::prelude::*;

verus! {

/// The requests of one connection that the worker has not taken up yet,
/// oldest first, with the state of the two ends.
pub struct RequestQueue {
    items: VecDeque<u64>,
    hung_up: bool,
    abandoned: bool,
}

/// What the worker finds when it looks into the queue.
#[derive(Clone, Copy, Debug, PartialEq, Eq, Structural)]
pub enum Received {
    /// The oldest request, now taken out of the queue.
    Request(u64),
    /// Nothing is queued, but the handler may still send.
    Empty,
    /// Nothing is queued and the handler has hung up.
    Disconnected,
}

impl View for RequestQueue {
    type V = Seq<u64>;

    closed spec fn view(&self) -> Seq<u64> {
        self.items@
    }
}

impl RequestQueue {
    /// Whether the handler has hung up: nothing more will be sent.
    pub closed spec fn hung_up(&self) -> bool {
        self.hung_up
    }

    /// Whether the worker has gone: nothing more will be taken out.
    pub closed spec fn abandoned(&self) -> bool {
        self.abandoned
    }

    /// An empty queue with both ends alive.
    pub fn new() -> (q: RequestQueue)
        ensures
            q@ == Seq::<u64>::empty(),
            !q.hung_up(),
            !q.abandoned(),
    {
        RequestQueue { items: VecDeque::new(), hung_up: false, abandoned: false }
    }

    /// Number of requests that wait.
    pub fn len(&self) -> (n: usize)
        ensures
            n == self@.len(),
    {
        self.items.len()
    }

    /// Whether the handler has hung up.
    pub fn is_hung_up(&self) -> (b: bool)
        ensures
            b == self.hung_up(),
    {
        self.hung_up
    }

    /// Whether the worker has gone.
    pub fn is_abandoned(&self) -> (b: bool)
        ensures
            b == self.abandoned(),
    {
        self.abandoned
    }

    /// Puts a request behind all that wait, and never waits itself. It is
    /// refused, and the queue left as it was, where either end has gone.
    pub fn send(&mut self, duration_ms: u64) -> (accepted: bool)
        ensures
            accepted == (!old(self).hung_up() && !old(self).abandoned()),
            accepted ==> final(self)@ == old(self)@.push(duration_ms),
            !accepted ==> final(self)@ == old(self)@,
            final(self).hung_up() == old(self).hung_up(),
            final(self).abandoned() == old(self).abandoned(),
    {
        if self.hung_up || self.abandoned {
            false
        } else {
            self.items.push_back(duration_ms);
            true
        }
    }

    /// The handler's end goes away. What is queued stays for the worker.
    pub fn hang_up(&mut self)
        ensures
            final(self)@ == old(self)@,
            final(self).hung_up(),
            final(self).abandoned() == old(self).abandoned(),
    {
        self.hung_up = true;
    }

    /// The worker's end goes away.
    pub fn abandon(&mut self)
        ensures
            final(self)@ == old(self)@,
            final(self).abandoned(),
            final(self).hung_up() == old(self).hung_up(),
    {
        self.abandoned = true;
    }

    /// Takes the oldest request out, if there is one. An empty queue reads
    /// as disconnected once the handler has hung up, and as empty before.
    pub fn recv(&mut self) -> (r: Received)
        ensures
            r == spec_recv(old(self)@, old(self).hung_up()),
            final(self)@ == spec_after_recv(old(self)@),
            final(self).hung_up() == old(self).hung_up(),
            final(self).abandoned() == old(self).abandoned(),
    {
        match self.items.pop_front() {
            Some(ms) => Received::Request(ms),
            None => {
                assert(self.items@ =~= old(self).items@);
                if self.hung_up {
                    Received::Disconnected
                } else {
                    Received::Empty
                }
            },
        }
    }
}

/// What the worker finds in a queue that holds `pending`.
pub open spec fn spec_recv(pending: Seq<u64>, hung_up: bool) -> Received {
    if pending.len() > 0 {
        Received::Request(pending[0])
    } else if hung_up {
        Received::Disconnected
    } else {
        Received::Empty
    }
}

/// What a queue that held `pending` holds after the worker has looked.
pub open spec fn spec_after_recv(pending: Seq<u64>) -> Seq<u64> {
    if pending.len() > 0 {
        pending.subrange(1, pending.len() as int)
    } else {
        pending
    }
}

/// Where the worker stands between two of its actions.
#[derive(Clone, Copy, Debug, PartialEq, Eq, Structural)]
pub enum WorkerState {
    /// It waits for the next request.
    Idle,
    /// It streams for the request of `duration_ms` milliseconds that it took
    /// up when the clock read `start_ns`.
    Streaming { start_ns: u64, duration_ms: u64 },
    /// It has left its loop for good.
    Stopped,
}

/// What the worker does next.
#[derive(Clone, Copy, Debug, PartialEq, Eq, Structural)]
pub enum WorkerAction {
    /// Nothing is queued: sleep until the queue changes.
    Wait,
    /// A request of this many milliseconds is taken up: write the first
    /// data chunk and flush.
    Start(u64),
    /// The request in service is not over: write one more data chunk and
    /// flush.
    Chunk,
    /// The request of this many milliseconds is over: write the end marker.
    End(u64),
    /// The handler has hung up and nothing is queued: leave.
    Exit,
}

/// One turn of the worker, as a mathematical value.
pub ghost struct Turn {
    /// The state after the turn.
    pub state: WorkerState,
    /// The queue after the turn.
    pub pending: Seq<u64>,
    /// What the worker does.
    pub action: WorkerAction,
}

/// One turn of the worker at the clock reading `now_ns`.
///
/// Idle, it takes the oldest request and starts to stream; with nothing
/// queued it waits, or leaves once the handler has hung up. Streaming, it
/// has just written a chunk: it writes the end marker once the duration has
/// elapsed, and another chunk before that. It looks into the queue only
/// when it is idle.
pub open spec fn spec_step(state: WorkerState, pending: Seq<u64>, hung_up: bool, now_ns: u64)
    -> Turn {
    match state {
        WorkerState::Idle => match spec_recv(pending, hung_up) {
            Received::Request(ms) => Turn {
                state: WorkerState::Streaming { start_ns: now_ns, duration_ms: ms },
                pending: spec_after_recv(pending),
                action: WorkerAction::Start(ms),
            },
            Received::Empty => Turn { state, pending, action: WorkerAction::Wait },
            Received::Disconnected => Turn {
                state: WorkerState::Stopped,
                pending,
                action: WorkerAction::Exit,
            },
        },
        WorkerState::Streaming { start_ns, duration_ms } => if spec_expired(
            start_ns,
            now_ns,
            duration_ms,
        ) {
            Turn { state: WorkerState::Idle, pending, action: WorkerAction::End(duration_ms) }
        } else {
            Turn { state, pending, action: WorkerAction::Chunk }
        },
        WorkerState::Stopped => Turn { state, pending, action: WorkerAction::Exit },
    }
}

/// The sender worker of one connection.
#[derive(Clone, Copy, Debug)]
pub struct Worker {
    /// Where the worker stands.
    pub state: WorkerState,
}

impl Worker {
    /// A worker that waits for its first request.
    pub fn new() -> (w: Worker)
        ensures
            w.state == WorkerState::Idle,
    {
        Worker { state: WorkerState::Idle }
    }

    /// One turn of the worker at a given clock reading: it decides what to
    /// write next and takes a request out of the queue where it starts one.
    pub fn step(&mut self, queue: &mut RequestQueue, now_ns: u64) -> (action: WorkerAction)
        ensures
            (Turn { state: final(self).state, pending: final(queue)@, action }) == spec_step(
                old(self).state,
                old(queue)@,
                old(queue).hung_up(),
                now_ns,
            ),
            final(queue).hung_up() == old(queue).hung_up(),
            final(queue).abandoned() == old(queue).abandoned(),
    {
        match self.state {
            WorkerState::Idle => match queue.recv() {
                Received::Request(ms) => {
                    self.state = WorkerState::Streaming { start_ns: now_ns, duration_ms: ms };
                    WorkerAction::Start(ms)
                },
                Received::Empty => WorkerAction::Wait,
                Received::Disconnected => {
                    self.state = WorkerState::Stopped;
                    WorkerAction::Exit
                },
            },
            WorkerState::Streaming { start_ns, duration_ms } => {
                if expired(start_ns, now_ns, duration_ms) {
                    self.state = WorkerState::Idle;
                    WorkerAction::End(duration_ms)
                } else {
                    WorkerAction::Chunk
                }
            },
            WorkerState::Stopped => WorkerAction::Exit,
        }
    }

    /// One turn of the worker at the present moment: it reads the clock and
    /// takes the turn that belongs to that reading, whatever it is.
    pub fn advance(&mut self, queue: &mut RequestQueue) -> (action: WorkerAction)
        ensures
            exists|now_ns: u64|
                (Turn { state: final(self).state, pending: final(queue)@, action })
                    == #[trigger] spec_step(
                    old(self).state,
                    old(queue)@,
                    old(queue).hung_up(),
                    now_ns,
                ),
            final(queue).hung_up() == old(queue).hung_up(),
            final(queue).abandoned() == old(queue).abandoned(),
    {
        let now: u64 = now_ns();
        self.step(queue, now)
    }
}

/// Something that happens on a connection, seen from the queue and the
/// worker.
pub ghost enum Event {
    /// The handler sends a request of this many milliseconds.
    Send(u64),
    /// The handler goes away.
    HangUp,
    /// The worker takes a turn while the clock reads this.
    Tick(u64),
}

/// A connection's worker together with its queue.
pub ghost struct Line {
    /// Where the worker stands.
    pub state: WorkerState,
    /// The requests that wait, oldest first.
    pub pending: Seq<u64>,
    /// Whether the handler has gone.
    pub hung_up: bool,
}

/// The line after one event.
pub open spec fn spec_line_after(line: Line, event: Event) -> Line {
    match event {
        Event::Send(ms) => if line.hung_up {
            line
        } else {
            Line { pending: line.pending.push(ms), ..line }
        },
        Event::HangUp => Line { hung_up: true, ..line },
        Event::Tick(now_ns) => {
            let turn = spec_step(line.state, line.pending, line.hung_up, now_ns);
            Line { state: turn.state, pending: turn.pending, hung_up: line.hung_up }
        },
    }
}

/// The actions of the worker, in order, while these events happen to the
/// line: one action for each turn.
pub open spec fn spec_play(line: Line, events: Seq<Event>) -> Seq<WorkerAction>
    decreases events.len(),
{
    if events.len() == 0 {
        Seq::empty()
    } else {
        let rest = spec_play(spec_line_after(line, events[0]), events.drop_first());
        match events[0] {
            Event::Tick(now_ns) => seq![
                spec_step(line.state, line.pending, line.hung_up, now_ns).action,
            ] + rest,
            _ => rest,
        }
    }
}

/// The requests that the handler gets into the queue during these events:
/// all that it sends before it hangs up.
pub open spec fn spec_accepted(hung_up: bool, events: Seq<Event>) -> Seq<u64>
    decreases events.len(),
{
    if events.len() == 0 || hung_up {
        Seq::empty()
    } else {
        match events[0] {
            Event::Send(ms) => seq![ms] + spec_accepted(hung_up, events.drop_first()),
            Event::HangUp => Seq::empty(),
            Event::Tick(_) => spec_accepted(hung_up, events.drop_first()),
        }
    }
}

/// The requests that these actions take up, in order.
pub open spec fn spec_started(actions: Seq<WorkerAction>) -> Seq<u64>
    decreases actions.len(),
{
    if actions.len() == 0 {
        Seq::empty()
    } else {
        match actions[0] {
            WorkerAction::Start(ms) => seq![ms] + spec_started(actions.drop_first()),
            _ => spec_started(actions.drop_first()),
        }
    }
}

/// The requests that these actions complete with an end marker, in order.
pub open spec fn spec_finished(actions: Seq<WorkerAction>) -> Seq<u64>
    decreases actions.len(),
{
    if actions.len() == 0 {
        Seq::empty()
    } else {
        match actions[0] {
            WorkerAction::End(ms) => seq![ms] + spec_finished(actions.drop_first()),
            _ => spec_finished(actions.drop_first()),
        }
    }
}

/// The request in service, if there is one.
pub open spec fn spec_in_service(state: WorkerState) -> Seq<u64> {
    match state {
        WorkerState::Streaming { start_ns, duration_ms } => seq![duration_ms],
        _ => Seq::empty(),
    }
}

proof fn lemma_prefix_behind(head: u64, a: Seq<u64>, b: Seq<u64>)
    requires
        a.is_prefix_of(b),
    ensures
        (seq![head] + a).is_prefix_of(seq![head] + b),
{
    let x = seq![head] + a;
    let y = seq![head] + b;
    assert(x =~= y.subrange(0, x.len() as int)) by {
        assert forall|i: int| 0 <= i < x.len() implies x[i] == y[i] by {
            if i > 0 {
                assert(x[i] == a[i - 1]);
                assert(a[i - 1] == b.subrange(0, a.len() as int)[i - 1]);
            }
        }
    }
}

/// Requests are served in the order in which they were sent, one at a time.
///
/// Whatever the handler sends, whenever it hangs up and whatever the clock
/// reads at each turn of the worker: the requests that the worker takes up
/// are the first of those that wait or arrive, in their order, and so are
/// the requests that it completes, after the one in service. It never takes
/// a request up before it has written the end marker of the one before.
pub proof fn law_served_in_order(line: Line, events: Seq<Event>)
    ensures
        spec_started(spec_play(line, events)).is_prefix_of(
            line.pending + spec_accepted(line.hung_up, events),
        ),
        spec_finished(spec_play(line, events)).is_prefix_of(
            spec_in_service(line.state) + line.pending + spec_accepted(line.hung_up, events),
        ),
        line.state is Streaming ==> spec_started(spec_play(line, events)).len() <= spec_finished(
            spec_play(line, events),
        ).len() <= spec_started(spec_play(line, events)).len() + 1,
        !(line.state is Streaming) ==> spec_finished(spec_play(line, events)).len()
            <= spec_started(spec_play(line, events)).len() <= spec_finished(
            spec_play(line, events),
        ).len() + 1,
    decreases events.len(),
{
    let actions = spec_play(line, events);
    let waiting = line.pending + spec_accepted(line.hung_up, events);
    let owed = spec_in_service(line.state) + line.pending + spec_accepted(line.hung_up, events);
    if events.len() == 0 {
        assert(spec_started(actions) =~= waiting.subrange(0, 0));
        assert(spec_finished(actions) =~= owed.subrange(0, 0));
    } else {
        let next = spec_line_after(line, events[0]);
        let rest = events.drop_first();
        law_served_in_order(next, rest);
        let later = spec_play(next, rest);
        let waiting_next = next.pending + spec_accepted(next.hung_up, rest);
        let owed_next = spec_in_service(next.state) + next.pending + spec_accepted(
            next.hung_up,
            rest,
        );
        match events[0] {
            Event::Send(ms) => {
                assert(actions == later);
                assert(waiting_next =~= waiting);
                assert(owed_next =~= owed);
            },
            Event::HangUp => {
                assert(actions == later);
                assert(spec_accepted(true, rest) =~= Seq::<u64>::empty());
                assert(waiting_next =~= waiting);
                assert(owed_next =~= owed);
            },
            Event::Tick(now_ns) => {
                let turn = spec_step(line.state, line.pending, line.hung_up, now_ns);
                assert(actions =~= seq![turn.action] + later);
                assert(actions.drop_first() =~= later);
                assert(actions[0] == turn.action);
                match turn.action {
                    WorkerAction::Start(ms) => {
                        assert(spec_started(actions) == seq![ms] + spec_started(later));
                        assert(spec_finished(actions) == spec_finished(later));
                        assert(line.pending =~= seq![ms] + next.pending);
                        assert(waiting =~= seq![ms] + waiting_next);
                        assert(owed =~= owed_next);
                        lemma_prefix_behind(ms, spec_started(later), waiting_next);
                    },
                    WorkerAction::End(ms) => {
                        assert(spec_started(actions) == spec_started(later));
                        assert(spec_finished(actions) == seq![ms] + spec_finished(later));
                        assert(waiting =~= waiting_next);
                        assert(owed =~= seq![ms] + owed_next);
                        lemma_prefix_behind(ms, spec_finished(later), owed_next);
                    },
                    _ => {
                        assert(spec_started(actions) == spec_started(later));
                        assert(spec_finished(actions) == spec_finished(later));
                        assert(waiting =~= waiting_next);
                        assert(owed =~= owed_next);
                    },
                }
            },
        }
    }
}

} // verus!
