//! The decisions of a client's connection to the wormhole: which phase the
//! connection is in, what each request and each event does to it, and how a
//! note that arrives is routed to the handlers that wait for notes.
//!
//! Sockets, timers, serialization and the handlers themselves live around
//! these functions. The free functions decide on a phase alone; `Connection`
//! holds the whole state (phase, heartbeat clock, note queue, waiting handlers and
//! ask count), and each of its methods is one event and says what comes next.

use vstd::prelude::*;
use std::collections::VecDeque;
use super::{AskMessage, Ask, AskedNote, Note, SERVER_TIMEOUT_SECS};

verus! {

/// Where a connection stands.
#[derive(Clone, Copy, Debug, PartialEq, Eq, Structural)]
pub enum Phase {
    NotConnected,
    WebsocketsConnected,
    /// Connected (a `Connection` keeps the time of the server's last heartbeat answer).
    Connected,
    ConnectionLost,
}

/// Why a request to the connection failed.
#[derive(Clone, Copy, Debug, PartialEq, Eq, Structural)]
pub enum ConnectionFailure {
    ConnectionLost,
    NeverConnected,
}

/// What a handler said about a note: pass it on, or consume it so that later
/// handlers do not see it. A handler that yields its value returns no behavior.
#[derive(Clone, Copy, Debug, PartialEq, Eq, Structural)]
pub enum ContinueBehavior {
    Pass,
    Consume,
}

/// What happens to a note once a handler has claimed it.
#[derive(Clone, Copy, Debug, PartialEq, Eq, Structural)]
pub enum GreedyAction {
    /// The note is dropped; the handler stays.
    Consume,
    /// The note is dropped and the handler at this index is removed, its job done.
    Take(usize),
}

/// What asking to pop a note from the queue leads to.
#[derive(Clone, Copy, Debug, PartialEq, Eq, Structural)]
pub enum PopOutcome {
    /// Pop the front of the queue (nothing if it is empty).
    PopFront,
    /// Nothing can have arrived yet.
    Nothing,
    Fail(ConnectionFailure),
}

/// Popping a note: only a connected connection has a queue to pop from.
pub fn pop_note(phase: Phase) -> (r: PopOutcome)
    ensures
        phase == Phase::Connected ==> r == PopOutcome::PopFront,
        phase == Phase::WebsocketsConnected ==> r == PopOutcome::Nothing,
        phase == Phase::ConnectionLost ==> r == PopOutcome::Fail(ConnectionFailure::ConnectionLost),
        phase == Phase::NotConnected ==> r == PopOutcome::Fail(ConnectionFailure::NeverConnected),
{
    match phase {
        Phase::Connected => PopOutcome::PopFront,
        Phase::WebsocketsConnected => PopOutcome::Nothing,
        Phase::ConnectionLost => PopOutcome::Fail(ConnectionFailure::ConnectionLost),
        Phase::NotConnected => PopOutcome::Fail(ConnectionFailure::NeverConnected),
    }
}

/// Sending an ask: a connected connection numbers the ask with the count of
/// asks sent so far; any other phase refuses it.
pub fn send_ask(phase: Phase, asks_sent: usize, ask: Ask) -> (r: Result<AskMessage, ConnectionFailure>)
    ensures
        phase == Phase::Connected ==> (r matches Ok(m) && m.ask_id == asks_sent && m.ask == ask),
        phase == Phase::ConnectionLost ==> r == Err::<AskMessage, ConnectionFailure>(
            ConnectionFailure::ConnectionLost,
        ),
        (phase == Phase::NotConnected || phase == Phase::WebsocketsConnected) ==> r == Err::<
            AskMessage,
            ConnectionFailure,
        >(ConnectionFailure::NeverConnected),
{
    match phase {
        Phase::Connected => Ok(AskMessage { ask, ask_id: asks_sent }),
        Phase::ConnectionLost => Err(ConnectionFailure::ConnectionLost),
        _ => Err(ConnectionFailure::NeverConnected),
    }
}

/// The count of asks sent once an ask went out.
pub fn ask_sent(asks_sent: usize) -> (r: usize)
    requires
        asks_sent < usize::MAX,
    ensures
        r == asks_sent + 1,
{
    asks_sent + 1
}

/// Disconnecting: a connected connection says goodbye to the server (the
/// returned flag) and is lost from then on; any other phase stays as it is.
pub fn disconnect(phase: Phase) -> (r: (Phase, bool))
    ensures
        phase == Phase::Connected ==> r == (Phase::ConnectionLost, true),
        phase != Phase::Connected ==> r == (phase, false),
{
    match phase {
        Phase::Connected => (Phase::ConnectionLost, true),
        other => (other, false),
    }
}

/// Whether this long since the server's last heartbeat answer means the server is gone.
pub open spec fn heartbeat_timed_out(nanos_since_heartbeat: u128) -> bool {
    nanos_since_heartbeat > SERVER_TIMEOUT_SECS * 1_000_000_000
}

/// A heartbeat tick: a connected connection pings the server (the returned flag),
/// and is lost once the server has not answered for longer than the server timeout.
pub fn heartbeat(phase: Phase, nanos_since_heartbeat: u128) -> (r: (Phase, bool))
    ensures
        phase == Phase::Connected && heartbeat_timed_out(nanos_since_heartbeat) ==> r == (
            Phase::ConnectionLost,
            true,
        ),
        phase == Phase::Connected && !heartbeat_timed_out(nanos_since_heartbeat) ==> r == (
            Phase::Connected,
            true,
        ),
        phase != Phase::Connected ==> r == (phase, false),
{
    match phase {
        Phase::Connected => {
            if nanos_since_heartbeat > (SERVER_TIMEOUT_SECS as u128) * 1_000_000_000 {
                (Phase::ConnectionLost, true)
            } else {
                (Phase::Connected, true)
            }
        },
        other => (other, false),
    }
}

/// The stream of frames from the server started.
pub fn stream_started(phase: Phase) -> (r: Phase)
    ensures
        phase == Phase::Connected ==> r == Phase::Connected,
        phase != Phase::Connected ==> r == Phase::WebsocketsConnected,
{
    match phase {
        Phase::Connected => Phase::Connected,
        _ => Phase::WebsocketsConnected,
    }
}

/// The stream of frames from the server ended.
pub fn stream_finished(_phase: Phase) -> (r: Phase)
    ensures
        r == Phase::ConnectionLost,
{
    Phase::ConnectionLost
}

/// Whether a request to connect should be carried out: not while connected.
pub fn should_connect(phase: Phase) -> (r: bool)
    ensures
        r == !(phase == Phase::Connected || phase == Phase::WebsocketsConnected),
{
    match phase {
        Phase::Connected | Phase::WebsocketsConnected => false,
        _ => true,
    }
}

/// What the handler at `index` did with a note decides the note's fate: a handler
/// that passes leaves it to the next one (`None`).
pub fn handler_verdict(response: Option<ContinueBehavior>, index: usize) -> (r: Option<GreedyAction>)
    ensures
        r == verdict_spec(response, index as int),
{
    match response {
        Some(ContinueBehavior::Pass) => None,
        Some(ContinueBehavior::Consume) => Some(GreedyAction::Consume),
        None => Some(GreedyAction::Take(index)),
    }
}

/// What one handler's response makes of a note.
pub open spec fn verdict_spec(response: Option<ContinueBehavior>, index: int) -> Option<GreedyAction> {
    match response {
        Some(ContinueBehavior::Pass) => None,
        Some(ContinueBehavior::Consume) => Some(GreedyAction::Consume),
        None => Some(GreedyAction::Take(index as usize)),
    }
}

/// The fate of a note, given what each handler in turn said of it: the first
/// handler that does not pass decides.
pub open spec fn route_spec(responses: Seq<Option<ContinueBehavior>>) -> Option<GreedyAction>
    decreases responses.len(),
{
    if responses.len() == 0 {
        None
    } else {
        match route_spec(responses.drop_last()) {
            Some(a) => Some(a),
            None => verdict_spec(responses.last(), responses.len() - 1),
        }
    }
}

/// Routes a note through handlers whose responses are known: the first handler that
/// does not pass decides, and a note nobody claims is queued (`None`).
pub fn route(responses: &[Option<ContinueBehavior>]) -> (r: Option<GreedyAction>)
    ensures
        r == route_spec(responses@),
{
    let mut i: usize = 0;
    while i < responses.len()
        invariant
            i <= responses@.len(),
            route_spec(responses@.take(i as int)) is None,
        decreases responses@.len() - i,
    {
        assert(responses@.take(i + 1).drop_last() =~= responses@.take(i as int));
        match handler_verdict(responses[i], i) {
            Some(a) => {
                proof {
                    lemma_route_prefix(responses@, i as int + 1);
                }
                return Some(a);
            },
            None => {},
        }
        i = i + 1;
    }
    assert(responses@.take(i as int) =~= responses@);
    None
}

/// Once a prefix of the handlers decided, later handlers change nothing.
pub proof fn lemma_route_prefix(responses: Seq<Option<ContinueBehavior>>, n: int)
    requires
        0 <= n <= responses.len(),
        route_spec(responses.take(n)) is Some,
    ensures
        route_spec(responses) == route_spec(responses.take(n)),
    decreases responses.len() - n,
{
    if n == responses.len() {
        assert(responses.take(n) =~= responses);
    } else {
        assert(responses.drop_last().take(n) =~= responses.take(n));
        lemma_route_prefix(responses.drop_last(), n);
    }
}

/// A note is queued exactly when every handler passes it on; otherwise the
/// first handler that does not pass decides its fate.
pub proof fn law_first_claimer_decides(responses: Seq<Option<ContinueBehavior>>)
    ensures
        route_spec(responses) is None <==> forall|i: int|
            0 <= i < responses.len() ==> #[trigger] responses[i] == Some(ContinueBehavior::Pass),
        forall|i: int|
            0 <= i < responses.len() && #[trigger] responses[i] != Some(ContinueBehavior::Pass) && (forall|j: int|
                0 <= j < i ==> responses[j] == Some(ContinueBehavior::Pass)) ==> route_spec(responses)
                == verdict_spec(responses[i], i),
    decreases responses.len(),
{
    if responses.len() > 0 {
        let front = responses.drop_last();
        law_first_claimer_decides(front);
        assert forall|i: int| 0 <= i < front.len() implies #[trigger] front[i] == responses[i] by {}
        let n = responses.len() - 1;
        if route_spec(front) is None {
            assert(forall|i: int| 0 <= i < front.len() ==> responses[i] == Some(ContinueBehavior::Pass)) by {
                assert forall|i: int| 0 <= i < front.len() implies responses[i] == Some(ContinueBehavior::Pass) by {
                    assert(front[i] == Some(ContinueBehavior::Pass));
                }
            }
        } else {
            let k = choose|k: int| 0 <= k < front.len() && front[k] != Some(ContinueBehavior::Pass);
            assert(responses[k] != Some(ContinueBehavior::Pass));
        }
        assert forall|i: int|
            0 <= i < responses.len() && #[trigger] responses[i] != Some(ContinueBehavior::Pass) && (forall|j: int|
                0 <= j < i ==> responses[j] == Some(ContinueBehavior::Pass)) implies route_spec(responses)
            == verdict_spec(responses[i], i) by {
            if i < n {
                assert(front[i] != Some(ContinueBehavior::Pass));
                assert(forall|j: int| 0 <= j < i ==> front[j] == Some(ContinueBehavior::Pass));
            } else {
                assert(forall|j: int| 0 <= j < front.len() ==> front[j] == Some(ContinueBehavior::Pass));
            }
        }
    }
}

/// The answer a note carries to the ask numbered `ask_id`, if it carries one:
/// what a handler waiting for that ask looks at.
pub fn asked_note_for(note: &Note, ask_id: usize) -> (r: Option<&AskedNote>)
    ensures
        r matches Some(n) ==> *note == (Note::Asked { note: *n, ask_id }),
        r is None <==> !(note matches Note::Asked { ask_id: id, .. } && id == ask_id),
{
    match note {
        Note::Asked { note: n, ask_id: id } => if *id == ask_id {
            Some(n)
        } else {
            None
        },
        _ => None,
    }
}


/// What went wrong receiving a frame from the server, kept in the note queue in
/// the note's place: the transport failed, or a text frame was not UTF-8, or its
/// text was not a note. Each carries the message of the error that said so.
#[derive(Clone, Debug, PartialEq, Eq)]
pub enum FrameError {
    WebSocket(String),
    Utf8(String),
    Serde(String),
}

/// Why popping a note failed: the connection is not there, or the front of the
/// queue held a frame that could not be received.
#[derive(Clone, Debug)]
pub enum ReceiveError {
    Connection(ConnectionFailure),
    Frame(FrameError),
}

/// What routing a note asks for next.
#[derive(Clone, Copy, Debug, PartialEq, Eq, Structural)]
pub enum Step {
    /// Show the note to the handler at this index, and route again with its answer.
    AskHandler(usize),
    /// The note's fate is settled (`None`: it goes to the queue).
    Decided(Option<GreedyAction>),
}

/// A client's connection to the wormhole: its phase, when the server last
/// answered a heartbeat, the notes (or receiving errors) that arrived and that no
/// handler claimed, in order of arrival, the note handlers that wait (by the
/// number each got when it was registered, in that order), and how many asks
/// were sent.
///
/// Sockets, timers and the handlers themselves live around it: each method is one
/// event, and says what it does to the connection and what must be done next.
pub struct Connection {
    pub phase: Phase,
    /// The caller's clock, in nanoseconds, when the server last answered; read
    /// while connected.
    pub heartbeat_at: u128,
    pub notes: VecDeque<Result<Note, FrameError>>,
    /// The numbers of the waiting note handlers, in the order they were registered.
    pub handlers: Vec<u64>,
    /// The number the next registered handler gets.
    pub next_handler: u64,
    pub asks_sent: usize,
}

/// What popping a queued entry hands out.
pub open spec fn popped(entry: Result<Note, FrameError>) -> Result<Option<Note>, ReceiveError> {
    match entry {
        Ok(n) => Ok(Some(n)),
        Err(e) => Err(ReceiveError::Frame(e)),
    }
}

/// Whether every answer given so far passed the note on.
pub open spec fn all_passed(answers: Seq<Option<ContinueBehavior>>) -> bool {
    forall|i: int| 0 <= i < answers.len() ==> #[trigger] answers[i] == Some(ContinueBehavior::Pass)
}

/// The next step of routing a note past `handlers` handlers, given the answers of
/// the handlers asked so far (all but the last of which passed).
pub open spec fn route_step_spec(handlers: int, answers: Seq<Option<ContinueBehavior>>) -> Step {
    if answers.len() > 0 && answers.last() != Some(ContinueBehavior::Pass) {
        Step::Decided(verdict_spec(answers.last(), answers.len() - 1))
    } else if answers.len() < handlers {
        Step::AskHandler(answers.len() as usize)
    } else {
        Step::Decided(None)
    }
}

impl Connection {
    /// A connection that was never made, with nothing queued and nothing sent.
    pub fn new() -> (r: Connection)
        ensures
            r.phase == Phase::NotConnected,
            r.heartbeat_at == 0,
            r.notes@.len() == 0,
            r.handlers@.len() == 0,
            r.next_handler == 0,
            r.asks_sent == 0,
    {
        Connection {
            phase: Phase::NotConnected,
            heartbeat_at: 0,
            notes: VecDeque::new(),
            handlers: Vec::new(),
            next_handler: 0,
            asks_sent: 0,
        }
    }

    /// Whether a request to connect should be carried out.
    pub fn wants_connection(&self) -> (r: bool)
        ensures
            r == !(self.phase == Phase::Connected || self.phase == Phase::WebsocketsConnected),
    {
        should_connect(self.phase)
    }

    /// The connection was made at `now`: it is connected, and the heartbeat
    /// clock starts then.
    pub fn connected(&mut self, now: u128)
        ensures
            final(self).phase == Phase::Connected,
            final(self).heartbeat_at == now,
            final(self).notes@ == old(self).notes@,
            final(self).handlers@ == old(self).handlers@,
            final(self).next_handler == old(self).next_handler,
            final(self).asks_sent == old(self).asks_sent,
    {
        self.phase = Phase::Connected;
        self.heartbeat_at = now;
    }

    /// The stream of frames started.
    pub fn started(&mut self)
        ensures
            final(self).phase == stream_started_spec(old(self).phase),
            old(self).phase == Phase::Connected ==> final(self).phase == Phase::Connected,
            old(self).phase != Phase::Connected ==> final(self).phase == Phase::WebsocketsConnected,
            final(self).heartbeat_at == old(self).heartbeat_at,
            final(self).notes@ == old(self).notes@,
            final(self).handlers@ == old(self).handlers@,
            final(self).next_handler == old(self).next_handler,
            final(self).asks_sent == old(self).asks_sent,
    {
        self.phase = stream_started(self.phase);
    }

    /// The stream of frames ended: the connection is lost.
    pub fn finished(&mut self)
        ensures
            final(self).phase == Phase::ConnectionLost,
            final(self).heartbeat_at == old(self).heartbeat_at,
            final(self).notes@ == old(self).notes@,
            final(self).handlers@ == old(self).handlers@,
            final(self).next_handler == old(self).next_handler,
            final(self).asks_sent == old(self).asks_sent,
    {
        self.phase = stream_finished(self.phase);
    }

    /// A note handler was registered: it gets the next number and waits after
    /// those already waiting.
    pub fn register_handler(&mut self) -> (id: u64)
        requires
            old(self).next_handler < u64::MAX,
        ensures
            id == old(self).next_handler,
            final(self).handlers@ == old(self).handlers@.push(id),
            final(self).next_handler == old(self).next_handler + 1,
            final(self).phase == old(self).phase,
            final(self).heartbeat_at == old(self).heartbeat_at,
            final(self).notes@ == old(self).notes@,
            final(self).asks_sent == old(self).asks_sent,
    {
        let id = self.next_handler;
        self.handlers.push(id);
        self.next_handler = self.next_handler + 1;
        id
    }

    /// Pops the oldest queued note. Only a connected connection has a queue to pop
    /// from: its front leaves the queue, and a receiving error there is returned as
    /// the error; an empty queue gives `Ok(None)`. A connection whose socket is up
    /// but not yet confirmed gives `Ok(None)`, and one lost or never made fails;
    /// those leave the queue as it is.
    pub fn pop_note(&mut self) -> (r: Result<Option<Note>, ReceiveError>)
        ensures
            final(self).phase == old(self).phase,
            final(self).heartbeat_at == old(self).heartbeat_at,
            final(self).handlers@ == old(self).handlers@,
            final(self).next_handler == old(self).next_handler,
            final(self).asks_sent == old(self).asks_sent,
            old(self).phase == Phase::Connected && old(self).notes@.len() > 0 ==> (r == popped(
                old(self).notes@[0],
            ) && final(self).notes@ == old(self).notes@.drop_first()),
            old(self).phase == Phase::Connected && old(self).notes@.len() == 0 ==> (r matches Ok(None)
                && final(self).notes@ == old(self).notes@),
            old(self).phase == Phase::WebsocketsConnected ==> (r matches Ok(None) && final(self).notes@
                == old(self).notes@),
            old(self).phase == Phase::ConnectionLost ==> (r matches Err(
                ReceiveError::Connection(ConnectionFailure::ConnectionLost),
            ) && final(self).notes@ == old(self).notes@),
            old(self).phase == Phase::NotConnected ==> (r matches Err(
                ReceiveError::Connection(ConnectionFailure::NeverConnected),
            ) && final(self).notes@ == old(self).notes@),
    {
        match pop_note(self.phase) {
            PopOutcome::PopFront => match self.notes.pop_front() {
                None => Ok(None),
                Some(entry) => {
                    assert(self.notes@ =~= old(self).notes@.drop_first());
                    match entry {
                        Ok(n) => Ok(Some(n)),
                        Err(e) => Err(ReceiveError::Frame(e)),
                    }
                },
            },
            PopOutcome::Nothing => Ok(None),
            PopOutcome::Fail(f) => Err(ReceiveError::Connection(f)),
        }
    }

    /// The message that sending `ask` would write: a connected connection numbers
    /// it with the count of asks sent so far; other phases refuse. Nothing changes
    /// until the message was written (`ask_written`).
    pub fn ask_message(&self, ask: Ask) -> (r: Result<AskMessage, ConnectionFailure>)
        ensures
            r == ask_result(*self, ask),
    {
        send_ask(self.phase, self.asks_sent, ask)
    }

    /// An ask message went out: one more ask was sent.
    pub fn ask_written(&mut self)
        requires
            old(self).phase == Phase::Connected,
            old(self).asks_sent < usize::MAX,
        ensures
            final(self).asks_sent == old(self).asks_sent + 1,
            final(self).phase == old(self).phase,
            final(self).heartbeat_at == old(self).heartbeat_at,
            final(self).notes@ == old(self).notes@,
            final(self).handlers@ == old(self).handlers@,
            final(self).next_handler == old(self).next_handler,
    {
        self.asks_sent = ask_sent(self.asks_sent);
    }

    /// Disconnecting: a connected connection says goodbye (the returned flag) and
    /// is lost from then on; any other phase stays.
    pub fn disconnect(&mut self) -> (r: bool)
        ensures
            (final(self).phase, r) == disconnect_spec(old(self).phase),
            final(self).heartbeat_at == old(self).heartbeat_at,
            final(self).notes@ == old(self).notes@,
            final(self).handlers@ == old(self).handlers@,
            final(self).next_handler == old(self).next_handler,
            final(self).asks_sent == old(self).asks_sent,
    {
        let (p, bye) = disconnect(self.phase);
        self.phase = p;
        bye
    }

    /// A heartbeat tick at `now`: a connected connection pings the server (the
    /// returned flag), and is lost once the server's last answer is older than the
    /// server timeout (a clock that went back counts as no time at all).
    pub fn heartbeat_tick(&mut self, now: u128) -> (r: bool)
        ensures
            r == (old(self).phase == Phase::Connected),
            final(self).phase == (if old(self).phase == Phase::Connected && heartbeat_timed_out(
                since(old(self).heartbeat_at, now),
            ) {
                Phase::ConnectionLost
            } else {
                old(self).phase
            }),
            final(self).heartbeat_at == old(self).heartbeat_at,
            final(self).notes@ == old(self).notes@,
            final(self).handlers@ == old(self).handlers@,
            final(self).next_handler == old(self).next_handler,
            final(self).asks_sent == old(self).asks_sent,
    {
        let elapsed = if now >= self.heartbeat_at {
            now - self.heartbeat_at
        } else {
            0
        };
        let (p, ping) = heartbeat(self.phase, elapsed);
        self.phase = p;
        ping
    }

    /// The server answered a heartbeat at `now`: a connected connection takes the
    /// time; nothing else changes.
    pub fn on_pong(&mut self, now: u128)
        ensures
            final(self).heartbeat_at == (if old(self).phase == Phase::Connected {
                now
            } else {
                old(self).heartbeat_at
            }),
            final(self).phase == old(self).phase,
            final(self).notes@ == old(self).notes@,
            final(self).handlers@ == old(self).handlers@,
            final(self).next_handler == old(self).next_handler,
            final(self).asks_sent == old(self).asks_sent,
    {
        if self.phase == Phase::Connected {
            self.heartbeat_at = now;
        }
    }

    /// A frame could not be received (the transport failed, or a text frame did
    /// not decode to a note): the error is queued in a note's place, and no handler
    /// sees it.
    pub fn on_frame_error(&mut self, e: FrameError)
        ensures
            final(self).notes@ == old(self).notes@.push(Err(e)),
            final(self).phase == old(self).phase,
            final(self).heartbeat_at == old(self).heartbeat_at,
            final(self).handlers@ == old(self).handlers@,
            final(self).next_handler == old(self).next_handler,
            final(self).asks_sent == old(self).asks_sent,
    {
        self.notes.push_back(Err(e));
    }

    /// One step of routing a note that arrived: the handlers are asked in the order
    /// they were registered, each at most once, and the first that does not pass
    /// settles the note's fate; when every handler passed, the note is queued.
    /// `answers` holds what the handlers asked so far said, in order.
    pub fn route_step(&self, answers: &[Option<ContinueBehavior>]) -> (r: Step)
        requires
            answers@.len() <= self.handlers@.len(),
            all_passed(answers@.drop_last()),
        ensures
            r == route_step_spec(self.handlers@.len() as int, answers@),
            r matches Step::AskHandler(i) ==> (i == answers@.len() && i < self.handlers@.len() && all_passed(
                answers@,
            )),
            r matches Step::Decided(d) ==> d == route_spec(answers@),
    {
        let n = answers.len();
        proof {
            law_first_claimer_decides(answers@);
            law_first_claimer_decides(answers@.drop_last());
            if n > 0 {
                assert(answers@.drop_last() =~= answers@.take(n - 1));
            }
        }
        if n > 0 {
            match handler_verdict(answers[n - 1], n - 1) {
                Some(a) => {
                    proof {
                        assert forall|j: int| 0 <= j < n - 1 implies answers@[j] == Some(
                            ContinueBehavior::Pass,
                        ) by {
                            assert(answers@.drop_last()[j] == answers@[j]);
                        }
                    }
                    return Step::Decided(Some(a));
                },
                None => {},
            }
        }
        proof {
            assert forall|j: int| 0 <= j < n implies #[trigger] answers@[j] == Some(ContinueBehavior::Pass) by {
                if j < n - 1 {
                    assert(answers@.drop_last()[j] == answers@[j]);
                }
            }
        }
        if n < self.handlers.len() {
            Step::AskHandler(n)
        } else {
            Step::Decided(None)
        }
    }

    /// Carries out a note's settled fate: a note nobody claimed joins the back of
    /// the queue; a consumed note is dropped; a taken note is dropped and the
    /// handler that took it (its value handed to whoever waits on it) leaves, the
    /// later handlers moving up one place. Returns the number of the handler that
    /// left, if one did.
    pub fn deliver(&mut self, note: Note, fate: Option<GreedyAction>) -> (left: Option<u64>)
        requires
            fate matches Some(GreedyAction::Take(i)) ==> i < old(self).handlers@.len(),
        ensures
            final(self).notes@ == (if fate is None {
                old(self).notes@.push(Ok(note))
            } else {
                old(self).notes@
            }),
            fate matches Some(GreedyAction::Take(i)) ==> (left == Some(old(self).handlers@[i as int])
                && final(self).handlers@ == old(self).handlers@.remove(i as int)),
            !(fate matches Some(GreedyAction::Take(_))) ==> (left is None && final(self).handlers@ == old(
                self,
            ).handlers@),
            final(self).next_handler == old(self).next_handler,
            final(self).phase == old(self).phase,
            final(self).heartbeat_at == old(self).heartbeat_at,
            final(self).asks_sent == old(self).asks_sent,
    {
        match fate {
            None => {
                self.notes.push_back(Ok(note));
                None
            },
            Some(GreedyAction::Consume) => None,
            Some(GreedyAction::Take(i)) => Some(self.handlers.remove(i)),
        }
    }
}

/// How much time passed from `then` to `now`, none if the clock went back.
pub open spec fn since(then: u128, now: u128) -> u128 {
    if now >= then {
        (now - then) as u128
    } else {
        0
    }
}

/// The message an ask would be sent as from this connection, or why it cannot be.
pub open spec fn ask_result(c: Connection, ask: Ask) -> Result<AskMessage, ConnectionFailure> {
    match c.phase {
        Phase::Connected => Ok(AskMessage { ask, ask_id: c.asks_sent }),
        Phase::ConnectionLost => Err(ConnectionFailure::ConnectionLost),
        _ => Err(ConnectionFailure::NeverConnected),
    }
}

/// What the stream starting does to a phase.
pub open spec fn stream_started_spec(phase: Phase) -> Phase {
    if phase == Phase::Connected {
        Phase::Connected
    } else {
        Phase::WebsocketsConnected
    }
}

/// The stream of frames starting never demotes a connection that is already
/// connected: it stays connected (and can send asks and pop notes); only a
/// connection not yet connected moves to having its websocket up.
pub proof fn law_stream_start_keeps_a_connection(phase: Phase)
    ensures
        phase == Phase::Connected ==> stream_started_spec(phase) == Phase::Connected,
        phase != Phase::Connected ==> stream_started_spec(phase) == Phase::WebsocketsConnected,
        stream_started_spec(phase) == Phase::Connected || stream_started_spec(phase) == Phase::WebsocketsConnected,
{
}

/// A connection that was made and then saw its stream start numbers its first
/// ask 0 and pops its queue: starting the stream leaves it usable.
pub proof fn law_started_connection_still_asks(c: Connection, ask: Ask)
    requires
        c.phase == Phase::Connected,
    ensures
        ask_result(Connection { phase: stream_started_spec(c.phase), ..c }, ask) == Ok::<
            AskMessage,
            ConnectionFailure,
        >(AskMessage { ask, ask_id: c.asks_sent }),
{
}

/// What disconnecting does to a phase, and whether a goodbye goes out.
pub open spec fn disconnect_spec(phase: Phase) -> (Phase, bool) {
    if phase == Phase::Connected {
        (Phase::ConnectionLost, true)
    } else {
        (phase, false)
    }
}

/// Asks sent one after the other from a connection that stays connected get
/// consecutive numbers, so a later ask never reuses an earlier one's number; an ask
/// that is refused leaves the count of asks as it was.
pub proof fn law_ask_ids_increase(c: Connection, first: Ask, second: Ask, after: Connection)
    requires
        ask_result(c, first) is Ok,
        after.phase == c.phase,
        after.asks_sent == c.asks_sent + 1,
    ensures
        ask_result(after, second) is Ok,
        ask_result(after, second)->Ok_0.ask_id == ask_result(c, first)->Ok_0.ask_id + 1,
        ask_result(after, second)->Ok_0.ask_id > ask_result(c, first)->Ok_0.ask_id,
{
}

} // verus!
