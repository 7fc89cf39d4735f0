//! One client connection as a state machine. The program around the
//! library receives messages, polls the counter and watches the channel;
//! it hands each of these in as an event and carries out the action that
//! comes back.

use crate::decimal::decimal_text;
use crate::decimal::format_decimal;
use crate::gateway::requested;
use crate::gateway::Mutation;
use vstd::prelude::*;

verus! {

/// What a session keeps: the value it last sent to its client, and whether
/// it is still running.
#[derive(Clone, Copy, Debug, PartialEq, Eq, Structural)]
pub struct Session {
    pub last_pushed: i64,
    pub live: bool,
}

/// Something that happened on a connection.
#[derive(Clone, Debug, PartialEq, Eq)]
pub enum Event {
    /// The client sent a text message with these bytes.
    Received(Vec<u8>),
    /// The poll interval elapsed and the counter was read as this value.
    Polled(i64),
    /// The channel closed, a receive failed or a send failed.
    Closed,
}

/// What the program is to do in answer to an event.
#[derive(Clone, Debug, PartialEq, Eq)]
pub enum Action {
    /// Apply this mutation to the shared counter.
    Apply(Mutation),
    /// Send this text to the client.
    Push(Vec<u8>),
    /// Nothing to do.
    Idle,
    /// End the session: cancel both activities and drop the channel.
    Stop,
}

/// An action with its text as a sequence of bytes.
pub enum ActionView {
    Apply(Mutation),
    Push(Seq<u8>),
    Idle,
    Stop,
}

impl View for Action {
    type V = ActionView;

    open spec fn view(&self) -> ActionView {
        match self {
            Action::Apply(m) => ActionView::Apply(*m),
            Action::Push(text) => ActionView::Push(text@),
            Action::Idle => ActionView::Idle,
            Action::Stop => ActionView::Stop,
        }
    }
}

/// The session after `event`. A session that has ended stays as it is. A
/// live one ends when the channel closes, and takes a polled value that
/// differs from the last one pushed as the new last one pushed.
pub open spec fn session_after(session: Session, event: Event) -> Session {
    if !session.live {
        session
    } else {
        match event {
            Event::Received(_) => session,
            Event::Polled(value) => Session { last_pushed: value, live: true },
            Event::Closed => Session { last_pushed: session.last_pushed, live: false },
        }
    }
}

/// The action that answers `event`. A session that has ended answers
/// everything with `Stop`. A live one applies what a message asks for,
/// pushes a polled value that differs from the last one pushed, and stops
/// when the channel closes.
pub open spec fn action_for(session: Session, event: Event) -> ActionView {
    if !session.live {
        ActionView::Stop
    } else {
        match event {
            Event::Received(message) => match requested(message@) {
                Some(m) => ActionView::Apply(m),
                None => ActionView::Idle,
            },
            Event::Polled(value) => if value == session.last_pushed {
                ActionView::Idle
            } else {
                ActionView::Push(decimal_text(value as int))
            },
            Event::Closed => ActionView::Stop,
        }
    }
}

impl Session {
    /// Starts a session for a client that connected while the counter read
    /// `current`. Returns the session and the one message that the client
    /// gets before anything else: the decimal text of `current`.
    pub fn connect(current: i64) -> (start: (Session, Vec<u8>))
        ensures
            start.0 == (Session { last_pushed: current, live: true }),
            start.1@ == decimal_text(current as int),
    {
        (Session { last_pushed: current, live: true }, format_decimal(current))
    }

    /// Takes one event and says what to do.
    pub fn step(&mut self, event: &Event) -> (action: Action)
        ensures
            *final(self) == session_after(*old(self), *event),
            action@ == action_for(*old(self), *event),
    {
        if !self.live {
            return Action::Stop;
        }
        match event {
            Event::Received(message) => match Mutation::from_message(message.as_slice()) {
                Some(m) => Action::Apply(m),
                None => Action::Idle,
            },
            Event::Polled(value) => {
                if *value == self.last_pushed {
                    Action::Idle
                } else {
                    self.last_pushed = *value;
                    Action::Push(format_decimal(*value))
                }
            },
            Event::Closed => {
                self.live = false;
                Action::Stop
            },
        }
    }
}

/// Law of convergence: once a live session has polled the value `current`,
/// that is the value it last pushed, and polling the same value again
/// sends nothing more.
pub proof fn lemma_poll_converges(session: Session, current: i64)
    requires
        session.live,
    ensures
        session_after(session, Event::Polled(current)).last_pushed == current,
        session_after(session, Event::Polled(current)).live,
        action_for(session_after(session, Event::Polled(current)), Event::Polled(current))
            == ActionView::Idle,
{
}

/// The sessions of a service after each of them has polled `current`.
pub open spec fn sessions_after_poll(sessions: Seq<Session>, current: i64) -> Seq<Session> {
    Seq::new(sessions.len(), |i: int| session_after(sessions[i], Event::Polled(current)))
}

/// Law of convergence, for a whole service: once every session has polled
/// the value `current`, each live session has `current` as the value it
/// last pushed, and no session has come to life or ended by polling.
pub proof fn lemma_every_live_session_converges(sessions: Seq<Session>, current: i64)
    ensures
        sessions_after_poll(sessions, current).len() == sessions.len(),
        forall|i: int|
            0 <= i < sessions.len() ==> {
                let after = #[trigger] sessions_after_poll(sessions, current)[i];
                after.live == sessions[i].live && (after.live ==> after.last_pushed == current)
            },
{
}

/// Law of the baseline: a session that has just connected at `current`
/// pushes nothing until it polls a different value, and then pushes the
/// text of that value.
pub proof fn lemma_baseline_then_changes(current: i64, polled: i64)
    ensures
        ({
            let start = Session { last_pushed: current, live: true };
            action_for(start, Event::Polled(polled)) == if polled == current {
                ActionView::Idle
            } else {
                ActionView::Push(decimal_text(polled as int))
            }
        }),
{
}

/// The sessions of a service after the session at `which` took `event`:
/// only that one session moves.
pub open spec fn sessions_after(sessions: Seq<Session>, which: int, event: Event) -> Seq<Session>
    recommends
        0 <= which < sessions.len(),
{
    sessions.update(which, session_after(sessions[which], event))
}

/// Law of isolation: when the channel of one session closes, that session
/// stops without asking for any change of the counter, and every other
/// session is as it was and answers each event as before.
pub proof fn lemma_sessions_are_isolated(
    sessions: Seq<Session>,
    closed: int,
    other: int,
    event: Event,
)
    requires
        0 <= closed < sessions.len(),
        0 <= other < sessions.len(),
        closed != other,
    ensures
        action_for(sessions[closed], Event::Closed) == ActionView::Stop,
        !sessions_after(sessions, closed, Event::Closed)[closed].live,
        sessions_after(sessions, closed, Event::Closed)[other] == sessions[other],
        action_for(sessions_after(sessions, closed, Event::Closed)[other], event) == action_for(
            sessions[other],
            event,
        ),
{
}

} // verus!
