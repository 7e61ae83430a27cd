//! The course of a connection with a client.
//!
//! A [`Connection`] is told what happened and says what to do next. Whoever runs it does that and
//! tells what came of it, until it says to close.

use std::time::Duration;

use vstd::prelude::*;

use crate::api;
use crate::api::{ApiRequest, ApiResponse, DeviceCall};
use crate::server::WsConfig;

verus! {

/// How long checking an idle connection may take, in seconds.
pub const CHECK_SECS: u64 = 5;

/// How long a heartbeat may take, in seconds.
pub const HEARTBEAT_SECS: u64 = 2;

/// What came of sending something.
#[derive(Clone, Copy, Debug, PartialEq, Eq, Structural)]
pub enum Delivery {
    Sent,
    Failed,
    TimedOut,
}

/// What came of the handshake.
#[derive(Clone, Copy, Debug, PartialEq, Eq, Structural)]
pub enum Handshake {
    Done,
    Failed,
    TimedOut,
}

/// What came in while waiting for the client.
#[derive(Debug)]
pub enum Incoming {
    /// The client closes the connection.
    Close,
    /// A ping, with its payload.
    Ping(Vec<u8>),
    /// The answer to a ping.
    Pong,
    /// A text.
    Text(String),
    /// A text that is none.
    BadText,
    /// Any other message.
    Other,
    /// A message that could not be received.
    Garbled,
    /// There is nothing more to come.
    End,
    /// Nothing came for as long as the client may be idle.
    Nothing,
}

/// What happened.
#[derive(Debug)]
pub enum Event {
    /// The handshake came to an end.
    Handshake(Handshake),
    /// Something came in.
    Incoming(Incoming),
    /// The connection was checked with a ping.
    Checked(Delivery),
    /// A ping was answered.
    Ponged(Delivery),
    /// A text was read as a request; an error tells what was reported of it.
    Decoded(Result<ApiRequest, String>),
    /// A request was answered, unless it took too long.
    Answered(Option<ApiResponse>),
    /// An answer was sent.
    Responded(Delivery),
    /// An answer could not be written.
    Unwritable,
}

/// What to do.
#[derive(Debug)]
pub enum Action {
    /// Make the handshake, which may take as long as `limit`.
    Shake { limit: Duration },
    /// Add the client to the list of clients, then wait for what comes in.
    Register,
    /// Wait for what comes in.
    Receive,
    /// Check the connection with a ping.
    Check,
    /// Answer a ping with its payload.
    Pong(Vec<u8>),
    /// Read a text as a request.
    Decode(String),
    /// Make a call.
    Serve(DeviceCall),
    /// Send an answer.
    Respond(ApiResponse),
    /// Close the connection. Where `registered` holds, stop the heartbeat and remove the client
    /// from the list of clients.
    Close { registered: bool },
}

/// How far a connection got.
#[derive(Clone, Copy, Debug, PartialEq, Eq, Structural)]
pub enum Phase {
    /// The handshake is under way.
    Shaking,
    /// The client may send something.
    Receiving,
    /// An idle connection is being checked.
    Checking,
    /// A ping is being answered.
    Ponging,
    /// A text is being read.
    Decoding,
    /// A request is being served.
    Serving,
    /// An answer is being sent.
    Responding,
    /// The connection is closed.
    Closed,
}

/// Whether an event can happen in a phase.
pub open spec fn can_happen(phase: Phase, event: Event) -> bool {
    match event {
        Event::Handshake(_) => phase == Phase::Shaking,
        Event::Incoming(_) => phase == Phase::Receiving,
        Event::Checked(_) => phase == Phase::Checking,
        Event::Ponged(_) => phase == Phase::Ponging,
        Event::Decoded(_) => phase == Phase::Decoding,
        Event::Answered(_) => phase == Phase::Serving,
        Event::Responded(_) | Event::Unwritable => phase == Phase::Responding,
    }
}

/// The phase that follows an event.
pub open spec fn phase_after(event: Event) -> Phase {
    match event {
        Event::Handshake(outcome) => match outcome {
            Handshake::Done => Phase::Receiving,
            Handshake::Failed | Handshake::TimedOut => Phase::Closed,
        },
        Event::Incoming(incoming) => match incoming {
            Incoming::Close | Incoming::End => Phase::Closed,
            Incoming::Ping(_) => Phase::Ponging,
            Incoming::Text(_) => Phase::Decoding,
            Incoming::Nothing => Phase::Checking,
            Incoming::Pong | Incoming::BadText | Incoming::Other | Incoming::Garbled =>
                Phase::Receiving,
        },
        Event::Checked(delivery) | Event::Ponged(delivery) | Event::Responded(delivery) =>
            match delivery {
                Delivery::Sent => Phase::Receiving,
                Delivery::Failed | Delivery::TimedOut => Phase::Closed,
            },
        Event::Decoded(request) => match request {
            Ok(_) => Phase::Serving,
            Err(_) => Phase::Responding,
        },
        Event::Answered(_) => Phase::Responding,
        Event::Unwritable => Phase::Receiving,
    }
}

/// Whether an action is the one that follows an event.
pub open spec fn is_action_after(event: Event, action: Action) -> bool {
    match event {
        Event::Handshake(Handshake::Done) => action == Action::Register,
        Event::Handshake(_) => action == (Action::Close { registered: false }),
        Event::Incoming(Incoming::Ping(payload)) => action == Action::Pong(payload),
        Event::Incoming(Incoming::Text(text)) => action == Action::Decode(text),
        Event::Incoming(Incoming::Nothing) => action == Action::Check,
        Event::Decoded(Ok(request)) => action == Action::Serve(api::call_for(request)),
        Event::Decoded(Err(report)) => action matches Action::Respond(response)
            && api::tells_error(response, "无效的请求格式: "@ + report@),
        Event::Answered(Some(response)) => action == Action::Respond(response),
        Event::Answered(None) => action matches Action::Respond(response) && api::tells_error(
            response,
            "请求处理超时，请稍后重试"@,
        ),
        _ => if phase_after(event) == Phase::Closed {
            action == (Action::Close { registered: true })
        } else {
            action == Action::Receive
        },
    }
}

/// How long the handshake of a client may take: as long as is configured.
pub fn handshake_limit(config: &WsConfig) -> (r: Duration)
    ensures
        r == config.handshake_timeout,
{
    config.handshake_timeout
}

/// A connection with a client.
#[derive(Debug)]
pub struct Connection {
    phase: Phase,
}

impl View for Connection {
    type V = Phase;

    closed spec fn view(&self) -> Phase {
        self.phase
    }
}

impl Connection {
    /// A connection that was just accepted, and what to do first.
    pub fn open(config: &WsConfig) -> (r: (Connection, Action))
        ensures
            r.0@ == Phase::Shaking,
            r.1 == (Action::Shake { limit: config.handshake_timeout }),
    {
        (
            Connection { phase: Phase::Shaking },
            Action::Shake { limit: handshake_limit(config) },
        )
    }

    /// How far the connection got.
    pub fn phase(&self) -> (r: Phase)
        ensures
            r == self@,
    {
        self.phase
    }

    /// Whether an event can happen now.
    pub fn expects(&self, event: &Event) -> (r: bool)
        ensures
            r == can_happen(self@, *event),
    {
        match event {
            Event::Handshake(_) => self.phase == Phase::Shaking,
            Event::Incoming(_) => self.phase == Phase::Receiving,
            Event::Checked(_) => self.phase == Phase::Checking,
            Event::Ponged(_) => self.phase == Phase::Ponging,
            Event::Decoded(_) => self.phase == Phase::Decoding,
            Event::Answered(_) => self.phase == Phase::Serving,
            Event::Responded(_) | Event::Unwritable => self.phase == Phase::Responding,
        }
    }

    /// Says what to do after an event.
    pub fn next(&mut self, event: Event) -> (action: Action)
        requires
            can_happen(old(self)@, event),
        ensures
            final(self)@ == phase_after(event),
            is_action_after(event, action),
    {
        match event {
            Event::Handshake(Handshake::Done) => {
                self.phase = Phase::Receiving;
                Action::Register
            },
            Event::Handshake(_) => {
                self.phase = Phase::Closed;
                Action::Close { registered: false }
            },
            Event::Incoming(incoming) => self.received(incoming),
            Event::Checked(delivery) | Event::Ponged(delivery) | Event::Responded(delivery) =>
                match delivery {
                    Delivery::Sent => {
                        self.phase = Phase::Receiving;
                        Action::Receive
                    },
                    Delivery::Failed | Delivery::TimedOut => {
                        self.phase = Phase::Closed;
                        Action::Close { registered: true }
                    },
                },
            Event::Decoded(Ok(request)) => {
                self.phase = Phase::Serving;
                Action::Serve(request.into_call())
            },
            Event::Decoded(Err(report)) => {
                self.phase = Phase::Responding;
                Action::Respond(api::answer_invalid(report.as_str()))
            },
            Event::Answered(Some(response)) => {
                self.phase = Phase::Responding;
                Action::Respond(response)
            },
            Event::Answered(None) => {
                self.phase = Phase::Responding;
                Action::Respond(api::answer_timeout())
            },
            Event::Unwritable => {
                self.phase = Phase::Receiving;
                Action::Receive
            },
        }
    }

    fn received(&mut self, incoming: Incoming) -> (action: Action)
        ensures
            final(self)@ == phase_after(Event::Incoming(incoming)),
            is_action_after(Event::Incoming(incoming), action),
    {
        match incoming {
            Incoming::Close | Incoming::End => {
                self.phase = Phase::Closed;
                Action::Close { registered: true }
            },
            Incoming::Ping(payload) => {
                self.phase = Phase::Ponging;
                Action::Pong(payload)
            },
            Incoming::Text(text) => {
                self.phase = Phase::Decoding;
                Action::Decode(text)
            },
            Incoming::Nothing => {
                self.phase = Phase::Checking;
                Action::Check
            },
            Incoming::Pong | Incoming::BadText | Incoming::Other | Incoming::Garbled => {
                self.phase = Phase::Receiving;
                Action::Receive
            },
        }
    }
}

/// The phase after what happened and was done so far, from the beginning of a connection.
pub open spec fn phase_of(course: Seq<(Event, Action)>) -> Phase {
    if course.len() == 0 {
        Phase::Shaking
    } else {
        phase_after(course.last().0)
    }
}

/// Whether this can be what happened and was done so far, from the beginning of a connection.
pub open spec fn is_course(course: Seq<(Event, Action)>) -> bool
    decreases course.len(),
{
    course.len() == 0 || {
        let (event, action) = course.last();
        &&& is_course(course.drop_last())
        &&& can_happen(phase_of(course.drop_last()), event)
        &&& is_action_after(event, action)
    }
}

/// How many texts came in.
pub open spec fn texts_in(course: Seq<(Event, Action)>) -> nat
    decreases course.len(),
{
    if course.len() == 0 {
        0
    } else if course.last().0 matches Event::Incoming(Incoming::Text(_)) {
        texts_in(course.drop_last()) + 1
    } else {
        texts_in(course.drop_last())
    }
}

/// How many answers were given to be sent.
pub open spec fn answers_in(course: Seq<(Event, Action)>) -> nat
    decreases course.len(),
{
    if course.len() == 0 {
        0
    } else if course.last().1 is Respond {
        answers_in(course.drop_last()) + 1
    } else {
        answers_in(course.drop_last())
    }
}

/// Each text is given one answer, be it a request that can be served, one that takes too long or
/// none at all: at any time there are as many answers as texts, but for one text that is being
/// read or served.
pub proof fn law_each_text_is_answered(course: Seq<(Event, Action)>)
    requires
        is_course(course),
    ensures
        texts_in(course) == answers_in(course) + (if phase_of(course) == Phase::Decoding
            || phase_of(course) == Phase::Serving {
            1nat
        } else {
            0nat
        }),
    decreases course.len(),
{
    if course.len() > 0 {
        law_each_text_is_answered(course.drop_last());
    }
}

/// A ping is answered with its own payload, and nothing else is answered so.
pub proof fn law_pings_are_answered(course: Seq<(Event, Action)>, i: int)
    requires
        is_course(course),
        0 <= i < course.len(),
    ensures
        match course[i].0 {
            Event::Incoming(Incoming::Ping(payload)) => course[i].1 == Action::Pong(payload),
            _ => !(course[i].1 is Pong),
        },
    decreases course.len(),
{
    if i < course.len() - 1 {
        law_pings_are_answered(course.drop_last(), i);
    }
}

/// A client is added to the list of clients once, right after its handshake, and a connection is
/// closed once, at its end; the client is then removed exactly if it had been added.
pub proof fn law_clients_are_removed(course: Seq<(Event, Action)>, i: int)
    requires
        is_course(course),
        0 <= i < course.len(),
    ensures
        course[0].0 is Handshake,
        course[i].1 is Register <==> i == 0 && course[0].0 == Event::Handshake(Handshake::Done),
        course[i].1 is Close ==> i == course.len() - 1 && course[i].1 == (Action::Close {
            registered: course[0].0 == Event::Handshake(Handshake::Done),
        }),
        course[i].1 is Close <==> i == course.len() - 1 && phase_of(course) == Phase::Closed,
    decreases course.len(),
{
    let before = course.drop_last();
    if before.len() > 0 {
        law_clients_are_removed(before, before.len() - 1);
        if i < before.len() {
            law_clients_are_removed(before, i);
        }
        if course[0].0 != Event::Handshake(Handshake::Done) {
            law_handshake_comes_first(before);
        }
    }
}

/// Where the handshake did not succeed, nothing comes after it.
pub proof fn law_handshake_comes_first(course: Seq<(Event, Action)>)
    requires
        is_course(course),
        course.len() > 0,
    ensures
        course[0].0 is Handshake,
        course[0].0 != Event::Handshake(Handshake::Done) ==> course.len() == 1 && phase_of(course)
            == Phase::Closed,
    decreases course.len(),
{
    if course.len() > 1 {
        law_handshake_comes_first(course.drop_last());
    }
}

/// Nothing happens on a closed connection, and as long as a connection is not closed, something
/// is awaited.
pub proof fn law_closed_is_the_end(phase: Phase)
    ensures
        phase == Phase::Closed <==> forall|event: Event| !#[trigger] can_happen(phase, event),
{
    let next = match phase {
        Phase::Shaking => Event::Handshake(Handshake::Done),
        Phase::Receiving => Event::Incoming(Incoming::Pong),
        Phase::Checking => Event::Checked(Delivery::Sent),
        Phase::Ponging => Event::Ponged(Delivery::Sent),
        Phase::Decoding => Event::Decoded(Ok(ApiRequest::GetDevices)),
        Phase::Serving => Event::Answered(None),
        Phase::Responding | Phase::Closed => Event::Unwritable,
    };
    assert(phase != Phase::Closed ==> can_happen(phase, next));
}

/// What a client sends never closes the connection, unless it is told to close: neither a message
/// that cannot be received or read, nor a request that is invalid, takes too long or has an answer
/// that cannot be written.
pub proof fn law_bad_requests_do_not_close(event: Event)
    requires
        phase_after(event) == Phase::Closed,
    ensures
        match event {
            Event::Handshake(outcome) => outcome != Handshake::Done,
            Event::Incoming(incoming) => incoming is Close || incoming is End,
            Event::Checked(delivery) | Event::Ponged(delivery) | Event::Responded(delivery) =>
                delivery != Delivery::Sent,
            Event::Decoded(_) | Event::Answered(_) | Event::Unwritable => false,
        },
{
}

/// Whether a heartbeat goes on after one of its pings.
pub fn heartbeat_goes_on(delivery: Delivery) -> (r: bool)
    ensures
        r == (delivery == Delivery::Sent),
{
    match delivery {
        Delivery::Sent => true,
        Delivery::Failed | Delivery::TimedOut => false,
    }
}

/// What is done after each event: what came in is dealt with just as it came.
pub proof fn law_actions_fit_events(event: Event, action: Action)
    requires
        is_action_after(event, action),
    ensures
        match event {
            Event::Handshake(Handshake::Done) => action is Register,
            Event::Handshake(Handshake::Failed) => action == (Action::Close { registered: false }),
            Event::Handshake(Handshake::TimedOut) => action == (Action::Close {
                registered: false,
            }),
            Event::Incoming(Incoming::Close) => action == (Action::Close { registered: true }),
            Event::Incoming(Incoming::End) => action == (Action::Close { registered: true }),
            Event::Incoming(Incoming::Ping(payload)) => action == Action::Pong(payload),
            Event::Incoming(Incoming::Text(text)) => action == Action::Decode(text),
            Event::Incoming(Incoming::Nothing) => action is Check,
            Event::Incoming(_) => action is Receive,
            Event::Checked(Delivery::Sent) => action is Receive,
            Event::Ponged(Delivery::Sent) => action is Receive,
            Event::Responded(Delivery::Sent) => action is Receive,
            Event::Checked(_) => action == (Action::Close { registered: true }),
            Event::Ponged(_) => action == (Action::Close { registered: true }),
            Event::Responded(_) => action == (Action::Close { registered: true }),
            Event::Decoded(Ok(request)) => action == Action::Serve(api::call_for(request)),
            Event::Decoded(Err(report)) => match action {
                Action::Respond(ApiResponse::Error { error }) => error@ == "无效的请求格式: "@
                    + report@,
                _ => false,
            },
            Event::Answered(Some(response)) => action == Action::Respond(response),
            Event::Answered(None) => match action {
                Action::Respond(ApiResponse::Error { error }) => error@
                    == "请求处理超时，请稍后重试"@,
                _ => false,
            },
            Event::Unwritable => action is Receive,
        },
{
}

/// After each action, just the events that can come of it are awaited: after sending comes what
/// became of it, after reading what was read, and otherwise what the client sends next.
pub proof fn law_events_fit_actions(event: Event, action: Action, next: Event)
    requires
        is_action_after(event, action),
    ensures
        can_happen(phase_after(event), next) <==> match action {
            Action::Shake { .. } => false,
            Action::Register => next is Incoming,
            Action::Receive => next is Incoming,
            Action::Check => next is Checked,
            Action::Pong(_) => next is Ponged,
            Action::Decode(_) => next is Decoded,
            Action::Serve(_) => next is Answered,
            Action::Respond(_) => next is Responded || next is Unwritable,
            Action::Close { .. } => false,
        },
        can_happen(Phase::Shaking, next) <==> next is Handshake,
{
}

/// The course of a connection goes on with any event that can happen and the action that follows
/// it.
pub proof fn law_courses_go_on(course: Seq<(Event, Action)>, event: Event, action: Action)
    requires
        is_course(course),
        can_happen(phase_of(course), event),
        is_action_after(event, action),
    ensures
        is_course(course.push((event, action))),
        is_course(Seq::<(Event, Action)>::empty()),
        texts_in(course.push((event, action))) == texts_in(course) + if event matches
            Event::Incoming(Incoming::Text(_)) {
            1nat
        } else {
            0nat
        },
        answers_in(course.push((event, action))) == answers_in(course) + if action is Respond {
            1nat
        } else {
            0nat
        },
{
    assert(course.push((event, action)).drop_last() =~= course);
}

/// How long checking an idle connection and a heartbeat may take.
pub proof fn law_limits()
    ensures
        CHECK_SECS == 5,
        HEARTBEAT_SECS == 2,
{
}

} // verus!
