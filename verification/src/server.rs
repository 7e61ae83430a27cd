//! Which connections the server takes, and how it keeps watching for keywords.

use std::time::Duration;

use vstd::prelude::*;

verus! {

/// The nanoseconds of a duration, as `std::time::Duration::as_nanos` tells them.
pub uninterp spec fn nanos_of(duration: Duration) -> nat;

/// `std::time::Duration::from_secs` makes a duration of whole seconds.
pub assume_specification[ Duration::from_secs ](secs: u64) -> (r: Duration)
    ensures
        nanos_of(r) == secs * 1_000_000_000,
;

/// How the server behaves.
#[derive(Debug)]
pub struct WsConfig {
    /// The port that it listens on.
    pub port: u16,
    /// How many connections it serves at a time.
    pub max_connections: usize,
    /// How long a handshake may take.
    pub handshake_timeout: Duration,
    /// How long a request may take.
    pub message_timeout: Duration,
    /// How often it sends a ping.
    pub heartbeat_interval: Duration,
    /// How long a client may be idle before it is checked.
    pub idle_timeout: Duration,
}

impl Clone for WsConfig {
    fn clone(&self) -> (r: Self)
        ensures
            r == *self,
    {
        WsConfig {
            port: self.port,
            max_connections: self.max_connections,
            handshake_timeout: self.handshake_timeout,
            message_timeout: self.message_timeout,
            heartbeat_interval: self.heartbeat_interval,
            idle_timeout: self.idle_timeout,
        }
    }
}

/// What becomes of a connection that comes in.
#[derive(Clone, Copy, Debug, PartialEq, Eq, Structural)]
pub enum Admission {
    /// It is served.
    Admitted,
    /// It is refused, as the server is full.
    Full,
    /// It is refused, as there is no permit for it.
    NoPermit,
}

/// What happened to the server.
#[derive(Clone, Copy, Debug, PartialEq, Eq, Structural)]
pub enum ServeEvent {
    /// Its port was bound.
    Bound,
    /// Its port could not be bound.
    NotBound,
    /// A connection came in and was decided on.
    Arrived,
    /// A connection could not be accepted.
    NotAccepted,
}

/// What the server does next.
#[derive(Clone, Copy, Debug, PartialEq, Eq, Structural)]
pub enum ServeStep {
    /// Wait for a connection.
    Accept,
    /// Wait for some milliseconds, then for a connection.
    AcceptAfter { millis: u64 },
    /// Stop with the error that came.
    Fail,
}

/// What the server does next: only a port that cannot be bound stops it.
pub fn keep_serving(event: ServeEvent) -> (step: ServeStep)
    ensures
        step == (match event {
            ServeEvent::Bound | ServeEvent::Arrived => ServeStep::Accept,
            ServeEvent::NotAccepted => ServeStep::AcceptAfter { millis: 50 },
            ServeEvent::NotBound => ServeStep::Fail,
        }),
        step == ServeStep::Fail <==> event == ServeEvent::NotBound,
{
    match event {
        ServeEvent::Bound | ServeEvent::Arrived => ServeStep::Accept,
        ServeEvent::NotAccepted => ServeStep::AcceptAfter { millis: 50 },
        ServeEvent::NotBound => ServeStep::Fail,
    }
}

/// The count of the connections that are being served.
#[derive(Debug)]
pub struct Connections {
    max_connections: usize,
    count: usize,
}

/// The state of [`Connections`].
pub struct ConnectionsView {
    /// How many connections are served at a time.
    pub max_connections: usize,
    /// How many connections are being served.
    pub count: usize,
}

impl View for Connections {
    type V = ConnectionsView;

    closed spec fn view(&self) -> ConnectionsView {
        ConnectionsView { max_connections: self.max_connections, count: self.count }
    }
}

/// What becomes of a connection that comes in, given whether there was a permit for it.
pub open spec fn admission(state: ConnectionsView, permit: bool) -> Admission {
    if state.count >= state.max_connections {
        Admission::Full
    } else if permit {
        Admission::Admitted
    } else {
        Admission::NoPermit
    }
}

/// The state once a connection that came in was decided on.
pub open spec fn after_arrival(state: ConnectionsView, permit: bool) -> ConnectionsView {
    if admission(state, permit) == Admission::Admitted {
        ConnectionsView { count: (state.count + 1) as usize, ..state }
    } else {
        state
    }
}

/// The state once a connection came to its end.
pub open spec fn after_end(state: ConnectionsView) -> ConnectionsView {
    ConnectionsView { count: (state.count - 1) as usize, ..state }
}

/// Whether these can be the states of a server, one after the other, from its start on.
pub open spec fn is_record(states: Seq<ConnectionsView>, max_connections: usize) -> bool {
    &&& states.len() > 0
    &&& states[0] == (ConnectionsView { max_connections, count: 0 })
    &&& forall|i: int|
        0 < i < states.len() ==> {
            ||| #[trigger] states[i] == after_arrival(states[i - 1], true)
            ||| states[i] == after_arrival(states[i - 1], false)
            ||| states[i - 1].count > 0 && states[i] == after_end(states[i - 1])
        }
}

/// At every moment at most as many connections are served as are allowed.
pub proof fn law_connections_are_bounded(
    states: Seq<ConnectionsView>,
    max_connections: usize,
    at: int,
)
    requires
        is_record(states, max_connections),
        0 <= at < states.len(),
    ensures
        states[at].max_connections == max_connections,
        states[at].count <= max_connections,
    decreases at,
{
    if at > 0 {
        law_connections_are_bounded(states, max_connections, at - 1);
    }
}

/// A connection that comes in while as many are served as are allowed is refused, and one that is
/// refused changes nothing.
pub proof fn law_refused_connections_change_nothing(state: ConnectionsView, permit: bool)
    ensures
        state.count >= state.max_connections ==> admission(state, permit) == Admission::Full,
        admission(state, permit) != Admission::Admitted ==> after_arrival(state, permit) == state,
{
}

impl Connections {
    #[verifier::type_invariant]
    spec fn well_formed(self) -> bool {
        self.count <= self.max_connections
    }

    /// No connections yet.
    pub fn new(max_connections: usize) -> (r: Connections)
        ensures
            r@ == (ConnectionsView { max_connections, count: 0 }),
    {
        Connections { max_connections, count: 0 }
    }

    /// How many connections are being served: never more than are served at a time.
    pub fn count(&self) -> (r: usize)
        ensures
            r == self@.count,
            r <= self@.max_connections,
    {
        proof {
            use_type_invariant(self);
        }
        self.count
    }

    /// Whether one more connection can be served. Only then a permit is asked for.
    pub fn has_room(&self) -> (r: bool)
        ensures
            r == (self@.count < self@.max_connections),
    {
        self.count < self.max_connections
    }

    /// Decides on a connection that comes in, given whether there was a permit for it.
    pub fn decide(&mut self, permit: bool) -> (decision: Admission)
        ensures
            decision == admission(old(self)@, permit),
            final(self)@ == after_arrival(old(self)@, permit),
            decision == Admission::Full <==> old(self)@.count >= old(self)@.max_connections,
            decision == Admission::Admitted <==> old(self)@.count < old(self)@.max_connections
                && permit,
            final(self)@.max_connections == old(self)@.max_connections,
            final(self)@.count == old(self)@.count + if decision == Admission::Admitted {
                1int
            } else {
                0
            },
            final(self)@.count <= final(self)@.max_connections,
    {
        proof {
            use_type_invariant(&*self);
        }
        if self.count >= self.max_connections {
            Admission::Full
        } else if permit {
            self.count = self.count + 1;
            Admission::Admitted
        } else {
            Admission::NoPermit
        }
    }

    /// One of the connections came to its end.
    pub fn finish(&mut self)
        requires
            old(self)@.count > 0,
        ensures
            final(self)@ == after_end(old(self)@),
            final(self)@.count == old(self)@.count - 1,
            final(self)@.max_connections == old(self)@.max_connections,
    {
        proof {
            use_type_invariant(&*self);
        }
        self.count = self.count - 1;
    }
}

/// What happened while watching for keywords.
#[derive(Clone, Copy, Debug, PartialEq, Eq, Structural)]
pub enum WatchEvent {
    /// The configuration was loaded.
    Loaded,
    /// The configuration could not be loaded.
    NotLoaded,
    /// Watching ended.
    Ended,
    /// Watching broke off with an error.
    Broken,
}

/// What to do next to keep watching for keywords.
#[derive(Clone, Copy, Debug, PartialEq, Eq, Structural)]
pub enum WatchStep {
    /// Watch.
    Watch,
    /// Wait for some seconds, then load the configuration again.
    Reload { secs: u64 },
    /// Nothing is left to do.
    Exit,
}

/// What to do next to keep watching for keywords: whatever goes wrong, it is tried again.
pub fn keep_watching(event: WatchEvent) -> (step: WatchStep)
    ensures
        step == (match event {
            WatchEvent::Loaded => WatchStep::Watch,
            WatchEvent::NotLoaded => WatchStep::Reload { secs: 5 },
            WatchEvent::Ended => WatchStep::Exit,
            WatchEvent::Broken => WatchStep::Reload { secs: 10 },
        }),
{
    match event {
        WatchEvent::Loaded => WatchStep::Watch,
        WatchEvent::NotLoaded => WatchStep::Reload { secs: 5 },
        WatchEvent::Ended => WatchStep::Exit,
        WatchEvent::Broken => WatchStep::Reload { secs: 10 },
    }
}

/// A connection is served exactly where there is room and a permit; it is counted then, and one
/// that ends is counted off. How many are allowed never changes.
pub proof fn law_connections_are_counted(state: ConnectionsView, permit: bool)
    requires
        state.count <= state.max_connections,
    ensures
        admission(state, permit) == Admission::Admitted <==> state.count < state.max_connections
            && permit,
        admission(state, permit) == Admission::Full <==> state.count == state.max_connections,
        after_arrival(state, permit).count == state.count + if state.count < state.max_connections
            && permit {
            1int
        } else {
            0
        },
        after_arrival(state, permit).max_connections == state.max_connections,
        state.count > 0 ==> after_end(state).count == state.count - 1,
        after_end(state).max_connections == state.max_connections,
{
}

/// The states of a server follow from one another by connections that come in and connections that
/// end, and all such states count.
pub proof fn law_records_grow(
    states: Seq<ConnectionsView>,
    max_connections: usize,
    permit: bool,
)
    requires
        is_record(states, max_connections),
    ensures
        is_record(states.push(after_arrival(states.last(), permit)), max_connections),
        states.last().count > 0 ==> is_record(
            states.push(after_end(states.last())),
            max_connections,
        ),
        is_record(seq![ConnectionsView { max_connections, count: 0 }], max_connections),
{
}

} // verus!
