use vstd::prelude::*;

verus! {

/// How many bytes are read from each connection, in one read.
pub const BUFFER_SIZE: usize = 1024;

/// A server that listens on one address and serves one connection at a time.
pub struct Server {
    addr: String,
}

impl View for Server {
    type V = Seq<char>;

    /// The address to listen on.
    closed spec fn view(&self) -> Seq<char> {
        self.addr@
    }
}

impl Server {
    /// A server for the address `addr` (`host:port`).
    pub fn new(addr: String) -> (r: Server)
        ensures
            r@ == addr@,
    {
        Server { addr }
    }

    /// The address to listen on.
    pub fn addr(&self) -> (r: &String)
        ensures
            r@ == self@,
    {
        &self.addr
    }
}

/// Where the accept loop stands.
#[derive(PartialEq, Eq, Structural, Clone, Copy, Debug)]
pub enum LoopState {
    /// Listening; the loop has not started.
    Bound,
    /// Waiting for the next connection.
    Accepting,
    /// A connection is open and its bytes are awaited.
    Reading,
    /// The last accept failed.
    IdleAfterError,
}

/// What the outside world reports to the loop.
#[derive(PartialEq, Eq, Structural, Clone, Copy, Debug)]
pub enum LoopEvent {
    /// The listener is ready.
    Started,
    /// A connection was accepted.
    Accepted,
    /// Accepting a connection failed.
    AcceptFailed,
    /// Bytes were read from the connection.
    ReadDone,
    /// Reading from the connection failed.
    ReadFailed,
}

/// What the loop asks the outside world to do next.
#[derive(PartialEq, Eq, Structural, Clone, Copy, Debug)]
pub enum LoopAction {
    /// Wait for the next connection.
    Accept,
    /// Read one buffer from the open connection.
    Read,
    /// Parse the bytes read, report the outcome, drop the connection.
    ParseAndReport,
    /// Report that accepting failed.
    ReportAcceptError,
    /// Report that reading failed and drop the connection.
    ReportReadError,
}

/// The next state and action of the loop after `e` in state `s`. An event that
/// cannot happen in `s` sends the loop back to accepting.
pub open spec fn loop_step(s: LoopState, e: LoopEvent) -> (LoopState, LoopAction) {
    match (s, e) {
        (LoopState::Accepting, LoopEvent::Accepted) => (LoopState::Reading, LoopAction::Read),
        (LoopState::Accepting, LoopEvent::AcceptFailed) => (
            LoopState::IdleAfterError,
            LoopAction::ReportAcceptError,
        ),
        (LoopState::Reading, LoopEvent::ReadDone) => (
            LoopState::Accepting,
            LoopAction::ParseAndReport,
        ),
        (LoopState::Reading, LoopEvent::ReadFailed) => (
            LoopState::Accepting,
            LoopAction::ReportReadError,
        ),
        _ => (LoopState::Accepting, LoopAction::Accept),
    }
}

/// Decides the loop's next state and action.
pub fn next_step(s: LoopState, e: LoopEvent) -> (r: (LoopState, LoopAction))
    ensures
        r == loop_step(s, e),
        r.0 != LoopState::Bound,
{
    match (s, e) {
        (LoopState::Accepting, LoopEvent::Accepted) => (LoopState::Reading, LoopAction::Read),
        (LoopState::Accepting, LoopEvent::AcceptFailed) => (
            LoopState::IdleAfterError,
            LoopAction::ReportAcceptError,
        ),
        (LoopState::Reading, LoopEvent::ReadDone) => (
            LoopState::Accepting,
            LoopAction::ParseAndReport,
        ),
        (LoopState::Reading, LoopEvent::ReadFailed) => (
            LoopState::Accepting,
            LoopAction::ReportReadError,
        ),
        _ => (LoopState::Accepting, LoopAction::Accept),
    }
}

} // verus!
