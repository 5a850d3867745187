//! The daemon's decisions: whom it serves, what it answers, and when it stops.
use crate::ipc::{hello_bytes, hello_message_bytes, internal_error_text, DaemonToClientReply};
use vstd::slice::slice_to_vec;
use vstd::prelude::*;

verus! {

/// Why the daemon refuses a client.
pub enum ClientRejected {
    /// The client is not root.
    Unauthorized { pid: i32, uid: u32 },
    /// The client's first message is not the hello message: what it sent.
    BadHello { found: Vec<u8> },
}

/// Whether two byte sequences are equal.
fn same_bytes(a: &[u8], b: &[u8]) -> (r: bool)
    ensures
        r == (a@ == b@),
{
    if a.len() != b.len() {
        return false;
    }
    let mut i: usize = 0;
    while i < a.len()
        invariant
            i <= a.len(),
            a@.len() == b@.len(),
            forall|j: int| 0 <= j < i ==> a@[j] == b@[j],
        decreases a.len() - i,
    {
        if a[i] != b[i] {
            return false;
        }
        i = i + 1;
    }
    assert(a@ =~= b@);
    true
}

/// Whether the daemon serves a client whose credentials name user `uid` and
/// process `pid`, and whose first message is `hello`: only root, and only
/// after the hello message. (Reading the message as UTF-8, with invalid bytes
/// replaced, gives the hello message exactly when its bytes are the message's.)
pub fn check_client(uid: u32, pid: i32, hello: &[u8]) -> (r: Result<(), ClientRejected>)
    ensures
        uid != 0 <==> r matches Err(ClientRejected::Unauthorized { .. }),
        r matches Err(ClientRejected::Unauthorized { pid: p, uid: u }) ==> p == pid && u == uid,
        (uid == 0 && hello@ != hello_message_bytes()) <==> r matches Err(
            ClientRejected::BadHello { .. },
        ),
        r matches Err(ClientRejected::BadHello { found }) ==> found@ == hello@,
        r is Ok <==> (uid == 0 && hello@ == hello_message_bytes()),
{
    if uid != 0 {
        return Err(ClientRejected::Unauthorized { pid, uid });
    }
    let expected = hello_bytes();
    if !same_bytes(hello, expected.as_slice()) {
        return Err(ClientRejected::BadHello { found: slice_to_vec(hello) });
    }
    Ok(())
}

/// The answer to a request, given its outcome: the serialized result, or the
/// text of the error.
pub fn reply_for(outcome: Result<Vec<u8>, String>) -> (r: DaemonToClientReply)
    ensures
        match outcome {
            Ok(b) => r matches DaemonToClientReply::Success(x) && x@ == b@,
            Err(m) => r matches DaemonToClientReply::Failure(x) && x@ == m@,
        },
{
    match outcome {
        Ok(b) => DaemonToClientReply::Success(b),
        Err(m) => DaemonToClientReply::Failure(m),
    }
}

/// What a client makes of the daemon's answer to an outcome is that outcome:
/// the same serialized result, or the same error text after
/// `internal error: `.
pub proof fn lemma_reply_round_trip(outcome: Result<Vec<u8>, String>, reply: DaemonToClientReply, seen: Result<Vec<u8>, String>)
    requires
        match outcome {
            Ok(b) => reply matches DaemonToClientReply::Success(x) && x@ == b@,
            Err(m) => reply matches DaemonToClientReply::Failure(x) && x@ == m@,
        },
        match reply {
            DaemonToClientReply::Success(b) => seen matches Ok(x) && x@ == b@,
            DaemonToClientReply::Failure(m) => seen matches Err(e) && e@ == internal_error_text(m@),
        },
    ensures
        match outcome {
            Ok(b) => seen matches Ok(x) && x@ == b@,
            Err(m) => seen matches Err(e) && e@ == internal_error_text(m@),
        },
{
}

/// Where the daemon stands.
#[derive(Clone, Copy, Debug, PartialEq, Eq, Structural)]
pub enum DaemonState {
    /// Waiting for its one client, until the timeout.
    Listening,
    /// Serving one client.
    Serving,
    /// Stopped; successfully or not.
    Exited { ok: bool },
}

/// What happened while the daemon waited.
#[derive(Clone, Copy, Debug, PartialEq, Eq, Structural)]
pub enum DaemonEvent {
    /// A client connected.
    Accepted,
    /// Accepting a connection failed.
    AcceptFailed,
    /// The client being served is done; successfully or not.
    ClientFinished { ok: bool },
    /// The daemon's time is up.
    TimedOut,
}

/// What the daemon does next.
#[derive(Clone, Copy, Debug, PartialEq, Eq, Structural)]
pub enum DaemonAction {
    /// Serve the client that connected.
    ServeClient,
    /// Stop, successfully or with the error.
    Exit { ok: bool },
    /// Nothing: the event does not apply where the daemon stands.
    Ignore,
}

/// The daemon's next state and action after `event`. It accepts a single
/// client and, once that client is done, stops successfully, whether the client
/// succeeded or not (a client's failure is only reported); a failure to accept
/// stops it with an error; the timeout, before any client, stops it
/// successfully. Events that do not apply change nothing.
pub open spec fn daemon_transition(state: DaemonState, event: DaemonEvent) -> (
    DaemonState,
    DaemonAction,
) {
    match (state, event) {
        (DaemonState::Listening, DaemonEvent::Accepted) => (
            DaemonState::Serving,
            DaemonAction::ServeClient,
        ),
        (DaemonState::Listening, DaemonEvent::AcceptFailed) => (
            DaemonState::Exited { ok: false },
            DaemonAction::Exit { ok: false },
        ),
        (DaemonState::Listening, DaemonEvent::TimedOut) => (
            DaemonState::Exited { ok: true },
            DaemonAction::Exit { ok: true },
        ),
        (DaemonState::Serving, DaemonEvent::ClientFinished { .. }) => (
            DaemonState::Exited { ok: true },
            DaemonAction::Exit { ok: true },
        ),
        _ => (state, DaemonAction::Ignore),
    }
}

/// The daemon's next state and action after `event`.
pub fn daemon_step(state: DaemonState, event: DaemonEvent) -> (r: (DaemonState, DaemonAction))
    ensures
        r == daemon_transition(state, event),
{
    match (state, event) {
        (DaemonState::Listening, DaemonEvent::Accepted) => (
            DaemonState::Serving,
            DaemonAction::ServeClient,
        ),
        (DaemonState::Listening, DaemonEvent::AcceptFailed) => (
            DaemonState::Exited { ok: false },
            DaemonAction::Exit { ok: false },
        ),
        (DaemonState::Listening, DaemonEvent::TimedOut) => (
            DaemonState::Exited { ok: true },
            DaemonAction::Exit { ok: true },
        ),
        (DaemonState::Serving, DaemonEvent::ClientFinished { .. }) => (
            DaemonState::Exited { ok: true },
            DaemonAction::Exit { ok: true },
        ),
        _ => (state, DaemonAction::Ignore),
    }
}

/// How many clients the daemon serves, from `state`, as `events` happen in order.
pub open spec fn clients_served(state: DaemonState, events: Seq<DaemonEvent>) -> nat
    decreases events.len(),
{
    if events.len() == 0 {
        0
    } else {
        let (next, action) = daemon_transition(state, events[0]);
        (if action == DaemonAction::ServeClient {
            1nat
        } else {
            0nat
        }) + clients_served(next, events.drop_first())
    }
}

/// Once it has a client, or has stopped, the daemon serves no other client.
pub proof fn lemma_no_second_client(state: DaemonState, events: Seq<DaemonEvent>)
    requires
        state != DaemonState::Listening,
    ensures
        clients_served(state, events) == 0,
    decreases events.len(),
{
    if events.len() > 0 {
        let (next, action) = daemon_transition(state, events[0]);
        assert(next != DaemonState::Listening);
        lemma_no_second_client(next, events.drop_first());
    }
}

/// Whatever happens, the daemon serves at most one client, then exits.
pub proof fn lemma_single_client(events: Seq<DaemonEvent>)
    ensures
        clients_served(DaemonState::Listening, events) <= 1,
    decreases events.len(),
{
    if events.len() > 0 {
        let (next, action) = daemon_transition(DaemonState::Listening, events[0]);
        if next == DaemonState::Listening {
            lemma_single_client(events.drop_first());
        } else {
            lemma_no_second_client(next, events.drop_first());
        }
    }
}

/// Why the daemon cannot take its socket from systemd.
pub enum ActivationError {
    /// The system is not running under systemd.
    NotBooted,
    /// systemd passed no socket.
    NoSocket,
}

/// The daemon runs only as a systemd service.
pub fn check_booted(booted: bool) -> (r: Result<(), ActivationError>)
    ensures
        r is Ok <==> booted,
        r is Err ==> r matches Err(ActivationError::NotBooted),
{
    if booted {
        Ok(())
    } else {
        Err(ActivationError::NotBooted)
    }
}

/// The socket to listen on, among those that systemd passed: the last one.
pub fn take_listen_socket<T>(fds: Vec<T>) -> (r: Result<T, ActivationError>)
    ensures
        fds.len() == 0 <==> r matches Err(ActivationError::NoSocket),
        fds.len() > 0 ==> (r matches Ok(fd) && fd == fds@.last()),
{
    let mut fds = fds;
    match fds.pop() {
        Some(fd) => Ok(fd),
        None => Err(ActivationError::NoSocket),
    }
}

} // verus!
