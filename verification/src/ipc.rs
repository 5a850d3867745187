//! What the client and the daemon say to each other.
use vstd::prelude::*;
use vstd::slice::slice_to_vec;
use vstd::string::*;

verus! {

/// The socket that the daemon listens on.
pub const BOOTUPD_SOCKET: &'static str = "/run/bootupd.sock";

/// Sent between processes along with SCM credentials.
pub const BOOTUPD_HELLO_MSG: &'static str = "bootupd-hello\n";

/// The bytes of the hello message.
pub open spec fn hello_message_bytes() -> Seq<u8> {
    BOOTUPD_HELLO_MSG.spec_bytes()
}

/// The bytes that a client sends as its hello.
pub fn hello_bytes() -> (r: Vec<u8>)
    ensures
        r@ == hello_message_bytes(),
{
    slice_to_vec(BOOTUPD_HELLO_MSG.as_bytes())
}

/// A request of a client to the daemon.
pub enum ClientRequest {
    /// Update a component.
    Update { component: String },
    /// Adopt a component, then update it.
    AdoptAndUpdate { component: String },
    /// Validate a component.
    Validate { component: String },
    /// Report the status of all components.
    Status,
}

/// The daemon's answer to a request.
pub enum DaemonToClientReply {
    /// The request succeeded; its result, serialized.
    Success(Vec<u8>),
    /// The request failed; why.
    Failure(String),
}

/// The text of the error that a client reports when the daemon answered
/// with a failure.
pub open spec fn internal_error_text(why: Seq<char>) -> Seq<char> {
    "internal error: "@ + why
}

/// What a client makes of the daemon's answer: the serialized result, or the
/// error that it reports.
pub fn reply_outcome(reply: DaemonToClientReply) -> (r: Result<Vec<u8>, String>)
    ensures
        match reply {
            DaemonToClientReply::Success(b) => r matches Ok(x) && x@ == b@,
            DaemonToClientReply::Failure(m) => r matches Err(e) && e@ == internal_error_text(m@),
        },
{
    match reply {
        DaemonToClientReply::Success(b) => Ok(b),
        DaemonToClientReply::Failure(m) => Err(String::from_str("internal error: ").concat(m.as_str())),
    }
}

} // verus!
