//! The error type shared by every stage of tag resolution.
//!
//! Each failure carries one human-readable message; the distinct stages
//! (scratch repository, remote connection, tag filtering, package
//! specifiers) are told apart by the message text they construct.

use vstd::prelude::*;
use vstd::string::StringExecFns;

verus! {

/// An error reported while resolving a package's tags.
#[derive(Debug)]
pub struct TaggerError {
    msg: String,
}

impl View for TaggerError {
    type V = Seq<char>;

    closed spec fn view(&self) -> Seq<char> {
        self.msg@
    }
}

impl TaggerError {
    /// Wraps a message into an error value.
    pub fn new(msg: &str) -> (e: TaggerError)
        ensures
            e@ == msg@,
    {
        TaggerError { msg: msg.to_owned() }
    }

    /// The message this error was built from.
    pub fn message(&self) -> (m: &str)
        ensures
            m@ == self@,
    {
        self.msg.as_str()
    }
}

/// The message of a failed remote connection, with the transport's own
/// diagnostic embedded after the first line.
pub open spec fn spec_remote_connect_msg(transport_msg: Seq<char>) -> Seq<char> {
    "cannot connect to remote\n"@ + transport_msg
}

/// The error reported when the remote connection cannot be established; it
/// carries the transport's diagnostic so the failure stays diagnosable.
pub fn remote_connect_error(transport_msg: &str) -> (e: TaggerError)
    ensures
        e@ == spec_remote_connect_msg(transport_msg@),
{
    let mut msg = String::new();
    msg.append("cannot connect to remote\n");
    msg.append(transport_msg);
    assert(msg@ =~= spec_remote_connect_msg(transport_msg@));
    TaggerError::new(msg.as_str())
}

} // verus!
