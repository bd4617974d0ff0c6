//! The failures an entry point can report.

use vstd::prelude::*;

verus! {

/// Why a call was rejected. Every failure is local to the call that raised it
/// and leaves the state as it was.
#[derive(Clone, Copy, Debug, PartialEq, Eq, Structural)]
pub enum ManagerError {
    /// A registration confirmation carried no payload, or one that does not
    /// decode to a request identifier.
    ProtocolDecode,
    /// A registration confirmation arrived while no registration was pending.
    State,
    /// The request identifier is already bound to a subject.
    DuplicateBinding,
    /// Nothing is stored under the key that was asked for: an unbound request
    /// identifier, or a configuration that was never saved.
    NotFound,
    /// The caller is not the owner named in the configuration.
    Unauthorized,
    /// A registration was attempted while another one awaited its
    /// confirmation.
    ConcurrentRegistration,
    /// A reply carried an identifier that no submessage of this engine uses.
    UnsupportedReply,
    /// The subject's address cannot be turned into a balance query.
    InvalidAddress,
}

} // verus!
