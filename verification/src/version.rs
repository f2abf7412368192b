//! What the proxy needs to know of a client's protocol version.
use vstd::prelude::*;

verus! {

/// A client's protocol version.
#[derive(Debug, Clone, Copy, PartialEq, Eq, Structural)]
pub struct ClientVersion {
    /// The number by which the client names its protocol
    pub protocol: i32,
    /// Whether the number belongs to a known release
    pub known: bool,
    /// 1.13 or later: commands are sent as a tree
    pub has_command_tree: bool,
    /// 1.20.2 or later: there is a configuration phase
    pub has_configuration: bool,
}

} // verus!
