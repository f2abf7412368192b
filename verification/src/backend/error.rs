//! What can go wrong between the proxy and a backend, and how a tunnel ends.
use vstd::prelude::*;
use vstd::string::*;

use crate::text::{cat2, cat3, cat4, holds_part, lemma_holds_part, opt_text};

verus! {

broadcast use vstd::seq::group_seq_axioms;

#[derive(Debug, PartialEq, Eq)]
pub enum BridgeError<S = String> {
    /// No connection to this server, and why
    ConnectFailed(S, S),
    IoError(S),
    DecodeError(S),
    EncodeError(S),
    /// This server did not finish the login in time
    LoginTimeout(S),
    LoginDisconnected(S),
    VelocityError(S),
    VineError(S),
}

pub type BridgeErrorModel = BridgeError<Seq<char>>;

impl View for BridgeError {
    type V = BridgeErrorModel;

    open spec fn view(&self) -> BridgeErrorModel {
        match self {
            BridgeError::ConnectFailed(a, b) => BridgeError::ConnectFailed(a@, b@),
            BridgeError::IoError(e) => BridgeError::IoError(e@),
            BridgeError::DecodeError(e) => BridgeError::DecodeError(e@),
            BridgeError::EncodeError(e) => BridgeError::EncodeError(e@),
            BridgeError::LoginTimeout(e) => BridgeError::LoginTimeout(e@),
            BridgeError::LoginDisconnected(e) => BridgeError::LoginDisconnected(e@),
            BridgeError::VelocityError(e) => BridgeError::VelocityError(e@),
            BridgeError::VineError(e) => BridgeError::VineError(e@),
        }
    }
}

/// An error in words.
pub open spec fn bridge_error_words(e: BridgeErrorModel) -> Seq<char> {
    match e {
        BridgeError::ConnectFailed(a, b) => "Failed to connect to backend server '"@ + a + "': "@
            + b,
        BridgeError::IoError(t) => "Backend communication error: "@ + t,
        BridgeError::DecodeError(t) => "Packet decode error: "@ + t,
        BridgeError::EncodeError(t) => "Packet encode error: "@ + t,
        BridgeError::LoginTimeout(t) => "Backend server '"@ + t + "' login timed out"@,
        BridgeError::LoginDisconnected(t) => "Backend disconnected player during login: "@ + t,
        BridgeError::VelocityError(t) => "Velocity forwarding error: "@ + t,
        BridgeError::VineError(t) => "Vine forwarding error: "@ + t,
    }
}

impl BridgeError {
    pub fn message(&self) -> (r: String)
        ensures
            r@ == bridge_error_words(self@),
    {
        match self {
            BridgeError::ConnectFailed(a, b) => cat4(
                "Failed to connect to backend server '",
                a.as_str(),
                "': ",
                b.as_str(),
            ),
            BridgeError::IoError(t) => cat2("Backend communication error: ", t.as_str()),
            BridgeError::DecodeError(t) => cat2("Packet decode error: ", t.as_str()),
            BridgeError::EncodeError(t) => cat2("Packet encode error: ", t.as_str()),
            BridgeError::LoginTimeout(t) => cat3(
                "Backend server '",
                t.as_str(),
                "' login timed out",
            ),
            BridgeError::LoginDisconnected(t) => cat2(
                "Backend disconnected player during login: ",
                t.as_str(),
            ),
            BridgeError::VelocityError(t) => cat2("Velocity forwarding error: ", t.as_str()),
            BridgeError::VineError(t) => cat2("Vine forwarding error: ", t.as_str()),
        }
    }
}

impl Clone for BridgeError {
    fn clone(&self) -> (r: Self)
        ensures
            r@ == self@,
    {
        match self {
            BridgeError::ConnectFailed(a, b) => BridgeError::ConnectFailed(a.clone(), b.clone()),
            BridgeError::IoError(e) => BridgeError::IoError(e.clone()),
            BridgeError::DecodeError(e) => BridgeError::DecodeError(e.clone()),
            BridgeError::EncodeError(e) => BridgeError::EncodeError(e.clone()),
            BridgeError::LoginTimeout(e) => BridgeError::LoginTimeout(e.clone()),
            BridgeError::LoginDisconnected(e) => BridgeError::LoginDisconnected(e.clone()),
            BridgeError::VelocityError(e) => BridgeError::VelocityError(e.clone()),
            BridgeError::VineError(e) => BridgeError::VineError(e.clone()),
        }
    }
}

/// How a tunnel between client and backend ends.
#[derive(Debug, PartialEq, Eq)]
pub enum TunnelExit<S = String> {
    /// Client disconnected or connection closed
    ClientDisconnected,
    /// Player requested switch to another backend server
    Connect { server_name: S },
    /// Direct client transfer requested
    Transfer { host: S, port: u16 },
    /// Backend server closed connection or sent disconnect/kick
    BackendDisconnected { reason: Option<S> },
}

pub type TunnelExitModel = TunnelExit<Seq<char>>;

impl View for TunnelExit {
    type V = TunnelExitModel;

    open spec fn view(&self) -> TunnelExitModel {
        match self {
            TunnelExit::ClientDisconnected => TunnelExit::ClientDisconnected,
            TunnelExit::Connect { server_name } => TunnelExit::Connect {
                server_name: server_name@,
            },
            TunnelExit::Transfer { host, port } => TunnelExit::Transfer {
                host: host@,
                port: *port,
            },
            TunnelExit::BackendDisconnected { reason } => TunnelExit::BackendDisconnected {
                reason: opt_text(*reason),
            },
        }
    }
}

/// An error in words names the server that it is about and tells the reason that there is.
pub proof fn law_bridge_error_tells_its_reason(e: BridgeErrorModel)
    ensures
        e matches BridgeError::ConnectFailed(a, b) ==> holds_part(bridge_error_words(e), a)
            && holds_part(bridge_error_words(e), b),
        e matches BridgeError::IoError(t) ==> holds_part(bridge_error_words(e), t),
        e matches BridgeError::DecodeError(t) ==> holds_part(bridge_error_words(e), t),
        e matches BridgeError::EncodeError(t) ==> holds_part(bridge_error_words(e), t),
        e matches BridgeError::LoginTimeout(t) ==> holds_part(bridge_error_words(e), t),
        e matches BridgeError::LoginDisconnected(t) ==> holds_part(bridge_error_words(e), t),
        e matches BridgeError::VelocityError(t) ==> holds_part(bridge_error_words(e), t),
        e matches BridgeError::VineError(t) ==> holds_part(bridge_error_words(e), t),
{
    let none = Seq::<char>::empty();
    match e {
        BridgeError::ConnectFailed(a, b) => {
            let head = "Failed to connect to backend server '"@;
            lemma_holds_part(head, a, "': "@ + b);
            assert(head + a + ("': "@ + b) == head + a + "': "@ + b);
            lemma_holds_part(head + a + "': "@, b, none);
        },
        BridgeError::IoError(t) => lemma_holds_part("Backend communication error: "@, t, none),
        BridgeError::DecodeError(t) => lemma_holds_part("Packet decode error: "@, t, none),
        BridgeError::EncodeError(t) => lemma_holds_part("Packet encode error: "@, t, none),
        BridgeError::LoginTimeout(t) => {
            lemma_holds_part("Backend server '"@, t, "' login timed out"@);
        },
        BridgeError::LoginDisconnected(t) => {
            lemma_holds_part("Backend disconnected player during login: "@, t, none);
        },
        BridgeError::VelocityError(t) => {
            lemma_holds_part("Velocity forwarding error: "@, t, none);
        },
        BridgeError::VineError(t) => lemma_holds_part("Vine forwarding error: "@, t, none),
    }
}

} // verus!
