//! Backend servers: routing, forwarding of player data, and the bridge to a backend.
pub mod bridge;
pub mod command_tree;
pub mod error;
pub mod forwarding;
pub mod login;
pub mod router;
pub mod suggestions;
pub mod tunnel;

pub use bridge::{BackendBridge, BridgeError};
pub use forwarding::{ForwardingError, ForwardingHelper};
pub use router::Router;
