//! Plugins: what they see, and what their answers change.
pub mod api;
pub mod events;
pub mod host;
pub mod manager;

pub use events::{Event, Firing, RegisteredEventHandler};
pub use host::{PlayerInfo, ProxyPluginContext, ServerInfo};
pub use manager::PluginManager;
