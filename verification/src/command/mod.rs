//! The proxy's own commands.
pub mod dispatcher;
pub mod glist;
pub mod help;
pub mod list;
pub mod send;
pub mod server;
pub mod source;

pub use dispatcher::CommandDispatcher;
pub use help::HelpCommandExecutor;
pub use list::ListCommandExecutor;
pub use source::{command_error, CommandSender, Outcome, ProxyCommandSource};
