//! Bedrock Edition: configuration and status answers.
pub mod config;
pub mod status;

pub use config::BedrockConfig;
pub use status::BedrockStatusHandler;
