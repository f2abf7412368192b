//! Vine: the verified core of a Minecraft proxy.
pub mod auth;
pub mod backend;
pub mod bedrock;
pub mod client;
pub mod codec;
pub mod command;
pub mod config;
pub mod crypto;
pub mod network;
pub mod ordering;
pub mod permissions;
pub mod plugin;
pub mod proxy;
pub mod security;
pub mod session;
pub mod status;
pub mod table;
pub mod text;
pub mod version;
