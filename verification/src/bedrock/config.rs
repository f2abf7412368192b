//! Configuration of Bedrock Edition support.
use vstd::prelude::*;
use vstd::string::*;

use crate::text::owned;

verus! {

/// Configuration options for Bedrock Edition support.
#[derive(Debug, Clone)]
pub struct BedrockConfig {
    /// Whether Bedrock Edition listener and status response are enabled
    pub enabled: bool,
    /// UDP address and port for the Bedrock listener
    pub bind_address: String,
    /// Primary MOTD line shown in Bedrock server lists
    pub motd: String,
    /// Secondary MOTD line / subtitle shown in Bedrock server lists
    pub sub_motd: String,
    /// Protocol version advertised
    pub protocol_version: u32,
    /// Bedrock version string advertised
    pub version_name: String,
    /// Level / world name displayed in Bedrock client ping
    pub level_name: String,
    /// Game mode displayed in Bedrock client ping
    pub game_mode: String,
    /// Game mode ID (0 = Survival, 1 = Creative, 2 = Adventure, 3 = Spectator)
    pub game_mode_id: u32,
    /// Maximum Bedrock players displayed in ping (0 to inherit the global maximum)
    pub max_players: u32,
    /// Server GUID for RakNet (0 generates a random GUID on startup)
    pub server_guid: u64,
}

impl BedrockConfig {
    pub open spec fn is_default(&self) -> bool {
        &&& self.enabled
        &&& self.bind_address@ == "0.0.0.0:19132"@
        &&& self.motd@ == "§a§lVine §7» §fHigh-Performance Minecraft Proxy"@
        &&& self.sub_motd@ == "Bedrock Support • 1.26.x"@
        &&& self.protocol_version == 2169
        &&& self.version_name@ == "1.26.45"@
        &&& self.level_name@ == "Vine Proxy"@
        &&& self.game_mode@ == "Survival"@
        &&& self.game_mode_id == 0
        &&& self.max_players == 100
        &&& self.server_guid == 0
    }
}

impl Default for BedrockConfig {
    fn default() -> (r: Self)
        ensures
            r.is_default(),
    {
        BedrockConfig {
            enabled: true,
            bind_address: owned("0.0.0.0:19132"),
            motd: owned("§a§lVine §7» §fHigh-Performance Minecraft Proxy"),
            sub_motd: owned("Bedrock Support • 1.26.x"),
            protocol_version: 2169,
            version_name: owned("1.26.45"),
            level_name: owned("Vine Proxy"),
            game_mode: owned("Survival"),
            game_mode_id: 0,
            max_players: 100,
            server_guid: 0,
        }
    }
}

} // verus!
