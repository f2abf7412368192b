use vine::bedrock::status::{
    OFFLINE_MESSAGE_MAGIC, RAKNET_UNCONNECTED_PING_ID, RAKNET_UNCONNECTED_PING_OPEN_ID,
    RAKNET_UNCONNECTED_PONG_ID,
};
use vine::bedrock::{BedrockConfig, BedrockStatusHandler};

fn config() -> BedrockConfig {
    BedrockConfig {
        enabled: true,
        bind_address: "0.0.0.0:19132".to_string(),
        motd: "Vine Server".to_string(),
        sub_motd: "Bedrock Proxy".to_string(),
        protocol_version: 2169,
        version_name: "1.26.45".to_string(),
        level_name: "Lobby".to_string(),
        game_mode: "Survival".to_string(),
        game_mode_id: 0,
        max_players: 50,
        server_guid: 12345,
    }
}

#[test]
fn test_build_advertisement_string() {
    let handler = BedrockStatusHandler::new(config(), 100, 19132);
    let ad = handler.build_advertisement_string(3);

    assert!(ad.starts_with("MCPE;Vine Server\nBedrock Proxy;2169;1.26.45;3;50;12345;Lobby;Survival;0;19132;19133;0;"));
}

#[test]
fn zero_inherits_the_proxys_maximum() {
    let mut c = config();
    c.max_players = 0;
    let handler = BedrockStatusHandler::new(c, 77, u16::MAX);
    let ad = handler.build_advertisement_string(0);
    assert_eq!(
        ad,
        "MCPE;Vine Server\nBedrock Proxy;2169;1.26.45;0;77;12345;Lobby;Survival;0;65535;65535;0;"
    );
}

fn ping(id: u8, magic: &[u8; 16]) -> Vec<u8> {
    let mut packet = vec![id];
    packet.extend_from_slice(&1000u64.to_be_bytes());
    packet.extend_from_slice(magic);
    packet.extend_from_slice(&9999u64.to_be_bytes());
    packet
}

#[test]
fn test_handle_unconnected_ping() {
    let config = BedrockConfig::default();
    let handler = BedrockStatusHandler::new(config, 100, 19132);

    let packet = ping(RAKNET_UNCONNECTED_PING_ID, &OFFLINE_MESSAGE_MAGIC);
    let response = handler.handle_packet(&packet, 0);
    assert!(response.is_some());
    let res_bytes = response.unwrap();
    assert_eq!(res_bytes[0], RAKNET_UNCONNECTED_PONG_ID);
    assert_eq!(&res_bytes[1..9], &1000u64.to_be_bytes());
    assert_eq!(&res_bytes[17..33], &OFFLINE_MESSAGE_MAGIC);
}

#[test]
fn test_ignore_invalid_magic() {
    let config = BedrockConfig::default();
    let handler = BedrockStatusHandler::new(config, 100, 19132);

    let response = handler.handle_packet(&ping(RAKNET_UNCONNECTED_PING_ID, &[0u8; 16]), 0);
    assert!(response.is_none());
}

#[test]
fn a_pong_carries_number_and_advertisement() {
    let handler = BedrockStatusHandler::new(config(), 100, 19132);
    let packet = ping(RAKNET_UNCONNECTED_PING_OPEN_ID, &OFFLINE_MESSAGE_MAGIC);
    let pong = handler.handle_packet(&packet, 3).unwrap();
    assert_eq!(&pong[9..17], &12345u64.to_be_bytes());
    let ad = handler.build_advertisement_string(3);
    assert_eq!(&pong[33..35], &(ad.len() as u16).to_be_bytes());
    assert_eq!(&pong[35..], ad.as_bytes());
    assert_eq!(handler.server_guid(), 12345);
}

#[test]
fn other_datagrams_are_not_answered() {
    let handler = BedrockStatusHandler::new(config(), 100, 19132);
    let packet = ping(RAKNET_UNCONNECTED_PING_ID, &OFFLINE_MESSAGE_MAGIC);
    assert!(handler.handle_packet(&packet[..32], 0).is_none());
    assert!(handler.handle_packet(&[], 0).is_none());
    assert!(handler.handle_packet(&ping(0x05, &OFFLINE_MESSAGE_MAGIC), 0).is_none());
    let mut long = config();
    long.motd = "x".repeat(70_000);
    let handler = BedrockStatusHandler::new(long, 100, 19132);
    assert!(handler.handle_packet(&packet, 0).is_none());
}

#[test]
fn the_drawn_number_stands_in_for_none() {
    let kept = BedrockStatusHandler::with_drawn(config(), 100, 19132, 77);
    assert_eq!(kept.server_guid(), 12345);
    let mut c = config();
    c.server_guid = 0;
    let drawn = BedrockStatusHandler::with_drawn(c, 100, 19132, 77);
    assert_eq!(drawn.server_guid(), 77);
    assert!(drawn.build_advertisement_string(0).contains(";77;Lobby;"));
}

#[test]
fn a_number_is_chosen_where_none_is_configured() {
    let numbers: Vec<u64> = (0..4)
        .map(|_| {
            let mut c = config();
            c.server_guid = 0;
            BedrockStatusHandler::new(c, 100, 19132).server_guid()
        })
        .collect();
    assert!(numbers.iter().any(|n| *n != numbers[0]));
}
