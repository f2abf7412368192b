use ed25519_dalek::{Signature, Verifier, VerifyingKey};
use vine::auth::{AuthenticatedPlayer, Property};
use vine::backend::bridge::{BridgeCommand, BridgeEvent, Phase};
use vine::backend::command_tree::{inject_proxy_commands, plan_injection, NewNode};
use vine::backend::error::{BridgeError, TunnelExit};
use vine::backend::login::{
    connect_failed, login_opening, next_attempt, on_login_packet, on_login_packet_at, LoginIds,
    LoginStep,
};
use vine::backend::suggestions::{
    decide_suggestion, merge_suggestions, reply_from_pending, requested_command, ReadStep,
    SuggestDecision, Suggestion, SuggestionReader, SuggestionReply, Tooltip,
};
use vine::backend::tunnel::{
    disconnect_client, escape_quotes, on_stream_end, ActionStep, BackendStep, ClientStep,
    DisconnectPacket, StreamEnd, Tunnel, TunnelIds,
};
use vine::backend::{BackendBridge, ForwardingError, ForwardingHelper, Router};
use vine::codec::{frame, get_text, get_varint, put_text, put_varint};
use vine::command::source::{CommandSender, ProxyCommandSource};
use vine::command::CommandDispatcher;
use vine::config::{BackendConfig, Config, ForwardingMode, NetworkConfig, UserPermissionConfig};
use vine::plugin::api::ServerConnectEvent;
use vine::security::PacketRateLimiter;
use vine::session::{PlayerAction, SessionManager};
use vine::table::Table;
use vine::version::ClientVersion;

const V_1_21_4: ClientVersion = ClientVersion {
    protocol: 769,
    known: true,
    has_command_tree: true,
    has_configuration: true,
};

const ID: u128 = 0xd8f4a1e0_0f1b_4c3a_9f2e_1a2b3c4d5e6f;

fn player(username: &str) -> AuthenticatedPlayer {
    AuthenticatedPlayer { id: ID, username: username.to_string(), properties: vec![] }
}

fn varints(list: &[i32]) -> Vec<u8> {
    let mut out = Vec::new();
    for n in list {
        put_varint(&mut out, *n);
    }
    out
}

// Suggestions

#[test]
fn test_decode_backend_suggestions() {
    let mut bytes = varints(&[42, 1, 3, 2]);
    assert!(put_text(&mut bytes, "say"));
    bytes.push(1);
    let component = bytes.len();
    bytes.extend_from_slice(&[8, 0, 2, b'h', b'i']);
    let behind = bytes.len();
    assert!(put_text(&mut bytes, "spawnpoint"));
    bytes.push(0);

    let mut reader = SuggestionReader::begin(bytes, V_1_21_4).expect("decode failed");
    assert_eq!(reader.advance(), ReadStep::Component(component));
    reader.supply(Some(7), behind);
    assert_eq!(reader.advance(), ReadStep::Done);
    let reply = reader.finish();

    assert_eq!(reply.id, 42);
    assert_eq!(reply.start, 1);
    assert_eq!(reply.length, 3);
    assert_eq!(reply.matches.len(), 2);
    assert_eq!(reply.matches[0].suggestion, "say");
    assert!(reply.matches[0].tooltip.is_some());
    assert_eq!(reply.matches[1].suggestion, "spawnpoint");
    assert!(reply.matches[1].tooltip.is_none());
}

#[test]
fn broken_suggestions_are_not_read() {
    assert!(SuggestionReader::begin(vec![42, 1], V_1_21_4).is_none());
    let old = ClientVersion { has_command_tree: false, ..V_1_21_4 };
    assert!(SuggestionReader::begin(varints(&[1, 1, 1, 0]), old).is_none());
    assert!(SuggestionReader::begin(varints(&[1, 1, 1, -1]), V_1_21_4).is_none());
    let mut reader = SuggestionReader::begin(varints(&[1, 1, 1, 1]), V_1_21_4).unwrap();
    assert_eq!(reader.advance(), ReadStep::Failed);
}

#[test]
fn test_merge_pending_proxy_and_backend_suggestions() {
    let backend = SuggestionReply {
        id: 10,
        start: 1,
        length: 1,
        matches: vec![
            Suggestion { suggestion: "server".to_string(), tooltip: None }, // duplicate name with proxy
            Suggestion { suggestion: "status".to_string(), tooltip: None },
        ],
    };
    let pending_proxy_matches = vec![
        ("server".to_string(), "Switch or view backend server".to_string()),
        ("send".to_string(), "Send players to a backend".to_string()),
    ];

    let merged = merge_suggestions(backend, &pending_proxy_matches);

    assert_eq!(merged.matches.len(), 3);
    assert_eq!(merged.matches[0].suggestion, "send");
    assert_eq!(merged.matches[1].suggestion, "server");
    assert_eq!(merged.matches[2].suggestion, "status");
    assert_eq!(
        merged.matches[0].tooltip,
        Some(Tooltip::Text("Send players to a backend".to_string()))
    );
    assert_eq!((merged.id, merged.start, merged.length), (10, 1, 1));
}

#[test]
fn requests_for_suggestions_are_decided() {
    let permitted = vec![
        ("send".to_string(), "a".to_string()),
        ("server".to_string(), "b".to_string()),
        ("list".to_string(), "c".to_string()),
    ];
    assert_eq!(requested_command("/server lob"), "server");
    match decide_suggestion("/server lob", true, &permitted) {
        SuggestDecision::Complete { command, offset } => {
            assert_eq!(command, "server lob");
            assert_eq!(offset, 1);
        }
        other => panic!("{:?}", other),
    }
    match decide_suggestion("/se", false, &permitted) {
        SuggestDecision::Remember(p) => {
            let reply = reply_from_pending(9, &p);
            let names: Vec<&str> =
                reply.matches.iter().map(|m| m.suggestion.as_str()).collect();
            assert_eq!(names, vec!["send", "server"]);
            assert_eq!(reply.id, 9);
        }
        other => panic!("{:?}", other),
    }
    assert_eq!(decide_suggestion("/tp x", false, &permitted), SuggestDecision::Pass);
}

// The tree of commands

#[test]
fn test_inject_proxy_commands() {
    let mut payload = varints(&[2]);
    payload.push(0); // the root
    payload.extend_from_slice(&varints(&[1, 1]));
    let mut say = vec![0x05, 0];
    assert!(put_text(&mut say, "say"));
    payload.extend_from_slice(&say);
    payload.push(0);

    let permitted = vec!["server".to_string(), "list".to_string()];
    let plan = plan_injection(&payload, V_1_21_4, &permitted).expect("plan failed");
    assert_eq!(plan.total, 5);
    assert_eq!(
        plan.new_nodes,
        vec![
            NewNode::Literal { name: "server".to_string(), executable: true, child: Some(3) },
            NewNode::Arguments,
            NewNode::Literal { name: "list".to_string(), executable: true, child: None },
        ]
    );
    let injected = inject_proxy_commands(&plan, &[0xaa, 0xbb]);

    let (total_nodes, p) = get_varint(&injected, 0).unwrap();
    // Original: 2 (root, say). Added: server (literal + args: 2), list (literal: 1). Total: 5.
    assert_eq!(total_nodes, 5);
    assert_eq!(injected[p], 0); // Root node flag
    let (root_children_count, p) = get_varint(&injected, p + 1).unwrap();
    // Original 1 (say) + 2 new root commands (server, list) = 3
    assert_eq!(root_children_count, 3);
    let (c1, p) = get_varint(&injected, p).unwrap();
    assert_eq!(c1, 1); // say
    let (c2, p) = get_varint(&injected, p).unwrap();
    assert_eq!(c2, 2); // server
    let (c3, p) = get_varint(&injected, p).unwrap();
    assert_eq!(c3, 4); // list (index 2 is server literal, 3 is server args, 4 is list literal)
    assert_eq!(&injected[p..p + say.len()], &say[..]);
    assert_eq!(&injected[p + say.len()..], &[0xaa, 0xbb, 0]);

    // The packet must end with VarInt(0) for root_node_index
    assert_eq!(injected.last(), Some(&0));
}

#[test]
fn trees_that_cannot_be_added_to() {
    let names = vec!["list".to_string()];
    assert!(plan_injection(&[], V_1_21_4, &names).is_none());
    assert!(plan_injection(&[1, 0, 0, 1], V_1_21_4, &names).is_none());
    assert!(plan_injection(&[1, 1, 0, 0], V_1_21_4, &names).is_none());
    assert!(plan_injection(&[1, 0, 0, 0], V_1_21_4, &vec![]).is_none());
    let old = ClientVersion { has_command_tree: false, ..V_1_21_4 };
    assert!(plan_injection(&[1, 0, 0, 0], old, &names).is_none());
    assert!(plan_injection(&[1, 0, 0, 0], V_1_21_4, &names).is_some());
}

// Forwarding

#[test]
fn test_bungeecord_host_formatting() {
    let host = ForwardingHelper::build_bungeecord_host(
        "play.example.com",
        "192.0.2.1",
        &player("Steve"),
        None,
    );

    let parts: Vec<&str> = host.split('\0').collect();
    assert_eq!(parts.len(), 4);
    assert_eq!(parts[0], "play.example.com");
    assert_eq!(parts[1], "192.0.2.1");
    assert_eq!(parts[2], "d8f4a1e00f1b4c3a9f2e1a2b3c4d5e6f");
    assert_eq!(parts[3], "[]");
}

#[test]
fn test_velocity_payload_generation() {
    let secret = "test-secret-key";
    let result = ForwardingHelper::build_velocity_payload(secret, "127.0.0.1", &player("Alex"));
    assert!(result.is_ok());
    let data = result.unwrap();

    assert!(data.len() > 32);
}

#[test]
fn a_velocity_payload_is_signed_and_reads_back() {
    let mut p = player("Alex");
    p.properties.push(Property {
        name: "textures".to_string(),
        value: "v".to_string(),
        signature: Some("s".to_string()),
    });
    let data = ForwardingHelper::build_velocity_payload("k", "127.0.0.1", &p).unwrap();
    let body = &data[32..];
    let (version, at) = get_varint(body, 0).unwrap();
    assert_eq!(version, 4);
    let (ip, at) = get_text(body, at).unwrap();
    assert_eq!(ip, "127.0.0.1");
    assert_eq!(&body[at..at + 16], &ID.to_be_bytes());
    let (name, at) = get_text(body, at + 16).unwrap();
    assert_eq!(name, "Alex");
    let (count, at) = get_varint(body, at).unwrap();
    assert_eq!(count, 1);
    let (property, at) = get_text(body, at).unwrap();
    assert_eq!(property, "textures");
    let (value, at) = get_text(body, at).unwrap();
    assert_eq!(value, "v");
    assert_eq!(body[at], 1);
    assert_eq!(get_text(body, at + 1).unwrap(), ("s".to_string(), body.len()));
    let other = ForwardingHelper::build_velocity_payload("l", "127.0.0.1", &p).unwrap();
    assert_eq!(&other[32..], body);
    assert_ne!(&other[..32], &data[..32]);
}

#[test]
fn test_vine_payload_generation_and_verification() {
    let secret = "test-vine-secret-phrase";
    let challenge = [7u8; 16];

    let result = ForwardingHelper::build_vine_payload(
        secret,
        "127.0.0.1",
        &player("Alex"),
        &challenge,
    );
    assert!(result.is_ok());
    let data = result.unwrap();

    // 64-byte signature + payload
    assert!(data.len() > 64);
    let (sig_bytes, payload_bytes) = data.split_at(64);

    let signing_key = ForwardingHelper::get_vine_signing_key(secret).unwrap();
    let mut key_arr = [0u8; 32];
    key_arr.copy_from_slice(&signing_key.verifying_key());
    let verifying_key = VerifyingKey::from_bytes(&key_arr).unwrap();

    let mut sig_arr = [0u8; 64];
    sig_arr.copy_from_slice(sig_bytes);
    let signature = Signature::from_bytes(&sig_arr);

    assert!(verifying_key.verify(payload_bytes, &signature).is_ok());

    let pub_hex = ForwardingHelper::get_vine_public_key_hex(secret).unwrap();
    assert_eq!(pub_hex.len(), 64);
    let expected: String = key_arr.iter().map(|b| format!("{:02x}", b)).collect();
    assert_eq!(pub_hex, expected);
}

#[test]
fn a_vine_payload_is_accepted_under_its_own_key_only() {
    let key = ForwardingHelper::get_vine_signing_key("s").unwrap().verifying_key();
    let other = ForwardingHelper::get_vine_signing_key("t").unwrap().verifying_key();
    let p = player("Alex");
    let data =
        ForwardingHelper::build_vine_payload_at("s", "127.0.0.1", &p, &[3; 16], 0x0102).unwrap();
    assert!(ForwardingHelper::verify_vine_payload(&key, &data));
    assert!(!ForwardingHelper::verify_vine_payload(&other, &data));
    assert!(!ForwardingHelper::verify_vine_payload(&key, &data[..63]));
    assert!(!ForwardingHelper::verify_vine_payload(&key[..31].to_vec(), &data));
    assert!(!ForwardingHelper::verify_vine_payload(&vec![2; 32], &data));
    let mut changed = data.clone();
    changed[70] ^= 1;
    assert!(!ForwardingHelper::verify_vine_payload(&key, &changed));
    assert_eq!(data[64], 1);
    assert_eq!(data[65..73], [0, 0, 0, 0, 0, 0, 1, 2]);
    assert_eq!(data[73..89], [3; 16]);
}

#[test]
fn a_key_can_be_given_in_hexadecimal() {
    let seed = "000102030405060708090a0b0c0d0e0f101112131415161718191a1b1c1d1e1f";
    let seed_bytes: Vec<u8> = (0..32).collect();
    let mut arr = [0u8; 32];
    arr.copy_from_slice(&seed_bytes);
    let expected = ed25519_dalek::SigningKey::from_bytes(&arr).verifying_key();
    let key = ForwardingHelper::get_vine_signing_key(seed).unwrap();
    assert_eq!(key.verifying_key(), expected.to_bytes().to_vec());
    assert_ne!(
        ForwardingHelper::get_vine_public_key_hex("phrase").unwrap(),
        ForwardingHelper::get_vine_public_key_hex("phrase2").unwrap()
    );
}

#[test]
fn a_phrase_is_hashed_and_a_payload_is_authenticated() {
    let seed = <sha2::Sha256 as sha2::Digest>::digest(b"phrase");
    let mut arr = [0u8; 32];
    arr.copy_from_slice(seed.as_slice());
    let expected = ed25519_dalek::SigningKey::from_bytes(&arr).verifying_key();
    let key = ForwardingHelper::get_vine_signing_key("  phrase\n").unwrap();
    assert_eq!(key.verifying_key(), expected.to_bytes().to_vec());

    let data = ForwardingHelper::build_velocity_payload("k", "127.0.0.1", &player("A")).unwrap();
    let mac = <hmac::Hmac<sha2::Sha256> as hmac::KeyInit>::new_from_slice(b"k").unwrap();
    let expected = hmac::Mac::finalize(hmac::Mac::chain_update(mac, &data[32..])).into_bytes();
    assert_eq!(&data[..32], expected.as_slice());
}

#[test]
fn forwarding_needs_a_secret() {
    let p = player("A");
    assert_eq!(
        ForwardingHelper::build_velocity_payload("", "127.0.0.1", &p),
        Err(ForwardingError::MissingVelocitySecret)
    );
    assert_eq!(
        ForwardingHelper::build_vine_payload("  ", "127.0.0.1", &p, &[0; 16]),
        Err(ForwardingError::MissingVineSecret)
    );
    assert_eq!(
        ForwardingHelper::get_vine_public_key_hex(""),
        Err(ForwardingError::MissingVineSecret)
    );
}

#[test]
fn a_vine_payload_depends_on_time_and_challenge() {
    let p = player("Alex");
    let at = |now: u64, c: u8| {
        ForwardingHelper::build_vine_payload_at("s", "127.0.0.1", &p, &[c; 16], now).unwrap()
    };
    assert_eq!(at(5, 1), at(5, 1));
    assert_ne!(at(5, 1)[64..], at(6, 1)[64..]);
    assert_ne!(at(5, 1)[64..], at(5, 2)[64..]);
    assert_eq!(at(5, 1).len(), at(6, 2).len());
}

#[test]
fn forwarding_errors_have_words() {
    let e = ForwardingError::HmacError("x".to_string());
    assert!(e.message().contains("x"));
}

// Routing

#[test]
fn hosts_lead_to_servers() {
    let c = Config::default();
    let mut routing = c.routing;
    routing.forced_hosts.insert("play.example.com".to_string(), "survival".to_string());
    let router = Router::new(routing, c.servers);
    assert_eq!(router.resolve_server("play.example.com").unwrap().0, "survival");
    assert_eq!(router.resolve_server("unknown.example.com").unwrap().0, "lobby");
    let empty = Router::new(Config::default().routing, Table::new());
    assert!(empty.resolve_server("x").is_none());
}

// Logging in

const IDS: LoginIds = LoginIds { disconnect: 0, success: 2, compression: 3, plugin_request: 4 };

fn request(channel: &str, rest: &[u8]) -> Vec<u8> {
    let mut body = varints(&[77]);
    assert!(put_text(&mut body, channel));
    body.extend_from_slice(rest);
    body
}

#[test]
fn login_packets_are_answered() {
    let p = player("Alex");
    let secret = Some("k".to_string());
    let step = |id: i32, body: &[u8], secret: &Option<String>| {
        on_login_packet_at(IDS, secret, "127.0.0.1", &p, 6, id, body, 99)
    };
    let velocity = ForwardingHelper::build_velocity_payload("k", "127.0.0.1", &p).unwrap();
    assert_eq!(
        step(4, &request("velocity:player_info", &[]), &secret),
        LoginStep::Respond { message_id: 77, data: Some(velocity) }
    );
    let vine =
        ForwardingHelper::build_vine_payload_at("k", "127.0.0.1", &p, &[9; 16], 99).unwrap();
    let mut challenge = vec![1];
    challenge.extend_from_slice(&[9; 16]);
    assert_eq!(
        step(4, &request("vine:player_info", &challenge), &secret),
        LoginStep::Respond { message_id: 77, data: Some(vine) }
    );
    assert_eq!(
        step(4, &request("fml:handshake", &[1]), &secret),
        LoginStep::Respond { message_id: 77, data: None }
    );
    assert_eq!(
        step(4, &request("velocity:player_info", &[]), &None),
        LoginStep::Fail(BridgeError::VelocityError("Secret missing".to_string()))
    );
    assert_eq!(
        step(4, &request("vine:player_info", &[]), &None),
        LoginStep::Fail(BridgeError::VineError("Secret missing".to_string()))
    );
    assert_eq!(
        step(3, &varints(&[256]), &secret),
        LoginStep::SetCompression { threshold: 256, level: 6 }
    );
    assert_eq!(step(2, &[1, 2], &secret), LoginStep::Done(frame(2, &[1, 2])));
    assert_eq!(step(9, &[], &secret), LoginStep::Skip);
    assert!(matches!(step(0, &[], &secret), LoginStep::Fail(_)));
    assert_eq!(
        on_login_packet(IDS, &None, "127.0.0.1", &p, 6, 2, &[1]),
        LoginStep::Done(frame(2, &[1]))
    );
}

#[test]
fn a_login_opens_with_the_players_data() {
    let plain =
        login_opening(ForwardingMode::Velocity, V_1_21_4, "h", "1.1.1.1", &player("A"), None);
    assert_eq!((plain.address.as_str(), plain.port, plain.protocol), ("h", 25565, 769));
    assert_eq!((plain.name.as_str(), plain.id), ("A", ID));
    let bungee = login_opening(
        ForwardingMode::BungeeCord,
        V_1_21_4,
        "h",
        "1.1.1.1",
        &player("A"),
        Some("[1]"),
    );
    assert_eq!(bungee.address, "h\u{0}1.1.1.1\u{0}d8f4a1e00f1b4c3a9f2e1a2b3c4d5e6f\u{0}[1]");
}

#[test]
fn a_backend_is_tried_a_few_times() {
    assert_eq!(next_attempt(1, 2), Some(2));
    assert_eq!(next_attempt(2, 2), None);
    assert_eq!(next_attempt(1, 0), None);
    assert_eq!(
        connect_failed("lobby", None),
        BridgeError::ConnectFailed("lobby".to_string(), "Failed to connect".to_string())
    );
    assert!(connect_failed("lobby", Some("refused".to_string())).message().contains("refused"));
}

// The bridge

fn backend() -> BackendConfig {
    BackendConfig {
        address: "127.0.0.1:1".to_string(),
        forwarding: ForwardingMode::Plain,
        secret: None,
        icon_path: None,
        motd_line1: None,
        motd_line2: None,
    }
}

fn bridge(fallback: Option<&str>) -> BackendBridge {
    let mut servers = Table::new();
    for name in ["lobby", "survival", "hub"] {
        servers.insert(name.to_string(), backend());
    }
    BackendBridge::new(
        "lobby".to_string(),
        backend(),
        fallback.map(|f| (f.to_string(), backend())),
        "1.2.3.4".to_string(),
        V_1_21_4,
        "host".to_string(),
        player("Alex"),
        500,
        NetworkConfig::default(),
        6,
        servers,
    )
}

fn decided(target: &str, cancelled: bool) -> BridgeEvent {
    BridgeEvent::Decided(ServerConnectEvent {
        uuid: "u".to_string(),
        username: "Alex".to_string(),
        current_server: None,
        target_server: target.to_string(),
        cancelled,
        cancel_reason: None,
    })
}

fn playing(b: &BackendBridge) -> Phase {
    let (phase, commands) = b.start();
    assert!(matches!(&commands[0], BridgeCommand::FireServerConnect(e) if e.target_server == "lobby"));
    let (phase, commands) = b.step(phase, &decided("lobby", false));
    assert!(matches!(&commands[0], BridgeCommand::Login { server, .. } if server == "lobby"));
    let (phase, commands) = b.step(phase, &BridgeEvent::LoggedIn(vec![1]));
    assert_eq!(commands, vec![BridgeCommand::SendToClient(vec![1])]);
    let (phase, commands) = b.step(phase, &BridgeEvent::Sent);
    assert_eq!(commands[0], BridgeCommand::CountIn);
    assert!(matches!(&commands[3], BridgeCommand::Register { uuid, .. } if *uuid == ID));
    assert_eq!(commands[4], BridgeCommand::Tunnel { server: "lobby".to_string() });
    phase
}

#[test]
fn a_stay_begins_and_ends() {
    let b = bridge(None);
    let phase = playing(&b);
    assert_eq!(phase, Phase::Playing { server: "lobby".to_string() });
    let (phase, commands) =
        b.step(phase, &BridgeEvent::TunnelEnded(TunnelExit::ClientDisconnected));
    assert_eq!(phase, Phase::Ended);
    assert!(matches!(&commands[0], BridgeCommand::FirePlayerDisconnect(e)
        if e.last_server.as_deref() == Some("lobby")));
    assert_eq!(commands[1], BridgeCommand::Unregister { username: "Alex".to_string() });
    assert_eq!(commands[2..], [BridgeCommand::CountOut, BridgeCommand::Finish]);
    let (phase, commands) = b.step(phase, &BridgeEvent::Sent);
    assert_eq!((phase, commands.len()), (Phase::Ended, 0));
}

#[test]
fn a_player_switches_servers() {
    let b = bridge(None);
    let exit = TunnelExit::Connect { server_name: "survival".to_string() };
    let (phase, _) = b.step(playing(&b), &BridgeEvent::TunnelEnded(exit));
    let (phase, commands) = b.step(phase, &decided("survival", false));
    assert!(matches!(&commands[0], BridgeCommand::Login { server, .. } if server == "survival"));
    let (phase, commands) = b.step(phase, &BridgeEvent::LoggedIn(vec![]));
    assert_eq!(phase, Phase::Playing { server: "survival".to_string() });
    assert_eq!(commands[0], BridgeCommand::StartConfiguration);
    assert_eq!(commands[1], BridgeCommand::UseNewBackend);
    assert_eq!(commands.last(), Some(&BridgeCommand::Tunnel { server: "survival".to_string() }));
}

#[test]
fn a_forbidden_switch_leaves_the_player_in_place() {
    let b = bridge(None);
    let exit = TunnelExit::Connect { server_name: "survival".to_string() };
    let (phase, _) = b.step(playing(&b), &BridgeEvent::TunnelEnded(exit));
    let (phase, commands) = b.step(phase, &decided("survival", true));
    assert_eq!(phase, Phase::Playing { server: "lobby".to_string() });
    assert_eq!(
        commands[0],
        BridgeCommand::SendChat("§cServer switch cancelled by plugin".to_string())
    );
}

#[test]
fn a_lost_server_leads_to_the_fallback() {
    let b = bridge(Some("hub"));
    let exit = TunnelExit::BackendDisconnected { reason: None };
    let (phase, commands) = b.step(playing(&b), &BridgeEvent::TunnelEnded(exit));
    assert!(matches!(&phase, Phase::Recovering { target, .. } if target == "hub"));
    assert_eq!(
        commands[0],
        BridgeCommand::SendChat(
            "§eConnecting to fallback server 'hub'... (§cServer closed§e)".to_string()
        )
    );
    let (phase, commands) =
        b.step(phase, &BridgeEvent::LoginFailed(BridgeError::IoError("down".to_string())));
    assert_eq!(phase, Phase::Ended);
    assert!(matches!(&commands[0], BridgeCommand::Kick(t)
        if t.starts_with("Lost connection to 'lobby' and fallback unavailable: ")));
}

#[test]
fn a_failed_first_login_tries_the_fallback_once() {
    let b = bridge(Some("hub"));
    let (phase, _) = b.start();
    let (phase, _) = b.step(phase, &decided("lobby", false));
    let failed = BridgeEvent::LoginFailed(BridgeError::LoginTimeout("lobby".to_string()));
    let (phase, commands) = b.step(phase, &failed);
    assert!(matches!(&commands[0], BridgeCommand::Login { server, .. } if server == "hub"));
    let (phase, commands) = b.step(phase, &failed);
    assert_eq!(phase, Phase::Ended);
    assert!(matches!(&commands[0], BridgeCommand::Fail(_)));
    let same = bridge(Some("lobby"));
    let (phase, _) = same.start();
    let (phase, _) = same.step(phase, &decided("lobby", false));
    let (phase, _) = same.step(phase, &failed);
    assert_eq!(phase, Phase::Ended);
}

#[test]
fn plugins_can_forbid_the_first_login() {
    let b = bridge(None);
    let (phase, _) = b.start();
    let (phase, commands) = b.step(phase, &decided("lobby", true));
    assert_eq!(phase, Phase::Ended);
    assert_eq!(
        commands,
        vec![BridgeCommand::Fail(BridgeError::VineError(
            "Connection cancelled by plugin".to_string()
        ))]
    );
}

// The tunnel

const TUNNEL: TunnelIds = TunnelIds {
    chat_command: 4,
    chat_message: 7,
    custom_payload: 20,
    command_suggestion: 13,
    suggestions_reply: 16,
    commands: 17,
    play_disconnect: 29,
};

fn tunnel() -> Tunnel {
    Tunnel::new(TUNNEL, "Alex".to_string(), ID, "lobby".to_string())
}

#[test]
fn a_clients_packets_are_looked_at() {
    let t = tunnel();
    assert_eq!(
        t.on_client_packet(false, 1, &[]),
        ClientStep::Exit(TunnelExit::ClientDisconnected)
    );
    assert_eq!(t.on_client_packet(true, 1, &[9]), ClientStep::Forward(frame(1, &[9])));
    assert_eq!(t.on_client_packet(true, 4, &[9]), ClientStep::ReadCommand);
    assert_eq!(t.on_client_packet(true, 7, &[9]), ClientStep::ReadChat);
    assert_eq!(t.on_client_packet(true, 20, &[9]), ClientStep::ReadCustom);
    assert_eq!(t.on_client_packet(true, 13, &[9]), ClientStep::ReadSuggestion);
    let mut seen = Some(t.command_event("server x".to_string()));
    assert_eq!(
        t.on_command(4, &[9], &seen, true),
        ClientStep::RunCommand("server x".to_string())
    );
    assert_eq!(t.on_command(4, &[9], &seen, false), ClientStep::Forward(frame(4, &[9])));
    if let Some(e) = &mut seen {
        e.cancelled = true;
    }
    assert_eq!(t.on_command(4, &[9], &seen, true), ClientStep::Drop);
    let mut chat = t.chat_event("hi".to_string());
    chat.cancelled = true;
    assert_eq!(t.on_chat(7, &[9], &Some(chat)), ClientStep::Drop);
    assert_eq!(t.on_chat(7, &[9], &None), ClientStep::Forward(frame(7, &[9])));
    let custom = t.custom_event("c".to_string(), vec![1]);
    assert_eq!(custom.server_name.as_deref(), Some("lobby"));
    assert_eq!(t.on_custom(20, &[9], &Some(custom)), ClientStep::Forward(frame(20, &[9])));
}

#[test]
fn a_flood_of_packets_ends_the_stay() {
    let t = tunnel();
    let mut limiter = PacketRateLimiter::new(2);
    assert_eq!(t.on_limited_packet(&mut limiter, 4, &[9]), ClientStep::ReadCommand);
    assert_eq!(
        t.on_limited_packet(&mut limiter, 1, &[9]),
        ClientStep::Forward(frame(1, &[9]))
    );
    assert_eq!(
        t.on_limited_packet(&mut limiter, 1, &[9]),
        ClientStep::Exit(TunnelExit::ClientDisconnected)
    );
    assert_eq!(limiter.packet_count(), 3);
}

#[test]
fn the_dispatcher_decides_on_commands_and_requests() {
    let mut t = tunnel();
    let dispatcher = CommandDispatcher::new();
    let mut config = Config::default();
    config.permissions.users.insert(
        "Mute".to_string(),
        UserPermissionConfig::Detailed {
            groups: vec![],
            permissions: vec!["-vine.command.glist".to_string()],
        },
    );
    let session_manager = SessionManager::new();
    let source = |username: &str| ProxyCommandSource {
        sender: CommandSender::Player { username: username.to_string(), channel: 1 },
        config: &config,
        session_manager: &session_manager,
    };

    let seen = Some(t.command_event("server lobby".to_string()));
    assert_eq!(
        t.decide_command(&dispatcher, 4, &[9], &seen),
        ClientStep::RunCommand("server lobby".to_string())
    );
    let seen = Some(t.command_event("gamemode creative".to_string()));
    assert_eq!(
        t.decide_command(&dispatcher, 4, &[9], &seen),
        ClientStep::Forward(frame(4, &[9]))
    );
    assert_eq!(
        t.decide_command(&dispatcher, 4, &[9], &None),
        ClientStep::Forward(frame(4, &[9]))
    );

    let arguments = Some((6, "/server lo".to_string()));
    assert_eq!(
        t.decide_request(&dispatcher, &source("Steve"), 13, &[1], &arguments),
        (ClientStep::Complete { command: "server lo".to_string(), offset: 1 }, None)
    );
    let name = Some((7, "/GL".to_string()));
    let forward = ClientStep::Forward(frame(13, &[1]));
    let (step, waits) = t.decide_request(&dispatcher, &source("Mute"), 13, &[1], &name);
    assert_eq!((step, waits), (forward, None));
    let (_, waits) = t.decide_request(&dispatcher, &source("Alex"), 13, &[1], &name);
    assert_eq!(waits, Some(7));
    assert_eq!(t.on_timer(7).unwrap().matches[0].suggestion, "glist");
    let (_, waits) = t.decide_request(&dispatcher, &source("Alex"), 13, &[1], &None);
    assert_eq!(waits, None);
}

#[test]
fn suggestions_wait_for_the_backend_or_the_clock() {
    let permitted = vec![("send".to_string(), "a".to_string())];
    let mut t = tunnel();
    let request = Some((5, "/se".to_string()));
    let (step, waits) = t.on_suggestion(13, &[1], &request, false, &permitted);
    assert_eq!(step, ClientStep::Forward(frame(13, &[1])));
    assert_eq!(waits, Some(5));
    let reply = SuggestionReply { id: 5, start: 1, length: 2, matches: vec![] };
    let merged = t.on_suggestions(Some(reply)).unwrap();
    assert_eq!(merged.matches[0].suggestion, "send");
    assert!(t.on_timer(5).is_none());
    let _ = t.on_suggestion(13, &[1], &request, false, &permitted);
    assert_eq!(t.on_timer(5).unwrap().matches.len(), 1);
    assert!(t.on_suggestions(None).is_none());
    let late = SuggestionReply { id: 5, start: 1, length: 2, matches: vec![] };
    assert!(t.on_suggestions(Some(late)).is_none());
    assert!(t.on_timer(5).is_none());
}

#[test]
fn a_backends_packets_are_looked_at() {
    let t = tunnel();
    assert_eq!(t.on_backend_packet(29, &[]), BackendStep::ReadDisconnect);
    assert_eq!(t.on_backend_packet(16, &[]), BackendStep::ReadSuggestions);
    assert_eq!(t.on_backend_packet(17, &[]), BackendStep::ReadCommands);
    assert_eq!(t.on_backend_packet(1, &[2]), BackendStep::Forward(frame(1, &[2])));
    assert_eq!(t.backend_rest(16, &[2]), BackendStep::Forward(frame(16, &[2])));
    assert_eq!(
        t.on_disconnect(None, b"bye\xff"),
        TunnelExit::BackendDisconnected { reason: Some("bye\u{fffd}".to_string()) }
    );
    assert_eq!(
        t.on_disconnect(None, b""),
        TunnelExit::BackendDisconnected { reason: None }
    );
    assert_eq!(t.on_commands(17, &[1], &None), frame(17, &[1]));
    assert_eq!(t.on_commands(17, &[1], &Some(vec![2])), frame(17, &[2]));
}

#[test]
fn actions_and_ends() {
    let t = tunnel();
    assert_eq!(
        t.on_action(PlayerAction::Connect { server_name: "s".to_string() }),
        ActionStep::Exit(TunnelExit::Connect { server_name: "s".to_string() })
    );
    assert_eq!(
        t.on_action(PlayerAction::Message("m".to_string())),
        ActionStep::Chat("m".to_string())
    );
    assert_eq!(
        t.on_action(PlayerAction::Disconnect("d".to_string())),
        ActionStep::DisconnectThenExit {
            reason: "d".to_string(),
            exit: TunnelExit::BackendDisconnected { reason: Some("d".to_string()) },
        }
    );
    assert_eq!(on_stream_end(StreamEnd::ClientRead), TunnelExit::ClientDisconnected);
    assert_eq!(
        on_stream_end(StreamEnd::BackendRead("x".to_string())),
        TunnelExit::BackendDisconnected { reason: Some("x".to_string()) }
    );
    assert_eq!(escape_quotes("a\"b"), "a\\\"b");
    assert!(matches!(disconnect_client(false, "r"), DisconnectPacket::Play(_)));
    assert!(matches!(disconnect_client(true, "r"), DisconnectPacket::Configuration(t)
        if t.contains("r")));
}

#[test]
fn bridge_errors_have_words() {
    for e in [
        BridgeError::ConnectFailed("a".to_string(), "b".to_string()),
        BridgeError::IoError("b".to_string()),
        BridgeError::DecodeError("b".to_string()),
        BridgeError::EncodeError("b".to_string()),
        BridgeError::LoginTimeout("b".to_string()),
        BridgeError::LoginDisconnected("b".to_string()),
        BridgeError::VelocityError("b".to_string()),
        BridgeError::VineError("b".to_string()),
    ] {
        assert!(e.message().contains("b"));
    }
}
