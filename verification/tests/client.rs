use rsa::pkcs8::DecodePublicKey;
use vine::auth::{AuthError, AuthenticatedPlayer, KeyStore};
use vine::backend::error::BridgeError;
use vine::backend::Router;
use vine::client::{
    kick_text, on_handshake, ClientError, ClientHandler, HandshakeStep, LoginCommand, LoginPhase,
    NextState,
};
use vine::config::Config;
use vine::table::Table;

fn config(online: bool) -> Config {
    let mut c = Config::default();
    c.server.online_mode = online;
    c.server.compression_threshold = 256;
    c.server.compression_level = 6;
    c
}

fn router() -> Router {
    let c = Config::default();
    Router::new(c.routing, c.servers)
}

#[test]
fn a_handshake_leads_on() {
    assert_eq!(
        on_handshake("play\0.example", NextState::Status),
        HandshakeStep::Status { host: "play.example".to_string() }
    );
    assert_eq!(
        on_handshake("h", NextState::Login),
        HandshakeStep::Login { host: "h".to_string() }
    );
    assert_eq!(on_handshake("h", NextState::Other), HandshakeStep::Close);
}

#[test]
fn an_offline_login_goes_straight_to_a_backend() {
    let (c, k, r) = (config(false), KeyStore::new().unwrap(), router());
    let h = ClientHandler::new("1.2.3.4".to_string(), &c, &k, &r);
    let (phase, commands) = h.on_start("host", "Steve");
    assert_eq!(phase, LoginPhase::Bridged);
    assert_eq!(commands[0], LoginCommand::SendCompression(256));
    assert_eq!(commands[1], LoginCommand::SetCompression { threshold: 256, level: 6 });
    match &commands[2] {
        LoginCommand::Bridge { server, fallback, player, .. } => {
            assert_eq!(server, "lobby");
            assert_eq!(fallback.as_ref().map(|f| f.0.as_str()), Some("survival"));
            assert_eq!(player, &AuthenticatedPlayer::offline("Steve"));
        }
        other => panic!("{:?}", other),
    }
}

#[test]
fn an_invalid_name_is_refused() {
    let (c, k, r) = (config(false), KeyStore::new().unwrap(), router());
    let h = ClientHandler::new("1.2.3.4".to_string(), &c, &k, &r);
    let (phase, commands) = h.on_start("host", "not valid");
    assert_eq!(phase, LoginPhase::Ended);
    assert_eq!(
        commands,
        vec![
            LoginCommand::Kick(kick_text(
                "Invalid username characters or length (must be 2-16 alphanumeric or _)"
            )),
            LoginCommand::Finish,
        ]
    );
}

#[test]
fn an_online_login_is_encrypted_and_verified() {
    let (c, k, r) = (config(true), KeyStore::new().unwrap(), router());
    let h = ClientHandler::new("1.2.3.4".to_string(), &c, &k, &r);
    let (phase, commands) = h.on_start("host", "Steve");
    let token = match phase {
        LoginPhase::Encrypting { username, token } => {
            assert_eq!(username, "Steve");
            assert_eq!(token.len(), 4);
            token
        }
        other => panic!("{:?}", other),
    };
    assert_eq!(
        commands,
        vec![LoginCommand::RequestEncryption {
            public_key: k.public_key_der().to_vec(),
            token: token.clone(),
        }]
    );
    let key = rsa::RsaPublicKey::from_public_key_der(k.public_key_der()).unwrap();
    let mut seal = |data: &[u8]| {
        key.encrypt(&mut rsa::rand_core::OsRng, rsa::Pkcs1v15Encrypt, data).unwrap()
    };
    let secret = [5u8; 16];
    let (phase, commands) = h.on_encryption("Steve", &token, &seal(&token), &seal(&secret));
    assert_eq!(
        phase,
        LoginPhase::Verifying { username: "Steve".to_string(), key: secret.to_vec() }
    );
    assert_eq!(
        commands,
        vec![LoginCommand::Authenticate {
            username: "Steve".to_string(),
            server_hash: k.auth_digest("", &secret),
            client_ip: "1.2.3.4".to_string(),
            with_ip: c.server.prevent_proxy_connections,
        }]
    );
    let player = AuthenticatedPlayer { id: 5, username: "Steve".to_string(), properties: vec![] };
    let (phase, commands) = h.on_verified("host", secret.to_vec(), Ok(player));
    assert_eq!(phase, LoginPhase::Bridged);
    assert_eq!(commands[0], LoginCommand::EnableEncryption(secret.to_vec()));

    let (phase, commands) = h.on_encryption("Steve", &token, &seal(b"no"), &seal(&secret));
    assert_eq!(phase, LoginPhase::Ended);
    assert_eq!(commands[0], LoginCommand::Kick(kick_text("Failed to verify encryption token")));
    let (_, commands) = h.on_encryption("Steve", &token, &seal(&token), &seal(b"short"));
    assert_eq!(commands[0], LoginCommand::Kick(kick_text("Invalid encryption key length")));
}

#[test]
fn a_login_that_cannot_be_decrypted_fails() {
    let (c, k, r) = (config(true), KeyStore::new().unwrap(), router());
    let h = ClientHandler::new("1.2.3.4".to_string(), &c, &k, &r);
    let (phase, commands) =
        h.on_decrypted("Steve", &vec![1], Err("bad".to_string()), Ok(vec![0; 16]));
    assert_eq!(phase, LoginPhase::Ended);
    assert_eq!(
        commands,
        vec![LoginCommand::Fail(ClientError::AuthError(
            "Failed to decrypt RSA payload: bad".to_string()
        ))]
    );
    let (phase, commands) =
        h.on_verified("host", vec![0; 16], Err(AuthError::MojangAuthFailed(403)));
    assert_eq!(phase, LoginPhase::Ended);
    assert!(commands.iter().any(|c| matches!(c, LoginCommand::Kick(_))));
}

#[test]
fn without_a_backend_the_client_is_told() {
    let (c, k) = (config(false), KeyStore::new().unwrap());
    let r = Router::new(Config::default().routing, Table::new());
    let h = ClientHandler::new("1.2.3.4".to_string(), &c, &k, &r);
    let (phase, commands) = h.on_start_with("host", "Steve", vec![0; 4]);
    assert_eq!(phase, LoginPhase::Ended);
    assert_eq!(
        commands[2],
        LoginCommand::Kick(kick_text(
            "No default or matching backend Minecraft server is configured on the proxy."
        ))
    );
}

#[test]
fn a_kick_is_json() {
    assert_eq!(
        kick_text("say \"hi\""),
        "{\"text\":\"[Vine Proxy] say \\\"hi\\\"\",\"color\":\"red\"}"
    );
}

#[test]
fn client_errors_have_words() {
    for e in [
        ClientError::IoError("b".to_string()),
        ClientError::DecodeError("b".to_string()),
        ClientError::EncodeError("b".to_string()),
        ClientError::AuthError("b".to_string()),
        ClientError::BridgeError(BridgeError::IoError("b".to_string())),
    ] {
        assert!(e.message().contains("b"));
    }
    assert!(!ClientError::Timeout.message().is_empty());
}
