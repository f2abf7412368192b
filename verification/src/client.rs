//! A client's connection before the game: handshake, status, and login.
//!
//! The login is a machine: each event gives the next phase and the commands to carry out, in
//! order.
use vstd::prelude::*;
use vstd::string::*;

use crate::auth::{
    auth_error_words, server_hash, AuthError, AuthErrorModel, AuthenticatedPlayer, KeyStore,
    PlayerModel,
};
use crate::backend::error::{bridge_error_words, BridgeError};
use crate::backend::router::{named, Router};
use crate::backend::tunnel::{escape_quotes, quotes_escaped};
use crate::codec::{be_number, be_value, to_unsigned, unsigned};
use crate::config::{BackendConfig, BackendModel, Config};
use crate::crypto::rsa_decrypted;
use crate::plugin::api::copy_bytes;
use crate::security::sanitizer::{sanitized_host, valid_username, Sanitizer};
use crate::table::views;
use crate::text::{cat2, cat3, opt_text, owned};

verus! {

broadcast use vstd::seq::group_seq_axioms;

#[derive(Debug, PartialEq, Eq)]
pub enum ClientError<S = String> {
    IoError(S),
    DecodeError(S),
    EncodeError(S),
    AuthError(S),
    BridgeError(BridgeError<S>),
    Timeout,
}

pub type ClientErrorModel = ClientError<Seq<char>>;

impl View for ClientError {
    type V = ClientErrorModel;

    open spec fn view(&self) -> ClientErrorModel {
        match self {
            ClientError::IoError(e) => ClientError::IoError(e@),
            ClientError::DecodeError(e) => ClientError::DecodeError(e@),
            ClientError::EncodeError(e) => ClientError::EncodeError(e@),
            ClientError::AuthError(e) => ClientError::AuthError(e@),
            ClientError::BridgeError(e) => ClientError::BridgeError(e@),
            ClientError::Timeout => ClientError::Timeout,
        }
    }
}

pub open spec fn client_error_words(e: ClientErrorModel) -> Seq<char> {
    match e {
        ClientError::IoError(t) => "Client IO error: "@ + t,
        ClientError::DecodeError(t) => "Protocol decode error: "@ + t,
        ClientError::EncodeError(t) => "Protocol encode error: "@ + t,
        ClientError::AuthError(t) => "Authentication failed: "@ + t,
        ClientError::BridgeError(b) => "Bridge error: "@ + bridge_error_words(b),
        ClientError::Timeout => "Connection timed out"@,
    }
}

impl ClientError {
    pub fn message(&self) -> (r: String)
        ensures
            r@ == client_error_words(self@),
    {
        match self {
            ClientError::IoError(t) => cat2("Client IO error: ", t.as_str()),
            ClientError::DecodeError(t) => cat2("Protocol decode error: ", t.as_str()),
            ClientError::EncodeError(t) => cat2("Protocol encode error: ", t.as_str()),
            ClientError::AuthError(t) => cat2("Authentication failed: ", t.as_str()),
            ClientError::BridgeError(b) => cat2("Bridge error: ", b.message().as_str()),
            ClientError::Timeout => owned("Connection timed out"),
        }
    }
}

// ---------------------------------------------------------------------------
// Handshake and status
// ---------------------------------------------------------------------------

/// What a client wants, as its handshake says.
#[derive(Debug, Clone, Copy, PartialEq, Eq, Structural)]
pub enum NextState {
    Status,
    Login,
    Other,
}

/// How the connection goes on.
#[derive(Debug, PartialEq, Eq)]
pub enum HandshakeStep<S = String> {
    /// Answer status requests for this host
    Status { host: S },
    /// Log the client in for this host
    Login { host: S },
    /// Close the connection
    Close,
}

pub type HandshakeStepModel = HandshakeStep<Seq<char>>;

impl View for HandshakeStep {
    type V = HandshakeStepModel;

    open spec fn view(&self) -> HandshakeStepModel {
        match self {
            HandshakeStep::Status { host } => HandshakeStep::Status { host: host@ },
            HandshakeStep::Login { host } => HandshakeStep::Login { host: host@ },
            HandshakeStep::Close => HandshakeStep::Close,
        }
    }
}

/// The host that a client names is sanitized before anything is done with it.
pub fn on_handshake(server_address: &str, next: NextState) -> (r: HandshakeStep)
    ensures
        r@ == (match next {
            NextState::Status => HandshakeStepModel::Status {
                host: sanitized_host(server_address@),
            },
            NextState::Login => HandshakeStepModel::Login { host: sanitized_host(server_address@) },
            NextState::Other => HandshakeStepModel::Close,
        }),
{
    let host = Sanitizer::sanitize_host(server_address);
    match next {
        NextState::Status => HandshakeStep::Status { host },
        NextState::Login => HandshakeStep::Login { host },
        NextState::Other => HandshakeStep::Close,
    }
}

/// Whether the first packet of a status connection asks for the status.
pub fn asks_for_status(id: i32) -> (r: bool)
    ensures
        r == (id == 0),
{
    id == 0
}

/// A 64-bit number as the unsigned number with the same bits has it.
pub open spec fn signed_64(v: nat) -> i64 {
    if v >= 0x8000_0000_0000_0000 {
        (v - 0x1_0000_0000_0000_0000) as i64
    } else {
        v as i64
    }
}

/// What a ping is answered with: the number that it holds.
pub open spec fn pong_for(id: i32, body: Seq<u8>) -> Option<i64> {
    if id == 1 && body.len() >= 8 {
        Some(signed_64(be_value(body.take(8))))
    } else {
        None
    }
}

pub fn answer_ping(id: i32, body: &[u8]) -> (r: Option<i64>)
    ensures
        r == pong_for(id, body@),
{
    if id == 1 && body.len() >= 8 {
        let v: u64 = be_number(body, 0, 8);
        assert(body@.subrange(0, 8) == body@.take(8));
        if v >= 0x8000_0000_0000_0000 {
            Some(((v as i128) - 0x1_0000_0000_0000_0000i128) as i64)
        } else {
            Some(v as i64)
        }
    } else {
        None
    }
}

// ---------------------------------------------------------------------------
// Login
// ---------------------------------------------------------------------------

/// Where a login stands.
#[derive(Debug, PartialEq, Eq)]
pub enum LoginPhase<S = String, B = Vec<u8>> {
    /// Waiting for the client's name
    Starting,
    /// Waiting for the client's half of the encryption
    Encrypting { username: S, token: B },
    /// Waiting for the session service
    Verifying { username: S, key: B },
    /// Handed over to a backend
    Bridged,
    /// Over
    Ended,
}

pub type LoginPhaseModel = LoginPhase<Seq<char>, Seq<u8>>;

impl View for LoginPhase {
    type V = LoginPhaseModel;

    open spec fn view(&self) -> LoginPhaseModel {
        match self {
            LoginPhase::Starting => LoginPhase::Starting,
            LoginPhase::Encrypting { username, token } => LoginPhase::Encrypting {
                username: username@,
                token: token@,
            },
            LoginPhase::Verifying { username, key } => LoginPhase::Verifying {
                username: username@,
                key: key@,
            },
            LoginPhase::Bridged => LoginPhase::Bridged,
            LoginPhase::Ended => LoginPhase::Ended,
        }
    }
}

/// What a login asks for.
#[derive(Debug, PartialEq, Eq)]
pub enum LoginCommand {
    /// Disconnect the client with this JSON
    Kick(String),
    /// Ask the client to encrypt, with the proxy's key and this token
    RequestEncryption { public_key: Vec<u8>, token: Vec<u8> },
    /// Ask the session service about the player
    Authenticate { username: String, server_hash: String, client_ip: String, with_ip: bool },
    /// Encrypt both directions with this key
    EnableEncryption(Vec<u8>),
    /// Tell the client that packets are compressed from this size on
    SendCompression(i32),
    /// Compress packets from this size on, at this level
    SetCompression { threshold: usize, level: u32 },
    /// Take the player to a backend
    Bridge {
        server: String,
        config: BackendConfig,
        fallback: Option<(String, BackendConfig)>,
        player: AuthenticatedPlayer,
    },
    /// The connection has ended as it should
    Finish,
    /// The connection has ended by an error
    Fail(ClientError),
}

pub enum LoginCommandModel {
    Kick(Seq<char>),
    RequestEncryption { public_key: Seq<u8>, token: Seq<u8> },
    Authenticate {
        username: Seq<char>,
        server_hash: Seq<char>,
        client_ip: Seq<char>,
        with_ip: bool,
    },
    EnableEncryption(Seq<u8>),
    SendCompression(i32),
    SetCompression { threshold: usize, level: u32 },
    Bridge {
        server: Seq<char>,
        config: BackendModel,
        fallback: Option<(Seq<char>, BackendModel)>,
        player: PlayerModel,
    },
    Finish,
    Fail(ClientErrorModel),
}

pub open spec fn named_view(x: Option<(String, BackendConfig)>) -> Option<
    (Seq<char>, BackendModel),
> {
    match x {
        Some((n, c)) => Some((n@, c@)),
        None => None,
    }
}

impl View for LoginCommand {
    type V = LoginCommandModel;

    open spec fn view(&self) -> LoginCommandModel {
        match self {
            LoginCommand::Kick(t) => LoginCommandModel::Kick(t@),
            LoginCommand::RequestEncryption { public_key, token } => {
                LoginCommandModel::RequestEncryption { public_key: public_key@, token: token@ }
            },
            LoginCommand::Authenticate { username, server_hash, client_ip, with_ip } => {
                LoginCommandModel::Authenticate {
                    username: username@,
                    server_hash: server_hash@,
                    client_ip: client_ip@,
                    with_ip: *with_ip,
                }
            },
            LoginCommand::EnableEncryption(k) => LoginCommandModel::EnableEncryption(k@),
            LoginCommand::SendCompression(n) => LoginCommandModel::SendCompression(*n),
            LoginCommand::SetCompression { threshold, level } => {
                LoginCommandModel::SetCompression { threshold: *threshold, level: *level }
            },
            LoginCommand::Bridge { server, config, fallback, player } => {
                LoginCommandModel::Bridge {
                    server: server@,
                    config: config@,
                    fallback: named_view(*fallback),
                    player: player@,
                }
            },
            LoginCommand::Finish => LoginCommandModel::Finish,
            LoginCommand::Fail(e) => LoginCommandModel::Fail(e@),
        }
    }
}

pub type LoginStepModel = (LoginPhaseModel, Seq<LoginCommandModel>);

pub open spec fn login_step_is(r: (LoginPhase, Vec<LoginCommand>), m: LoginStepModel) -> bool {
    r.0@ == m.0 && views(r.1@) == m.1
}

/// The JSON by which a client is told why it is disconnected.
pub open spec fn kick_json(reason: Seq<char>) -> Seq<char> {
    "{\"text\":\"[Vine Proxy] "@ + quotes_escaped(reason) + "\",\"color\":\"red\"}"@
}

pub fn kick_text(reason: &str) -> (r: String)
    ensures
        r@ == kick_json(reason@),
{
    cat3(
        "{\"text\":\"[Vine Proxy] ",
        escape_quotes(reason).as_str(),
        "\",\"color\":\"red\"}",
    )
}

/// What a login goes by.
pub struct LoginModel {
    pub validate_usernames: bool,
    pub online_mode: bool,
    pub prevent_proxy_connections: bool,
    pub compression_threshold: i32,
    pub compression_level: i32,
    pub client_ip: Seq<char>,
    pub private_key: Seq<u8>,
    pub public_key: Seq<u8>,
    /// Where the client's host leads
    pub route: Option<(Seq<char>, BackendModel)>,
    /// The fallback server, where one is configured and to be used
    pub fallback: Option<(Seq<char>, BackendModel)>,
}

pub const BAD_USERNAME: &'static str = "Invalid username characters or length (must be 2-16 alphanumeric or _)";

pub const BAD_TOKEN: &'static str = "Failed to verify encryption token";

pub const BAD_KEY: &'static str = "Invalid encryption key length";

pub const NOT_VERIFIED: &'static str = "Failed to verify username with Mojang session servers! Please try again later.";

pub const NO_BACKEND: &'static str = "No default or matching backend Minecraft server is configured on the proxy.";

/// The player is who they say: compression, then the way to a backend.
pub open spec fn accepted(m: LoginModel, player: PlayerModel) -> LoginStepModel {
    let compression = if m.compression_threshold > 0 {
        seq![
            LoginCommandModel::SendCompression(m.compression_threshold),
            LoginCommandModel::SetCompression {
                threshold: m.compression_threshold as usize,
                level: unsigned(m.compression_level) as u32,
            },
        ]
    } else {
        Seq::empty()
    };
    match m.route {
        None => (
            LoginPhase::Ended,
            compression + seq![
                LoginCommandModel::Kick(kick_json(NO_BACKEND@)),
                LoginCommandModel::Finish,
            ],
        ),
        Some((server, config)) => (
            LoginPhase::Bridged,
            compression + seq![
                LoginCommandModel::Bridge { server, config, fallback: m.fallback, player },
            ],
        ),
    }
}

/// A client has given its name. `token` is what it will have to send back encrypted, if it has
/// to encrypt.
pub open spec fn started(m: LoginModel, username: Seq<char>, token: Seq<u8>) -> LoginStepModel {
    if m.validate_usernames && !valid_username(username) {
        (
            LoginPhase::Ended,
            seq![
                LoginCommandModel::Kick(kick_json(BAD_USERNAME@)),
                LoginCommandModel::Finish,
            ],
        )
    } else if m.online_mode {
        (
            LoginPhase::Encrypting { username, token },
            seq![LoginCommandModel::RequestEncryption { public_key: m.public_key, token }],
        )
    } else {
        accepted(
            m,
            AuthenticatedPlayer {
                id: crate::auth::offline_id(username),
                username,
                properties: Seq::empty(),
            },
        )
    }
}

pub open spec fn refused(kick: Option<Seq<char>>, why: Seq<char>) -> LoginStepModel {
    let kicks = match kick {
        Some(t) => seq![LoginCommandModel::Kick(kick_json(t))],
        None => Seq::empty(),
    };
    (LoginPhase::Ended, kicks.push(LoginCommandModel::Fail(ClientError::AuthError(why))))
}

/// The client's half of the encryption has been decrypted: the token must be the one that was
/// sent, the key must have sixteen bytes; then the session service is asked.
pub open spec fn decrypted(
    m: LoginModel,
    username: Seq<char>,
    token: Seq<u8>,
    got_token: Result<Seq<u8>, Seq<char>>,
    got_key: Result<Seq<u8>, Seq<char>>,
) -> LoginStepModel {
    match got_token {
        Err(t) => refused(None, auth_error_words(AuthError::DecryptError(t))),
        Ok(v) => if v != token {
            refused(Some(BAD_TOKEN@), "Token mismatch"@)
        } else {
            match got_key {
                Err(t) => refused(None, auth_error_words(AuthError::DecryptError(t))),
                Ok(key) => if key.len() != 16 {
                    refused(Some(BAD_KEY@), "Invalid key length"@)
                } else {
                    (
                        LoginPhase::Verifying { username, key },
                        seq![
                            LoginCommandModel::Authenticate {
                                username,
                                server_hash: server_hash(""@, key, m.public_key),
                                client_ip: m.client_ip,
                                with_ip: m.prevent_proxy_connections,
                            },
                        ],
                    )
                },
            }
        },
    }
}

/// The session service has answered.
pub open spec fn verified(
    m: LoginModel,
    key: Seq<u8>,
    answer: Result<PlayerModel, AuthErrorModel>,
) -> LoginStepModel {
    match answer {
        Err(e) => refused(Some(NOT_VERIFIED@), auth_error_words(e)),
        Ok(player) => {
            let (phase, commands) = accepted(m, player);
            (phase, seq![LoginCommandModel::EnableEncryption(key)] + commands)
        },
    }
}

/// `rand::random` of four bytes. Which bytes they are rests on chance; there are four of them.
#[verifier::external_body]
fn random_token() -> (r: Vec<u8>)
    ensures
        r@.len() == 4,
{
    let token: [u8; 4] = rand::random();
    token.to_vec()
}

fn same_bytes(a: &Vec<u8>, b: &Vec<u8>) -> (r: bool)
    ensures
        r == (a@ == b@),
{
    if a.len() != b.len() {
        return false;
    }
    let mut i: usize = 0;
    while i < a.len()
        invariant
            i <= a@.len(),
            a@.len() == b@.len(),
            forall|j: int| 0 <= j < i ==> a@[j] == b@[j],
        decreases a.len() - i,
    {
        if a[i] != b[i] {
            return false;
        }
        i = i + 1;
    }
    assert(a@ == b@);
    true
}

/// A client's connection.
pub struct ClientHandler<'a> {
    /// The client's address as text
    pub client_ip: String,
    pub config: &'a Config,
    pub keystore: &'a KeyStore,
    pub router: &'a Router,
}

impl<'a> ClientHandler<'a> {
    pub fn new(
        client_ip: String,
        config: &'a Config,
        keystore: &'a KeyStore,
        router: &'a Router,
    ) -> (r: Self)
        ensures
            r.client_ip == client_ip,
            r.config == config,
            r.keystore == keystore,
            r.router == router,
    {
        ClientHandler { client_ip, config, keystore, router }
    }

    /// What a login for a virtual host goes by.
    pub open spec fn login(&self, virtual_host: Seq<char>) -> LoginModel {
        LoginModel {
            validate_usernames: self.config.security.validate_usernames,
            online_mode: self.config.server.online_mode,
            prevent_proxy_connections: self.config.server.prevent_proxy_connections,
            compression_threshold: self.config.server.compression_threshold,
            compression_level: self.config.server.compression_level,
            client_ip: self.client_ip@,
            private_key: self.keystore.private(),
            public_key: self.keystore.public(),
            route: self.router.routed(virtual_host),
            fallback: if self.config.routing.try_fallback_on_connect_failure {
                match opt_text(self.config.routing.fallback_server) {
                    Some(name) => named(self.config.servers@, name),
                    None => None,
                }
            } else {
                None
            },
        }
    }

    fn fallback(&self, Ghost(host): Ghost<Seq<char>>) -> (r: Option<(String, BackendConfig)>)
        ensures
            named_view(r) == self.login(host).fallback,
    {
        if !self.config.routing.try_fallback_on_connect_failure {
            return None;
        }
        match &self.config.routing.fallback_server {
            Some(name) => match self.config.servers.get(name.as_str()) {
                Some(cfg) => Some((name.clone(), cfg.clone())),
                None => None,
            },
            None => None,
        }
    }

    /// Appends what follows once the player is accepted.
    fn accept(&self, out: &mut Vec<LoginCommand>, virtual_host: &str, player: AuthenticatedPlayer) -> (r:
        LoginPhase)
        ensures
            r@ == accepted(self.login(virtual_host@), player@).0,
            views(final(out)@) == views(old(out)@) + accepted(
                self.login(virtual_host@),
                player@,
            ).1,
    {
        let ghost before = views(out@);
        let ghost m = self.login(virtual_host@);
        let threshold: i32 = self.config.server.compression_threshold;
        if threshold > 0 {
            out.push(LoginCommand::SendCompression(threshold));
            out.push(
                LoginCommand::SetCompression {
                    threshold: threshold as usize,
                    level: to_unsigned(self.config.server.compression_level),
                },
            );
        }
        match self.router.resolve_server(virtual_host) {
            None => {
                out.push(LoginCommand::Kick(kick_text(NO_BACKEND)));
                out.push(LoginCommand::Finish);
                assert(views(out@) =~= before + accepted(m, player@).1);
                LoginPhase::Ended
            },
            Some((server, config)) => {
                let fallback = self.fallback(Ghost(virtual_host@));
                out.push(LoginCommand::Bridge { server, config, fallback, player });
                assert(views(out@) =~= before + accepted(m, player@).1);
                LoginPhase::Bridged
            },
        }
    }

    /// The client has given its name; `token` is the token to use if it has to encrypt.
    pub fn on_start_with(&self, virtual_host: &str, username: &str, token: Vec<u8>) -> (r: (
        LoginPhase,
        Vec<LoginCommand>,
    ))
        ensures
            login_step_is(r, started(self.login(virtual_host@), username@, token@)),
    {
        let ghost m = self.login(virtual_host@);
        let mut v: Vec<LoginCommand> = Vec::new();
        assert(views(v@) == Seq::<LoginCommandModel>::empty());
        if self.config.security.validate_usernames && !Sanitizer::is_valid_username(username) {
            v.push(LoginCommand::Kick(kick_text(BAD_USERNAME)));
            v.push(LoginCommand::Finish);
            assert(views(v@) == started(m, username@, token@).1);
            return (LoginPhase::Ended, v);
        }
        if self.config.server.online_mode {
            let public_key = crate::codec::slice_of(
                self.keystore.public_key_der(),
                0,
                self.keystore.public_key_der().len(),
            );
            assert(public_key@ == m.public_key);
            v.push(LoginCommand::RequestEncryption { public_key, token: copy_bytes(&token) });
            assert(views(v@) == started(m, username@, token@).1);
            (LoginPhase::Encrypting { username: owned(username), token }, v)
        } else {
            let phase = self.accept(&mut v, virtual_host, AuthenticatedPlayer::offline(username));
            assert(views(v@) == started(m, username@, token@).1);
            (phase, v)
        }
    }

    /// The client has given its name.
    pub fn on_start(&self, virtual_host: &str, username: &str) -> (r: (
        LoginPhase,
        Vec<LoginCommand>,
    ))
        ensures
            exists|token: Seq<u8>|
                token.len() == 4 && login_step_is(
                    r,
                    #[trigger] started(self.login(virtual_host@), username@, token),
                ),
    {
        let token = random_token();
        let ghost t = token@;
        let r = self.on_start_with(virtual_host, username, token);
        assert(login_step_is(r, started(self.login(virtual_host@), username@, t)));
        r
    }

    /// The client's half of the encryption has been decrypted, or could not be.
    pub fn on_decrypted(
        &self,
        username: &str,
        token: &Vec<u8>,
        got_token: Result<Vec<u8>, String>,
        got_key: Result<Vec<u8>, String>,
    ) -> (r: (LoginPhase, Vec<LoginCommand>))
        ensures
            forall|host: Seq<char>|
                login_step_is(
                    r,
                    #[trigger] decrypted(
                        self.login(host),
                        username@,
                        token@,
                        text_result(got_token),
                        text_result(got_key),
                    ),
                ),
    {
        let v = match got_token {
            Err(t) => return refuse(None, AuthError::DecryptError(t).message()),
            Ok(v) => v,
        };
        if !same_bytes(&v, token) {
            return refuse(Some(BAD_TOKEN), owned("Token mismatch"));
        }
        let key = match got_key {
            Err(t) => return refuse(None, AuthError::DecryptError(t).message()),
            Ok(key) => key,
        };
        if key.len() != 16 {
            return refuse(Some(BAD_KEY), owned("Invalid key length"));
        }
        let hash = self.keystore.auth_digest("", key.as_slice());
        let commands = vec![
            LoginCommand::Authenticate {
                username: owned(username),
                server_hash: hash,
                client_ip: self.client_ip.clone(),
                with_ip: self.config.server.prevent_proxy_connections,
            },
        ];
        proof {
            assert forall|host: Seq<char>|
                views(commands@) == (#[trigger] decrypted(
                    self.login(host),
                    username@,
                    token@,
                    text_result(got_token),
                    text_result(got_key),
                )).1 by {
                assert(views(commands@) =~= decrypted(
                    self.login(host),
                    username@,
                    token@,
                    text_result(got_token),
                    text_result(got_key),
                ).1);
            }
        }
        (LoginPhase::Verifying { username: owned(username), key }, commands)
    }

    /// The client has sent its half of the encryption.
    pub fn on_encryption(
        &self,
        username: &str,
        token: &Vec<u8>,
        verify_token: &[u8],
        shared_secret: &[u8],
    ) -> (r: (LoginPhase, Vec<LoginCommand>))
        ensures
            forall|host: Seq<char>|
                login_step_is(
                    r,
                    #[trigger] decrypted(
                        self.login(host),
                        username@,
                        token@,
                        rsa_decrypted(self.keystore.private(), verify_token@),
                        rsa_decrypted(self.keystore.private(), shared_secret@),
                    ),
                ),
            ({
                let got_token = rsa_decrypted(self.keystore.private(), verify_token@);
                let got_key = rsa_decrypted(self.keystore.private(), shared_secret@);
                &&& r.0@ is Verifying <==> got_token == Ok::<Seq<u8>, Seq<char>>(token@) && got_key
                    is Ok && got_key->Ok_0.len() == 16
                &&& r.0@ matches LoginPhase::Verifying { username: u, key } ==> u == username@
                    && Ok::<Seq<u8>, Seq<char>>(key) == got_key
                &&& r.0@ !is Verifying ==> r.0@ is Ended
            }),
    {
        let got_token = decrypt_text(self.keystore, verify_token);
        let got_key = decrypt_text(self.keystore, shared_secret);
        let r = self.on_decrypted(username, token, got_token, got_key);
        proof {
            let none = Seq::<char>::empty();
            let step = decrypted(
                self.login(none),
                username@,
                token@,
                text_result(got_token),
                text_result(got_key),
            );
            assert(login_step_is(r, step));
        }
        r
    }

    /// The session service has answered, or could not be asked.
    pub fn on_verified(
        &self,
        virtual_host: &str,
        key: Vec<u8>,
        answer: Result<AuthenticatedPlayer, AuthError>,
    ) -> (r: (LoginPhase, Vec<LoginCommand>))
        ensures
            login_step_is(
                r,
                verified(
                    self.login(virtual_host@),
                    key@,
                    match answer {
                        Ok(p) => Ok(p@),
                        Err(e) => Err(e@),
                    },
                ),
            ),
    {
        match answer {
            Err(e) => refuse(Some(NOT_VERIFIED), e.message()),
            Ok(player) => {
                let ghost m = self.login(virtual_host@);
                let mut v: Vec<LoginCommand> = Vec::new();
                v.push(LoginCommand::EnableEncryption(key));
                assert(views(v@) == seq![LoginCommandModel::EnableEncryption(key@)]);
                let phase = self.accept(&mut v, virtual_host, player);
                (phase, v)
            },
        }
    }
}

pub open spec fn text_result(r: Result<Vec<u8>, String>) -> Result<Seq<u8>, Seq<char>> {
    match r {
        Ok(v) => Ok(v@),
        Err(t) => Err(t@),
    }
}

fn decrypt_text(keystore: &KeyStore, data: &[u8]) -> (r: Result<Vec<u8>, String>)
    ensures
        text_result(r) == rsa_decrypted(keystore.private(), data@),
{
    match keystore.decrypt(data) {
        Ok(v) => Ok(v),
        Err(AuthError::DecryptError(t)) => Err(t),
        Err(e) => Err(e.message()),
    }
}

fn refuse(kick: Option<&str>, why: String) -> (r: (LoginPhase, Vec<LoginCommand>))
    ensures
        login_step_is(
            r,
            refused(
                match kick {
                    Some(t) => Some(t@),
                    None => None,
                },
                why@,
            ),
        ),
{
    let mut v: Vec<LoginCommand> = Vec::new();
    match kick {
        Some(t) => v.push(LoginCommand::Kick(kick_text(t))),
        None => {},
    }
    let ghost kicks = views(v@);
    v.push(LoginCommand::Fail(ClientError::AuthError(why)));
    proof {
        match kick {
            Some(t) => {
                assert(kicks == seq![LoginCommandModel::Kick(kick_json(t@))]);
            },
            None => {
                assert(kicks == Seq::<LoginCommandModel>::empty());
            },
        }
        assert(views(v@) == kicks.push(LoginCommandModel::Fail(ClientError::AuthError(why@))));
    }
    (LoginPhase::Ended, v)
}

// ---------------------------------------------------------------------------
// Laws of the login
// ---------------------------------------------------------------------------

/// In online mode a player reaches a backend only after the session service has vouched for
/// them: neither the name alone nor the encryption alone leads there.
pub proof fn law_online_mode_needs_verification(
    m: LoginModel,
    username: Seq<char>,
    token: Seq<u8>,
    got_token: Result<Seq<u8>, Seq<char>>,
    got_key: Result<Seq<u8>, Seq<char>>,
    key: Seq<u8>,
    e: AuthErrorModel,
)
    requires
        m.online_mode,
    ensures
        started(m, username, token).0 !is Bridged,
        decrypted(m, username, token, got_token, got_key).0 !is Bridged,
        verified(m, key, Err(e)).0 is Ended,
{
}

/// The session service is asked only about a client that has sent back the right token and a key
/// of sixteen bytes, and it is asked with the hash of that key.
pub proof fn law_only_right_token_is_verified(
    m: LoginModel,
    username: Seq<char>,
    token: Seq<u8>,
    got_token: Result<Seq<u8>, Seq<char>>,
    got_key: Result<Seq<u8>, Seq<char>>,
)
    ensures
        decrypted(m, username, token, got_token, got_key).0 is Verifying <==> got_token == Ok::<
            Seq<u8>,
            Seq<char>,
        >(token) && got_key is Ok && got_key->Ok_0.len() == 16,
{
}

/// Where usernames are validated, no invalid one gets any further.
pub proof fn law_invalid_username_is_refused(m: LoginModel, username: Seq<char>, token: Seq<u8>)
    requires
        m.validate_usernames,
        !valid_username(username),
    ensures
        started(m, username, token) == (
            LoginPhaseModel::Ended,
            seq![
                LoginCommandModel::Kick(kick_json(BAD_USERNAME@)),
                LoginCommandModel::Finish,
            ],
        ),
{
}

/// A verified player's connection is encrypted before anything else is sent.
pub proof fn law_encryption_comes_first(m: LoginModel, key: Seq<u8>, player: PlayerModel)
    ensures
        verified(m, key, Ok(player)).1[0] == LoginCommandModel::EnableEncryption(key),
{
}

/// A login goes by the configuration, by the proxy's own key pair and by the client's address;
/// the host leads where the router says.
pub proof fn law_login_follows_the_configuration(h: ClientHandler, host: Seq<char>)
    ensures
        ({
            let m = h.login(host);
            &&& m.validate_usernames == h.config.security.validate_usernames
            &&& m.online_mode == h.config.server.online_mode
            &&& m.prevent_proxy_connections == h.config.server.prevent_proxy_connections
            &&& m.compression_threshold == h.config.server.compression_threshold
            &&& m.compression_level == h.config.server.compression_level
            &&& m.client_ip == h.client_ip@
            &&& m.private_key == h.keystore.private()
            &&& m.public_key == h.keystore.public()
            &&& m.route == h.router.routed(host)
        }),
{
}

/// The fallback of a login is the configured one, under its own name and with its own
/// configuration, and there is none unless it is switched on, named and configured.
pub proof fn law_login_falls_back_as_configured(h: ClientHandler, host: Seq<char>)
    ensures
        ({
            let m = h.login(host);
            &&& m.fallback matches Some((name, config)) ==> {
                &&& h.config.routing.try_fallback_on_connect_failure
                &&& h.config.routing.fallback_server matches Some(f) && f@ == name
                &&& h.config.servers@.contains((name, config))
            }
            &&& m.fallback is None ==> {
                ||| !h.config.routing.try_fallback_on_connect_failure
                ||| h.config.routing.fallback_server is None
                ||| !crate::table::keys_of(h.config.servers@).contains(
                    h.config.routing.fallback_server->Some_0@,
                )
            }
        }),
{
    if let Some(f) = h.config.routing.fallback_server {
        crate::table::lemma_lookup_some(h.config.servers@, f@);
    }
}

/// What an accepted player gets: compression where it is switched on, announced before it is
/// used, with the configured threshold and level; then the way to the backend that the host leads
/// to, as this very player, with the configured fallback. Where the host leads nowhere, the client
/// is told so, and the connection ends.
pub open spec fn led_on(
    m: LoginModel,
    player: PlayerModel,
    phase: LoginPhaseModel,
    c: Seq<LoginCommandModel>,
) -> bool {
    let k: int = if m.compression_threshold > 0 {
        2
    } else {
        0
    };
    &&& k == 2 ==> {
        &&& c.len() >= 2
        &&& c[0] matches LoginCommandModel::SendCompression(n) && n == m.compression_threshold
        &&& c[1] matches LoginCommandModel::SetCompression { threshold, level }
        &&& threshold == m.compression_threshold
        &&& m.compression_level >= 0 ==> level == m.compression_level
    }
    &&& m.route is Some ==> {
        &&& phase is Bridged
        &&& c.len() == k + 1
        &&& c[k] matches LoginCommandModel::Bridge { server, config, fallback, player: p }
        &&& server == m.route->Some_0.0
        &&& config == m.route->Some_0.1
        &&& fallback == m.fallback
        &&& p.id == player.id
        &&& p.username == player.username
        &&& p.properties == player.properties
    }
    &&& m.route is None ==> {
        &&& phase is Ended
        &&& c.len() == k + 2
        &&& c[k] is Kick
        &&& c[k + 1] is Finish
    }
}

/// A player whom the session service vouches for is led on as the player that it gave: the same
/// identifier, name and properties. The connection is encrypted with the agreed key first.
pub proof fn law_verified_player_is_led_on(m: LoginModel, key: Seq<u8>, player: PlayerModel)
    ensures
        ({
            let (phase, c) = verified(m, key, Ok(player));
            &&& c.len() > 0
            &&& c[0] matches LoginCommandModel::EnableEncryption(k) && k == key
            &&& led_on(m, player, phase, c.skip(1))
        }),
{
    let (phase, c) = verified(m, key, Ok(player));
    assert(c.skip(1) == accepted(m, player).1);
}

/// In offline mode a player is led on at once, under the name that they gave, with the identifier
/// that goes with that name and without properties. Nothing is encrypted.
pub proof fn law_offline_player_is_led_on(m: LoginModel, username: Seq<char>, token: Seq<u8>)
    requires
        !m.online_mode,
        !m.validate_usernames || valid_username(username),
    ensures
        ({
            let (phase, c) = started(m, username, token);
            &&& led_on(
                m,
                (PlayerModel {
                    id: crate::crypto::uuid_v3_of(
                        0,
                        vstd::utf8::encode_utf8("OfflinePlayer:"@ + username),
                    ),
                    username,
                    properties: Seq::empty(),
                }),
                phase,
                c,
            )
            &&& forall|i: int| 0 <= i < c.len() ==> !((#[trigger] c[i]) is EnableEncryption)
        }),
{
}

/// In online mode a client that may log in is asked to encrypt, with the proxy's own public key
/// and the token that it is expected to send back.
pub proof fn law_online_client_is_asked_to_encrypt(
    m: LoginModel,
    username: Seq<char>,
    token: Seq<u8>,
)
    requires
        m.online_mode,
        !m.validate_usernames || valid_username(username),
    ensures
        ({
            let (phase, c) = started(m, username, token);
            &&& phase matches LoginPhase::Encrypting { username: u, token: t } && u == username && t
                == token
            &&& c.len() == 1
            &&& c[0] matches LoginCommandModel::RequestEncryption { public_key, token: t }
            &&& public_key == m.public_key && t == token
        }),
{
}

/// A client that has sent back the token gets its key into use, and the session service is asked
/// about the name that it gave, with the hash of that key and the proxy's public key, and with the
/// client's address exactly where connections through other proxies are to be prevented.
pub proof fn law_session_service_is_asked_about_the_client(
    m: LoginModel,
    username: Seq<char>,
    token: Seq<u8>,
    key: Seq<u8>,
)
    requires
        key.len() == 16,
    ensures
        ({
            let (phase, c) = decrypted(m, username, token, Ok(token), Ok(key));
            &&& phase matches LoginPhase::Verifying { username: u, key: k } && u == username && k
                == key
            &&& c.len() == 1
            &&& c[0] matches LoginCommandModel::Authenticate {
                username: u,
                server_hash: hash,
                client_ip,
                with_ip,
            }
            &&& u == username
            &&& hash == crate::crypto::signed_hex_text(
                crate::crypto::twos_complement(crate::crypto::sha1_of(key + m.public_key)),
            )
            &&& client_ip == m.client_ip
            &&& with_ip == m.prevent_proxy_connections
        }),
{
    reveal_strlit("");
    assert(""@ == Seq::<char>::empty());
    assert(vstd::utf8::encode_utf8(Seq::<char>::empty()) == Seq::<u8>::empty());
    assert(vstd::utf8::encode_utf8(""@) + key + m.public_key == key + m.public_key);
}

/// A login is refused, the connection with it: the client is told, where that is still possible,
/// and whoever runs the login learns why.
pub open spec fn turned_away(phase: LoginPhaseModel, c: Seq<LoginCommandModel>, told: bool) -> bool {
    &&& phase is Ended
    &&& c.len() == (if told {
        2int
    } else {
        1
    })
    &&& told ==> c[0] is Kick
    &&& c[c.len() - 1] matches LoginCommandModel::Fail(ClientError::AuthError(_))
}

/// Who sends back no token, the wrong one, or a key of the wrong length is turned away, and so is
/// a player whom the session service does not vouch for.
pub proof fn law_unproven_clients_are_turned_away(
    m: LoginModel,
    username: Seq<char>,
    token: Seq<u8>,
    got_token: Result<Seq<u8>, Seq<char>>,
    got_key: Result<Seq<u8>, Seq<char>>,
    key: Seq<u8>,
    e: AuthErrorModel,
)
    ensures
        ({
            let (phase, c) = decrypted(m, username, token, got_token, got_key);
            &&& got_token is Err ==> turned_away(phase, c, false)
            &&& (got_token is Ok && got_token->Ok_0 != token) ==> turned_away(phase, c, true)
            &&& (got_token == Ok::<Seq<u8>, Seq<char>>(token) && got_key is Err) ==> turned_away(
                phase,
                c,
                false,
            )
            &&& (got_token == Ok::<Seq<u8>, Seq<char>>(token) && got_key is Ok
                && got_key->Ok_0.len() != 16) ==> turned_away(phase, c, true)
        }),
        ({
            let (phase, c) = verified(m, key, Err(e));
            &&& turned_away(phase, c, true)
            &&& c[1] matches LoginCommandModel::Fail(ClientError::AuthError(why)) && why
                == auth_error_words(e)
        }),
{
}

/// The handshake leads to where it says, for the host that it names, cleaned of what must not
/// stand in one.
pub proof fn law_handshake_leads_where_it_says(address: &str, next: NextState, r: HandshakeStep)
    requires
        call_ensures(on_handshake, (address, next), r),
    ensures
        next is Other <==> r is Close,
        next is Status <==> r is Status,
        next is Login <==> r is Login,
        r matches HandshakeStep::Status { host } ==> host@ == sanitized_host(address@),
        r matches HandshakeStep::Login { host } ==> host@ == sanitized_host(address@),
{
    assert(r@ is Close <==> r is Close);
}

/// A ping is answered exactly where it is one, with the number in its eight bytes.
pub proof fn law_ping_gives_its_number(id: i32, body: Seq<u8>)
    ensures
        pong_for(id, body) is Some <==> id == 1 && body.len() >= 8,
        pong_for(id, body) matches Some(n) ==> be_value(body.take(8)) == (if n < 0 {
            n + 0x1_0000_0000_0000_0000
        } else {
            n as int
        }),
{
    if body.len() >= 8 {
        let b = body.take(8);
        assert(be_value(b) < 0x1_0000_0000_0000_0000) by {
            reveal_with_fuel(be_value, 9);
        }
    }
}

/// A client is told the reason as it is, where no quotation mark stands in it.
pub proof fn law_kick_tells_the_reason(reason: Seq<char>)
    requires
        !reason.contains('"'),
    ensures
        crate::text::holds_part(kick_json(reason), reason),
{
    crate::backend::tunnel::lemma_plain_is_kept(reason);
    crate::text::lemma_holds_part("{\"text\":\"[Vine Proxy] "@, reason, "\",\"color\":\"red\"}"@);
}

/// The handler leads a verified player on as the player that it was given, by its own
/// configuration, after it has encrypted the connection with the agreed key.
pub proof fn law_handler_leads_verified_players_on(
    h: ClientHandler,
    host: &str,
    key: Vec<u8>,
    p: AuthenticatedPlayer,
    r: (LoginPhase, Vec<LoginCommand>),
)
    requires
        call_ensures(
            ClientHandler::on_verified,
            (&h, host, key, Ok::<AuthenticatedPlayer, AuthError>(p)),
            r,
        ),
    ensures
        r.1@.len() > 0,
        r.1@[0]@ == LoginCommandModel::EnableEncryption(key@),
        led_on(h.login(host@), p@, r.0@, views(r.1@).skip(1)),
{
    law_verified_player_is_led_on(h.login(host@), key@, p@);
    assert(views(r.1@).len() == r.1@.len());
    assert(views(r.1@)[0] == r.1@[0]@);
}

/// The handler turns a player away whom the session service does not vouch for.
pub proof fn law_handler_turns_others_away(
    h: ClientHandler,
    host: &str,
    key: Vec<u8>,
    e: AuthError,
    r: (LoginPhase, Vec<LoginCommand>),
)
    requires
        call_ensures(
            ClientHandler::on_verified,
            (&h, host, key, Err::<AuthenticatedPlayer, AuthError>(e)),
            r,
        ),
    ensures
        turned_away(r.0@, views(r.1@), true),
{
    law_unproven_clients_are_turned_away(
        h.login(host@),
        Seq::empty(),
        Seq::empty(),
        Ok(Seq::empty()),
        Ok(Seq::empty()),
        key@,
        e@,
    );
}

/// The handler starts a login by its own configuration: in online mode the client is asked to
/// encrypt with the proxy's key and the token, otherwise it is led on under the name that it gave.
pub proof fn law_handler_starts_logins(
    h: ClientHandler,
    host: &str,
    username: &str,
    token: Vec<u8>,
    r: (LoginPhase, Vec<LoginCommand>),
)
    requires
        call_ensures(ClientHandler::on_start_with, (&h, host, username, token), r),
        !h.config.security.validate_usernames || valid_username(username@),
    ensures
        h.config.server.online_mode ==> r.0@ == (LoginPhaseModel::Encrypting {
            username: username@,
            token: token@,
        }) && views(r.1@) == seq![
            LoginCommandModel::RequestEncryption {
                public_key: h.keystore.public(),
                token: token@,
            },
        ],
        !h.config.server.online_mode ==> led_on(
            h.login(host@),
            (PlayerModel {
                id: crate::crypto::uuid_v3_of(
                    0,
                    vstd::utf8::encode_utf8("OfflinePlayer:"@ + username@),
                ),
                username: username@,
                properties: Seq::empty(),
            }),
            r.0@,
            views(r.1@),
        ),
{
    if !h.config.server.online_mode {
        law_offline_player_is_led_on(h.login(host@), username@, token@);
    }
}

/// A ping is answered with the number that it holds, and a kick tells its reason.
pub proof fn law_pings_and_kicks(id: i32, body: &[u8], n: Option<i64>, reason: &str, t: String)
    requires
        call_ensures(answer_ping, (id, body), n),
        call_ensures(kick_text, (reason,), t),
    ensures
        n == pong_for(id, body@),
        t@ == kick_json(reason@),
{
}

/// Whoever is refused is told why: a bad name, a wrong token, a key of the wrong length, a player
/// whom nobody vouches for, a host that leads nowhere.
pub proof fn law_refusals_tell_their_reason(
    m: LoginModel,
    username: Seq<char>,
    token: Seq<u8>,
    other: Seq<u8>,
    key: Seq<u8>,
    e: AuthErrorModel,
    player: PlayerModel,
)
    requires
        other != token,
        key.len() != 16,
    ensures
        m.validate_usernames && !valid_username(username) ==> started(m, username, token).1[0]
            == LoginCommandModel::Kick(
            kick_json(
                "Invalid username characters or length (must be 2-16 alphanumeric or _)"@,
            ),
        ),
        decrypted(m, username, token, Ok(other), Ok(key)).1[0] == LoginCommandModel::Kick(
            kick_json("Failed to verify encryption token"@),
        ),
        decrypted(m, username, token, Ok(token), Ok(key)).1[0] == LoginCommandModel::Kick(
            kick_json("Invalid encryption key length"@),
        ),
        verified(m, key, Err(e)).1[0] == LoginCommandModel::Kick(
            kick_json(
                "Failed to verify username with Mojang session servers! Please try again later."@,
            ),
        ),
        m.route is None && m.compression_threshold <= 0 ==> verified(m, key, Ok(player)).1[1]
            == LoginCommandModel::Kick(
            kick_json(
                "No default or matching backend Minecraft server is configured on the proxy."@,
            ),
        ),
{
}

/// An error in words tells the reason that there is.
pub proof fn law_client_error_tells_its_reason(e: ClientErrorModel)
    ensures
        e matches ClientError::IoError(t) ==> crate::text::holds_part(client_error_words(e), t),
        e matches ClientError::DecodeError(t) ==> crate::text::holds_part(client_error_words(e), t),
        e matches ClientError::EncodeError(t) ==> crate::text::holds_part(client_error_words(e), t),
        e matches ClientError::AuthError(t) ==> crate::text::holds_part(client_error_words(e), t),
        e matches ClientError::BridgeError(b) ==> crate::text::holds_part(
            client_error_words(e),
            bridge_error_words(b),
        ),
{
    let none = Seq::<char>::empty();
    match e {
        ClientError::IoError(t) => {
            crate::text::lemma_holds_part("Client IO error: "@, t, none);
        },
        ClientError::DecodeError(t) => {
            crate::text::lemma_holds_part("Protocol decode error: "@, t, none);
        },
        ClientError::EncodeError(t) => {
            crate::text::lemma_holds_part("Protocol encode error: "@, t, none);
        },
        ClientError::AuthError(t) => {
            crate::text::lemma_holds_part("Authentication failed: "@, t, none);
        },
        ClientError::BridgeError(b) => {
            crate::text::lemma_holds_part("Bridge error: "@, bridge_error_words(b), none);
        },
        ClientError::Timeout => {},
    }
}

} // verus!
