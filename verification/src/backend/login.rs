//! Logging a player in at a backend: connection attempts and the packets of the login phase.
use vstd::prelude::*;
use vstd::string::*;
use vstd::utf8::*;

use crate::auth::{AuthenticatedPlayer, PlayerModel};
use crate::backend::error::{BridgeError, BridgeErrorModel};
use crate::backend::forwarding::{
    bungeecord_host, forwarding_error_words, system_now, unix_seconds, velocity_payload,
    vine_payload, ForwardingHelper, VELOCITY_PLAYER_INFO_CHANNEL, VINE_PLAYER_INFO_CHANNEL,
};
use crate::codec::{
    frame, framed, get_text, get_varint, law_text_round_trip, law_varint_round_trip, read_text,
    read_varint, slice_of, text, to_unsigned, unsigned, varint,
};
use crate::config::ForwardingMode;
use crate::text::{opt_text, owned, text_eq};
use crate::version::ClientVersion;

verus! {

broadcast use vstd::seq::group_seq_axioms;

// ---------------------------------------------------------------------------
// Connecting
// ---------------------------------------------------------------------------

/// Pause between two attempts to connect, in milliseconds.
pub const CONNECT_RETRY_PAUSE_MILLIS: u64 = 150;

/// How often a connection is tried: as often as configured, and at least once.
pub open spec fn attempts_allowed(retries: u32) -> u32 {
    if retries < 1 {
        1
    } else {
        retries
    }
}

/// The attempt that follows failed attempt number `attempt` after a pause, if there is one.
pub fn next_attempt(attempt: u32, retries: u32) -> (r: Option<u32>)
    ensures
        r == (if attempt < attempts_allowed(retries) {
            Some((attempt + 1) as u32)
        } else {
            None
        }),
{
    let allowed: u32 = if retries < 1 {
        1
    } else {
        retries
    };
    if attempt < allowed {
        Some(attempt + 1)
    } else {
        None
    }
}

/// The error after the last attempt.
pub fn connect_failed(server_name: &str, last_error: Option<String>) -> (r: BridgeError)
    ensures
        r@ == BridgeErrorModel::ConnectFailed(
            server_name@,
            match last_error {
                Some(e) => e@,
                None => "Failed to connect"@,
            },
        ),
{
    match last_error {
        Some(e) => BridgeError::ConnectFailed(owned(server_name), e),
        None => BridgeError::ConnectFailed(owned(server_name), owned("Failed to connect")),
    }
}

/// The number of attempts made from attempt `attempt` on, if each of them fails.
pub open spec fn attempts_from(attempt: nat, retries: u32) -> nat
    decreases attempts_allowed(retries) - attempt,
{
    if attempt < attempts_allowed(retries) {
        1 + attempts_from(attempt + 1, retries)
    } else {
        1
    }
}

/// A server that never answers is tried exactly as often as allowed.
pub proof fn law_attempts_made(retries: u32)
    ensures
        attempts_from(1, retries) == attempts_allowed(retries),
{
    lemma_attempts(1, retries);
}

proof fn lemma_attempts(attempt: nat, retries: u32)
    requires
        1 <= attempt <= attempts_allowed(retries),
    ensures
        attempts_from(attempt, retries) == attempts_allowed(retries) - attempt + 1,
    decreases attempts_allowed(retries) - attempt,
{
    if attempt < attempts_allowed(retries) {
        lemma_attempts(attempt + 1, retries);
    }
}

// ---------------------------------------------------------------------------
// The opening packets
// ---------------------------------------------------------------------------

/// The port that a handshake names.
pub const HANDSHAKE_PORT: u16 = 25565;

/// The two packets that open a login.
#[derive(Debug, PartialEq, Eq)]
pub struct LoginOpening<S = String> {
    /// Protocol number of the handshake
    pub protocol: i32,
    /// Server address of the handshake
    pub address: S,
    /// Port of the handshake
    pub port: u16,
    /// Player name of the login start
    pub name: S,
    /// Player identifier of the login start
    pub id: u128,
}

pub type LoginOpeningModel = LoginOpening<Seq<char>>;

impl View for LoginOpening {
    type V = LoginOpeningModel;

    open spec fn view(&self) -> LoginOpeningModel {
        LoginOpening {
            protocol: self.protocol,
            address: self.address@,
            port: self.port,
            name: self.name@,
            id: self.id,
        }
    }
}

/// What a login opens with: the host is the client's own, but carries the player's data where
/// the backend takes them from there.
pub open spec fn opening_of(
    mode: ForwardingMode,
    protocol: i32,
    virtual_host: Seq<char>,
    client_ip: Seq<char>,
    player: PlayerModel,
    json: Option<Seq<char>>,
) -> LoginOpeningModel {
    LoginOpening {
        protocol,
        address: if mode == ForwardingMode::BungeeCord {
            bungeecord_host(
                virtual_host,
                client_ip,
                player.id,
                match json {
                    Some(j) => j,
                    None => "[]"@,
                },
            )
        } else {
            virtual_host
        },
        port: HANDSHAKE_PORT,
        name: player.username,
        id: player.id,
    }
}

pub open spec fn opt_str(s: Option<&str>) -> Option<Seq<char>> {
    match s {
        Some(t) => Some(t@),
        None => None,
    }
}

pub fn login_opening(
    mode: ForwardingMode,
    version: ClientVersion,
    virtual_host: &str,
    client_ip: &str,
    player: &AuthenticatedPlayer,
    json_properties: Option<&str>,
) -> (r: LoginOpening)
    ensures
        r@ == opening_of(
            mode,
            version.protocol,
            virtual_host@,
            client_ip@,
            player@,
            opt_str(json_properties),
        ),
{
    let address = match mode {
        ForwardingMode::BungeeCord => ForwardingHelper::build_bungeecord_host(
            virtual_host,
            client_ip,
            player,
            json_properties,
        ),
        _ => owned(virtual_host),
    };
    LoginOpening {
        protocol: version.protocol,
        address,
        port: HANDSHAKE_PORT,
        name: player.username.clone(),
        id: player.id,
    }
}

// ---------------------------------------------------------------------------
// The packets of the login phase
// ---------------------------------------------------------------------------

/// The numbers of the packets that a backend may send during login, in the client's version.
#[derive(Debug, Clone, Copy, PartialEq, Eq, Structural)]
pub struct LoginIds {
    pub disconnect: i32,
    pub plugin_request: i32,
    pub compression: i32,
    pub success: i32,
}

/// What the proxy does about a packet of the login phase.
#[derive(Debug, PartialEq, Eq)]
pub enum LoginStep<S = String, B = Vec<u8>> {
    /// Answer a plugin request
    Respond { message_id: i32, data: Option<B> },
    /// Compress packets of at least this size from now on
    SetCompression { threshold: usize, level: u32 },
    /// The login is done; the packet goes to the client as it is
    Done(B),
    /// Nothing
    Skip,
    /// The login has failed
    Fail(BridgeError<S>),
}

pub type LoginStepModel = LoginStep<Seq<char>, Seq<u8>>;

pub open spec fn opt_bytes(b: Option<Vec<u8>>) -> Option<Seq<u8>> {
    match b {
        Some(v) => Some(v@),
        None => None,
    }
}

impl View for LoginStep {
    type V = LoginStepModel;

    open spec fn view(&self) -> LoginStepModel {
        match self {
            LoginStep::Respond { message_id, data } => LoginStep::Respond {
                message_id: *message_id,
                data: opt_bytes(*data),
            },
            LoginStep::SetCompression { threshold, level } => LoginStep::SetCompression {
                threshold: *threshold,
                level: *level,
            },
            LoginStep::Done(b) => LoginStep::Done(b@),
            LoginStep::Skip => LoginStep::Skip,
            LoginStep::Fail(e) => LoginStep::Fail(e@),
        }
    }
}

/// The challenge in what follows the channel of a Vine request: sixteen bytes behind a leading
/// byte, or sixteen bytes alone; nothing shorter is one, and zeros stand for it.
pub open spec fn challenge_in(rest: Seq<u8>) -> Seq<u8> {
    if rest.len() >= 17 {
        rest.subrange(1, 17)
    } else if rest.len() >= 16 {
        rest.take(16)
    } else {
        Seq::new(16, |i: int| 0u8)
    }
}

/// The answer to a request on a channel.
pub open spec fn plugin_answer(
    message_id: i32,
    channel: Seq<char>,
    rest: Seq<u8>,
    secret: Option<Seq<char>>,
    client_ip: Seq<char>,
    player: PlayerModel,
    now: u64,
) -> LoginStepModel {
    if channel == VINE_PLAYER_INFO_CHANNEL@ {
        match secret {
            None => LoginStep::Fail(BridgeError::VineError("Secret missing"@)),
            Some(s) => match vine_payload(s, client_ip, player, challenge_in(rest), now) {
                Ok(data) => LoginStep::Respond { message_id, data: Some(data) },
                Err(e) => LoginStep::Fail(BridgeError::VineError(forwarding_error_words(e))),
            },
        }
    } else if channel == VELOCITY_PLAYER_INFO_CHANNEL@ {
        match secret {
            None => LoginStep::Fail(BridgeError::VelocityError("Secret missing"@)),
            Some(s) => match velocity_payload(s, client_ip, player) {
                Ok(data) => LoginStep::Respond { message_id, data: Some(data) },
                Err(e) => LoginStep::Fail(BridgeError::VelocityError(forwarding_error_words(e))),
            },
        }
    } else {
        LoginStep::Respond { message_id, data: None }
    }
}

/// What follows from a packet of the login phase.
pub open spec fn login_step(
    ids: LoginIds,
    secret: Option<Seq<char>>,
    client_ip: Seq<char>,
    player: PlayerModel,
    compression_level: i32,
    id: i32,
    payload: Seq<u8>,
    now: u64,
) -> LoginStepModel {
    if id == ids.disconnect {
        LoginStep::Fail(
            BridgeError::LoginDisconnected(
                match read_text(payload) {
                    Ok((reason, _)) => reason,
                    Err(_) => "Disconnected by backend during login"@,
                },
            ),
        )
    } else if id == ids.plugin_request {
        match read_varint(payload) {
            Err(e) => LoginStep::Fail(BridgeError::DecodeError(e.words())),
            Ok((message_id, after)) => match read_text(after) {
                Err(e) => LoginStep::Fail(BridgeError::DecodeError(e.words())),
                Ok((channel, rest)) => plugin_answer(
                    message_id,
                    channel,
                    rest,
                    secret,
                    client_ip,
                    player,
                    now,
                ),
            },
        }
    } else if id == ids.compression {
        match read_varint(payload) {
            Err(e) => LoginStep::Fail(BridgeError::DecodeError(e.words())),
            Ok((threshold, _)) => if threshold >= 0 {
                LoginStep::SetCompression {
                    threshold: threshold as usize,
                    level: unsigned(compression_level) as u32,
                }
            } else {
                LoginStep::Skip
            },
        }
    } else if id == ids.success {
        LoginStep::Done(framed(id, payload))
    } else {
        LoginStep::Skip
    }
}

fn challenge_bytes(rest: &[u8]) -> (r: Vec<u8>)
    ensures
        r@ == challenge_in(rest@),
        r@.len() == 16,
{
    if rest.len() >= 17 {
        slice_of(rest, 1, 17)
    } else if rest.len() >= 16 {
        let r = slice_of(rest, 0, 16);
        assert(r@ == rest@.take(16));
        r
    } else {
        let mut r: Vec<u8> = Vec::new();
        while r.len() < 16
            invariant
                r@.len() <= 16,
                forall|i: int| 0 <= i < r@.len() ==> r@[i] == 0u8,
            decreases 16 - r@.len(),
        {
            r.push(0u8);
        }
        assert(r@ == challenge_in(rest@));
        r
    }
}

fn answer_plugin_request(
    message_id: i32,
    channel: &str,
    rest: &[u8],
    secret: &Option<String>,
    client_ip: &str,
    player: &AuthenticatedPlayer,
    now: u64,
) -> (r: LoginStep)
    ensures
        r@ == plugin_answer(
            message_id,
            channel@,
            rest@,
            opt_text(*secret),
            client_ip@,
            player@,
            now,
        ),
{
    if text_eq(channel, VINE_PLAYER_INFO_CHANNEL) {
        match secret {
            None => LoginStep::Fail(BridgeError::VineError(owned("Secret missing"))),
            Some(s) => {
                let challenge = challenge_bytes(rest);
                match ForwardingHelper::build_vine_payload_at(
                    s.as_str(),
                    client_ip,
                    player,
                    challenge.as_slice(),
                    now,
                ) {
                    Ok(data) => LoginStep::Respond { message_id, data: Some(data) },
                    Err(e) => LoginStep::Fail(BridgeError::VineError(e.message())),
                }
            },
        }
    } else if text_eq(channel, VELOCITY_PLAYER_INFO_CHANNEL) {
        match secret {
            None => LoginStep::Fail(BridgeError::VelocityError(owned("Secret missing"))),
            Some(s) => {
                match ForwardingHelper::build_velocity_payload(s.as_str(), client_ip, player) {
                    Ok(data) => LoginStep::Respond { message_id, data: Some(data) },
                    Err(e) => LoginStep::Fail(BridgeError::VelocityError(e.message())),
                }
            },
        }
    } else {
        LoginStep::Respond { message_id, data: None }
    }
}

/// Decides on a packet of the login phase, with a given time in seconds.
pub fn on_login_packet_at(
    ids: LoginIds,
    secret: &Option<String>,
    client_ip: &str,
    player: &AuthenticatedPlayer,
    compression_level: i32,
    id: i32,
    payload: &[u8],
    now: u64,
) -> (r: LoginStep)
    ensures
        r@ == login_step(
            ids,
            opt_text(*secret),
            client_ip@,
            player@,
            compression_level,
            id,
            payload@,
            now,
        ),
{
    assert(payload@.skip(0) == payload@);
    if id == ids.disconnect {
        match get_text(payload, 0) {
            Ok((reason, _)) => LoginStep::Fail(BridgeError::LoginDisconnected(reason)),
            Err(_) => LoginStep::Fail(
                BridgeError::LoginDisconnected(owned("Disconnected by backend during login")),
            ),
        }
    } else if id == ids.plugin_request {
        match get_varint(payload, 0) {
            Err(e) => LoginStep::Fail(BridgeError::DecodeError(e.message())),
            Ok((message_id, p)) => match get_text(payload, p) {
                Err(e) => LoginStep::Fail(BridgeError::DecodeError(e.message())),
                Ok((channel, q)) => {
                    let rest = slice_of(payload, q, payload.len());
                    assert(rest@ == payload@.skip(q as int));
                    answer_plugin_request(
                        message_id,
                        channel.as_str(),
                        rest.as_slice(),
                        secret,
                        client_ip,
                        player,
                        now,
                    )
                },
            },
        }
    } else if id == ids.compression {
        match get_varint(payload, 0) {
            Err(e) => LoginStep::Fail(BridgeError::DecodeError(e.message())),
            Ok((threshold, _)) => {
                if threshold >= 0 {
                    LoginStep::SetCompression {
                        threshold: threshold as usize,
                        level: to_unsigned(compression_level),
                    }
                } else {
                    LoginStep::Skip
                }
            },
        }
    } else if id == ids.success {
        LoginStep::Done(frame(id, payload))
    } else {
        LoginStep::Skip
    }
}

/// Decides on a packet of the login phase at the present time.
pub fn on_login_packet(
    ids: LoginIds,
    secret: &Option<String>,
    client_ip: &str,
    player: &AuthenticatedPlayer,
    compression_level: i32,
    id: i32,
    payload: &[u8],
) -> (r: LoginStep)
    ensures
        exists|now: u64|
            r@ == #[trigger] login_step(
                ids,
                opt_text(*secret),
                client_ip@,
                player@,
                compression_level,
                id,
                payload@,
                now,
            ),
{
    let now: u64 = unix_seconds(system_now());
    on_login_packet_at(
        ids,
        secret,
        client_ip,
        player,
        compression_level,
        id,
        payload,
        now,
    )
}

// ---------------------------------------------------------------------------
// Laws of the login
// ---------------------------------------------------------------------------

/// A request on a channel that the proxy does not know is answered, and with no data.
pub proof fn law_unknown_channel_gets_no_data(
    message_id: i32,
    channel: Seq<char>,
    rest: Seq<u8>,
    secret: Option<Seq<char>>,
    client_ip: Seq<char>,
    player: PlayerModel,
    now: u64,
)
    requires
        channel != VINE_PLAYER_INFO_CHANNEL@,
        channel != VELOCITY_PLAYER_INFO_CHANNEL@,
    ensures
        plugin_answer(message_id, channel, rest, secret, client_ip, player, now)
            == (LoginStepModel::Respond { message_id, data: None }),
{
}

/// Without a secret no player data leave the proxy: a request for them ends the login.
pub proof fn law_no_secret_no_data(
    message_id: i32,
    channel: Seq<char>,
    rest: Seq<u8>,
    client_ip: Seq<char>,
    player: PlayerModel,
    now: u64,
)
    ensures
        !(plugin_answer(message_id, channel, rest, None, client_ip, player, now) matches LoginStep::Respond {
            message_id: _,
            data: Some(_),
        }),
{
}

/// The login ends well only by the packet that says so.
pub proof fn law_only_success_ends_login(
    ids: LoginIds,
    secret: Option<Seq<char>>,
    client_ip: Seq<char>,
    player: PlayerModel,
    level: i32,
    id: i32,
    payload: Seq<u8>,
    now: u64,
)
    ensures
        login_step(ids, secret, client_ip, player, level, id, payload, now) is Done ==> id
            == ids.success,
{
}

/// The handshake names the client's own version and the player's own name and identifier. The
/// host is the client's, unchanged, in every mode but BungeeCord's.
pub proof fn law_opening_is_the_clients_own(
    mode: ForwardingMode,
    protocol: i32,
    host: Seq<char>,
    client_ip: Seq<char>,
    player: PlayerModel,
    json: Option<Seq<char>>,
)
    ensures
        ({
            let o = opening_of(mode, protocol, host, client_ip, player, json);
            &&& o.protocol == protocol
            &&& o.port == 25565
            &&& o.name == player.username
            &&& o.id == player.id
            &&& mode !is BungeeCord ==> o.address == host
        }),
{
}

/// In BungeeCord's mode, and in it alone, the host carries the player: it splits at NUL into the
/// client's host, the client's address, the player's identifier and the properties.
pub proof fn law_bungeecord_opening_carries_the_player(
    mode: ForwardingMode,
    protocol: i32,
    host: Seq<char>,
    client_ip: Seq<char>,
    player: PlayerModel,
    json: Option<Seq<char>>,
)
    requires
        !host.contains('\0'),
        !client_ip.contains('\0'),
        json matches Some(j) ==> !j.contains('\0'),
    ensures
        ({
            let parts = crate::text::pieces(
                opening_of(mode, protocol, host, client_ip, player, json).address,
                '\0',
            );
            &&& parts[0] == host
            &&& mode is BungeeCord <==> parts.len() == 4
            &&& mode !is BungeeCord <==> parts.len() == 1
            &&& mode is BungeeCord ==> parts[1] == client_ip && parts[2]
                == crate::crypto::uuid_simple_text(player.id)
            &&& mode is BungeeCord ==> (json matches Some(j) ==> parts[3] == j)
            &&& mode is BungeeCord ==> (json is None ==> parts[3] == seq!['[', ']'])
        }),
{
    reveal_strlit("[]");
    assert("[]"@ == seq!['[', ']']);
    let j = match json {
        Some(j) => j,
        None => "[]"@,
    };
    assert(!j.contains('\0'));
    crate::backend::forwarding::law_bungeecord_host_splits(host, client_ip, player.id, j);
    crate::text::lemma_position_of(host, '\0');
    assert(crate::text::pieces(host, '\0') == seq![host]);
}

/// A plugin request as a backend writes it.
pub open spec fn request_bytes(message_id: i32, channel: Seq<char>, rest: Seq<u8>) -> Seq<u8> {
    varint(message_id) + (text(channel) + rest)
}

/// A request on a channel of the proxy is answered under its own number with what belongs to that
/// channel: the player's Velocity data under the backend's secret on one, their Vine data with the
/// request's challenge on the other; a request on any other channel, with nothing.
pub proof fn law_plugin_request_is_answered(
    ids: LoginIds,
    secret: Seq<char>,
    client_ip: Seq<char>,
    player: PlayerModel,
    level: i32,
    message_id: i32,
    channel: Seq<char>,
    rest: Seq<u8>,
    now: u64,
)
    requires
        ids.plugin_request != ids.disconnect,
        encode_utf8(channel).len() <= crate::codec::MAX_TEXT_BYTES,
    ensures
        ({
            let r = login_step(
                ids,
                Some(secret),
                client_ip,
                player,
                level,
                ids.plugin_request,
                request_bytes(message_id, channel, rest),
                now,
            );
            let velocity = velocity_payload(secret, client_ip, player);
            &&& channel == "velocity:player_info"@ ==> {
                &&& velocity matches Ok(d) ==> r == (LoginStepModel::Respond {
                    message_id,
                    data: Some(d),
                })
                &&& velocity is Err ==> (r matches LoginStep::Fail(BridgeError::VelocityError(_)))
            }
            &&& channel == "vine:player_info"@ ==> {
                let vine = vine_payload(secret, client_ip, player, challenge_in(rest), now);
                &&& vine matches Ok(d) ==> r == (LoginStepModel::Respond {
                    message_id,
                    data: Some(d),
                })
                &&& vine is Err ==> (r matches LoginStep::Fail(BridgeError::VineError(_)))
            }
            &&& channel != "velocity:player_info"@ && channel != "vine:player_info"@ ==> r == (
            LoginStepModel::Respond { message_id, data: None })
        }),
{
    law_varint_round_trip(message_id, text(channel) + rest);
    law_text_round_trip(channel, rest);
    reveal_strlit("velocity:player_info");
    reveal_strlit("vine:player_info");
    assert("velocity:player_info"@.len() == 20 && "vine:player_info"@.len() == 16);
}

/// A backend that disconnects the player during login is quoted with its reason.
pub proof fn law_login_disconnect_is_quoted(
    ids: LoginIds,
    secret: Option<Seq<char>>,
    client_ip: Seq<char>,
    player: PlayerModel,
    level: i32,
    reason: Seq<char>,
    rest: Seq<u8>,
    now: u64,
)
    requires
        encode_utf8(reason).len() <= crate::codec::MAX_TEXT_BYTES,
    ensures
        login_step(
            ids,
            secret,
            client_ip,
            player,
            level,
            ids.disconnect,
            text(reason) + rest,
            now,
        ) == LoginStepModel::Fail(BridgeError::LoginDisconnected(reason)),
        forall|body: Seq<u8>|
            (#[trigger] login_step(
                ids,
                secret,
                client_ip,
                player,
                level,
                ids.disconnect,
                body,
                now,
            )) matches LoginStep::Fail(BridgeError::LoginDisconnected(_)),
{
    law_text_round_trip(reason, rest);
}

/// A backend sets the size from which packets are compressed, at the proxy's own level; a size
/// below zero sets nothing.
pub proof fn law_backend_sets_compression(
    ids: LoginIds,
    secret: Option<Seq<char>>,
    client_ip: Seq<char>,
    player: PlayerModel,
    level: i32,
    threshold: i32,
    rest: Seq<u8>,
    now: u64,
)
    requires
        ids.compression != ids.disconnect,
        ids.compression != ids.plugin_request,
        level >= 0,
    ensures
        ({
            let r = login_step(
                ids,
                secret,
                client_ip,
                player,
                level,
                ids.compression,
                varint(threshold) + rest,
                now,
            );
            &&& threshold >= 0 ==> (r matches LoginStep::SetCompression { threshold: t, level: l }
                && t == threshold && l == level)
            &&& threshold < 0 ==> r is Skip
        }),
{
    law_varint_round_trip(threshold, rest);
}

/// The packet that accepts the player ends the login and reaches the client as it came; a packet
/// of another kind is passed over.
pub proof fn law_success_reaches_the_client(
    ids: LoginIds,
    secret: Option<Seq<char>>,
    client_ip: Seq<char>,
    player: PlayerModel,
    level: i32,
    id: i32,
    payload: Seq<u8>,
    now: u64,
)
    requires
        id != ids.disconnect,
        id != ids.plugin_request,
        id != ids.compression,
    ensures
        ({
            let r = login_step(ids, secret, client_ip, player, level, id, payload, now);
            &&& id == ids.success ==> (r matches LoginStep::Done(b) && b == varint(id) + payload)
            &&& id != ids.success ==> r is Skip
        }),
{
}

/// A server that did not answer is tried again up to the configured number of times, and one try
/// is always made.
pub proof fn law_next_attempt_is_counted(attempt: u32, retries: u32, r: Option<u32>)
    requires
        call_ensures(next_attempt, (attempt, retries), r),
    ensures
        r is Some <==> attempt < retries || attempt < 1,
        r matches Some(n) ==> n == attempt + 1,
{
}

/// An attempt that failed for good is told with the server's name and the last error.
pub proof fn law_connect_failure_names_the_server(name: &str, last: Option<String>, r: BridgeError)
    requires
        call_ensures(connect_failed, (name, last), r),
    ensures
        r matches BridgeError::ConnectFailed(n, e) && n@ == name@ && (last matches Some(t) ==> e@
            == t@),
{
    assert(r@ is ConnectFailed);
}

/// A login opens for the client's own version, host and address and for this very player, in the
/// backend's mode; and the backend's packets are answered with that backend's secret.
pub proof fn law_logins_are_the_players_own(
    mode: ForwardingMode,
    version: ClientVersion,
    host: &str,
    ip: &str,
    player: AuthenticatedPlayer,
    json: Option<&str>,
    o: LoginOpening,
    ids: LoginIds,
    secret: Option<String>,
    level: i32,
    id: i32,
    payload: &[u8],
    now: u64,
    s: LoginStep,
)
    requires
        call_ensures(login_opening, (mode, version, host, ip, &player, json), o),
        call_ensures(
            on_login_packet_at,
            (ids, &secret, ip, &player, level, id, payload, now),
            s,
        ),
    ensures
        o@.name == player.username@,
        o@.id == player.id,
        o@.protocol == version.protocol,
        mode !is BungeeCord ==> o@.address == host@,
        mode is BungeeCord ==> o@.address == bungeecord_host(
            host@,
            ip@,
            player.id,
            match json {
                Some(j) => j@,
                None => "[]"@,
            },
        ),
        s@ == login_step(ids, opt_text(secret), ip@, player@, level, id, payload@, now),
{
}

/// A Vine request's challenge is given back byte for byte: sixteen bytes alone, or the sixteen
/// behind a leading byte. What is shorter is no challenge, and zeros stand for it.
pub proof fn law_challenge_is_given_back(challenge: Seq<u8>, lead: u8, rest: Seq<u8>, short: Seq<u8>)
    requires
        challenge.len() == 16,
        short.len() < 16,
    ensures
        challenge_in(challenge) == challenge,
        challenge_in(seq![lead] + challenge + rest) == challenge,
        challenge_in(short).len() == 16,
        forall|i: int| 0 <= i < 16 ==> #[trigger] challenge_in(short)[i] == 0,
{
    assert(challenge.take(16) == challenge);
    assert((seq![lead] + challenge + rest).subrange(1, 17) == challenge);
}

/// A request for player data that the proxy has no secret for ends the login, and says of which
/// kind the request was.
pub proof fn law_missing_secret_ends_the_login(
    message_id: i32,
    rest: Seq<u8>,
    client_ip: Seq<char>,
    player: PlayerModel,
    now: u64,
)
    ensures
        plugin_answer(
            message_id,
            "vine:player_info"@,
            rest,
            None,
            client_ip,
            player,
            now,
        ) matches LoginStep::Fail(BridgeError::VineError(_)),
        plugin_answer(
            message_id,
            "velocity:player_info"@,
            rest,
            None,
            client_ip,
            player,
            now,
        ) matches LoginStep::Fail(BridgeError::VelocityError(_)),
{
    reveal_strlit("velocity:player_info");
    reveal_strlit("vine:player_info");
    assert("velocity:player_info"@.len() == 20 && "vine:player_info"@.len() == 16);
}

/// A packet of the login phase that cannot be read ends the login.
pub proof fn law_unreadable_packets_end_the_login(
    ids: LoginIds,
    secret: Option<Seq<char>>,
    client_ip: Seq<char>,
    player: PlayerModel,
    level: i32,
    payload: Seq<u8>,
    now: u64,
)
    requires
        read_varint(payload) is Err,
        ids.plugin_request != ids.disconnect,
        ids.compression != ids.disconnect,
        ids.compression != ids.plugin_request,
    ensures
        login_step(
            ids,
            secret,
            client_ip,
            player,
            level,
            ids.plugin_request,
            payload,
            now,
        ) matches LoginStep::Fail(BridgeError::DecodeError(_)),
        login_step(
            ids,
            secret,
            client_ip,
            player,
            level,
            ids.compression,
            payload,
            now,
        ) matches LoginStep::Fail(BridgeError::DecodeError(_)),
{
}

} // verus!
