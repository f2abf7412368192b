//! Identities: the proxy's key pair, players, and the session service's answers.
use vstd::prelude::*;
use vstd::string::*;
use vstd::utf8::*;

use crate::codec::put_bytes;
use crate::config::copy_opt;
use crate::crypto::{
    rsa_decrypt, rsa_decrypted, rsa_generate, rsa_public_der, rsa_public_of, sha1_digest, sha1_of,
    signed_hex, signed_hex_text, twos_complement, uuid_parse, uuid_parsed, uuid_v3, uuid_v3_of,
};
use crate::table::views;
use crate::text::{cat2, decimal, decimal_u64, opt_text, owned};

verus! {

broadcast use vstd::seq::group_seq_axioms;

#[derive(Debug, PartialEq, Eq)]
pub enum AuthError<S = String> {
    /// A ciphertext could not be decrypted
    DecryptError(S),
    /// The token that came back is not the one that was sent
    VerifyTokenMismatch,
    /// The session service answered with this status
    MojangAuthFailed(u16),
    /// The session service could not be reached
    NetworkError(S),
    /// The session service's answer could not be read
    JsonError(S),
    /// The session service's answer holds no usable identifier
    InvalidUuid(S),
}

pub type AuthErrorModel = AuthError<Seq<char>>;

impl View for AuthError {
    type V = AuthErrorModel;

    open spec fn view(&self) -> AuthErrorModel {
        match self {
            AuthError::DecryptError(e) => AuthError::DecryptError(e@),
            AuthError::VerifyTokenMismatch => AuthError::VerifyTokenMismatch,
            AuthError::MojangAuthFailed(n) => AuthError::MojangAuthFailed(*n),
            AuthError::NetworkError(e) => AuthError::NetworkError(e@),
            AuthError::JsonError(e) => AuthError::JsonError(e@),
            AuthError::InvalidUuid(e) => AuthError::InvalidUuid(e@),
        }
    }
}

/// An error in words.
pub open spec fn auth_error_words(e: AuthErrorModel) -> Seq<char> {
    match e {
        AuthError::DecryptError(t) => "Failed to decrypt RSA payload: "@ + t,
        AuthError::VerifyTokenMismatch => "Verify token mismatch"@,
        AuthError::MojangAuthFailed(n) => "Mojang authentication failed (status: "@ + decimal(
            n as nat,
        ) + ")"@,
        AuthError::NetworkError(t) => "Failed to contact Mojang session service: "@ + t,
        AuthError::JsonError(t) => "Failed to parse Mojang response JSON: "@ + t,
        AuthError::InvalidUuid(t) => "Invalid UUID from authentication server: "@ + t,
    }
}

impl AuthError {
    pub fn message(&self) -> (r: String)
        ensures
            r@ == auth_error_words(self@),
    {
        match self {
            AuthError::DecryptError(t) => cat2("Failed to decrypt RSA payload: ", t.as_str()),
            AuthError::VerifyTokenMismatch => owned("Verify token mismatch"),
            AuthError::MojangAuthFailed(n) => {
                let mut r = cat2(
                    "Mojang authentication failed (status: ",
                    decimal_u64(*n as u64).as_str(),
                );
                r.append(")");
                r
            },
            AuthError::NetworkError(t) => {
                cat2("Failed to contact Mojang session service: ", t.as_str())
            },
            AuthError::JsonError(t) => cat2("Failed to parse Mojang response JSON: ", t.as_str()),
            AuthError::InvalidUuid(t) => {
                cat2("Invalid UUID from authentication server: ", t.as_str())
            },
        }
    }
}

// ---------------------------------------------------------------------------
// Key pair
// ---------------------------------------------------------------------------

/// The proxy's RSA key pair.
pub struct KeyStore {
    private_key: Vec<u8>,
    public_key_der: Vec<u8>,
}

/// The hash by which both sides of a login name their session: SHA-1 of server identifier,
/// shared secret and public key, as a signed hexadecimal number.
pub open spec fn server_hash(server_id: Seq<char>, secret: Seq<u8>, public_der: Seq<u8>) -> Seq<
    char,
> {
    signed_hex_text(twos_complement(sha1_of(encode_utf8(server_id) + secret + public_der)))
}

impl KeyStore {
    /// The private key, as PKCS#8 DER.
    pub closed spec fn private(&self) -> Seq<u8> {
        self.private_key@
    }

    /// The public key, as DER.
    pub closed spec fn public(&self) -> Seq<u8> {
        self.public_key_der@
    }

    /// A fresh pair of 1024 bits. Which key it is, and whether one can be had, rests on chance;
    /// what comes of either is up to `from_generated`.
    pub fn new() -> (r: Result<Self, String>)
        ensures
            r matches Ok(k) ==> rsa_public_of(k.private()) == Ok::<Seq<u8>, Seq<char>>(k.public()),
    {
        KeyStore::from_generated(rsa_generate(1024))
    }

    /// The pair that comes of a key's generation, which may have failed.
    pub fn from_generated(generated: Result<Vec<u8>, String>) -> (r: Result<Self, String>)
        ensures
            match generated {
                Ok(private_key) => match r {
                    Ok(k) => k.private() == private_key@ && rsa_public_of(private_key@) == Ok::<
                        Seq<u8>,
                        Seq<char>,
                    >(k.public()),
                    Err(e) => rsa_public_of(private_key@) == Err::<Seq<u8>, Seq<char>>(e@),
                },
                Err(e) => r == Err::<Self, String>(e),
            },
    {
        match generated {
            Ok(private_key) => KeyStore::from_private(private_key),
            Err(e) => Err(e),
        }
    }

    /// The pair that a private key belongs to.
    pub fn from_private(private_key: Vec<u8>) -> (r: Result<Self, String>)
        ensures
            match r {
                Ok(k) => k.private() == private_key@ && rsa_public_of(private_key@) == Ok::<
                    Seq<u8>,
                    Seq<char>,
                >(k.public()),
                Err(e) => rsa_public_of(private_key@) == Err::<Seq<u8>, Seq<char>>(e@),
            },
    {
        match rsa_public_der(private_key.as_slice()) {
            Ok(public_key_der) => Ok(KeyStore { private_key, public_key_der }),
            Err(e) => Err(e),
        }
    }

    pub fn public_key_der(&self) -> (r: &[u8])
        ensures
            r@ == self.public(),
    {
        self.public_key_der.as_slice()
    }

    pub fn decrypt(&self, data: &[u8]) -> (r: Result<Vec<u8>, AuthError>)
        ensures
            match r {
                Ok(v) => rsa_decrypted(self.private(), data@) == Ok::<Seq<u8>, Seq<char>>(v@),
                Err(e) => e@ matches AuthError::DecryptError(t) && rsa_decrypted(
                    self.private(),
                    data@,
                ) == Err::<Seq<u8>, Seq<char>>(t),
            },
    {
        match rsa_decrypt(self.private_key.as_slice(), data) {
            Ok(v) => Ok(v),
            Err(e) => Err(AuthError::DecryptError(e)),
        }
    }

    /// Computes Minecraft's server hash.
    pub fn auth_digest(&self, server_id: &str, shared_secret: &[u8]) -> (r: String)
        ensures
            r@ == server_hash(server_id@, shared_secret@, self.public()),
    {
        let mut data: Vec<u8> = Vec::new();
        put_bytes(&mut data, server_id.as_bytes());
        put_bytes(&mut data, shared_secret);
        put_bytes(&mut data, self.public_key_der.as_slice());
        assert(data@ == encode_utf8(server_id@) + shared_secret@ + self.public());
        let digest = sha1_digest(data.as_slice());
        signed_hex(digest.as_slice())
    }
}

// ---------------------------------------------------------------------------
// Players
// ---------------------------------------------------------------------------

/// A property of a player's profile, such as their skin.
#[derive(Debug, PartialEq, Eq)]
pub struct Property<S = String> {
    pub name: S,
    pub value: S,
    pub signature: Option<S>,
}

pub type PropertyModel = Property<Seq<char>>;

impl View for Property {
    type V = PropertyModel;

    open spec fn view(&self) -> PropertyModel {
        Property { name: self.name@, value: self.value@, signature: opt_text(self.signature) }
    }
}

impl Clone for Property {
    fn clone(&self) -> (r: Self)
        ensures
            r@ == self@,
    {
        Property {
            name: self.name.clone(),
            value: self.value.clone(),
            signature: copy_opt(&self.signature),
        }
    }
}

#[derive(Debug, PartialEq, Eq)]
pub struct AuthenticatedPlayer<S = String, L = Vec<Property>> {
    /// The player's UUID
    pub id: u128,
    pub username: S,
    pub properties: L,
}

pub type PlayerModel = AuthenticatedPlayer<Seq<char>, Seq<PropertyModel>>;

impl View for AuthenticatedPlayer {
    type V = PlayerModel;

    open spec fn view(&self) -> PlayerModel {
        AuthenticatedPlayer {
            id: self.id,
            username: self.username@,
            properties: views(self.properties@),
        }
    }
}

impl Clone for AuthenticatedPlayer {
    fn clone(&self) -> (r: Self)
        ensures
            r@ == self@,
    {
        let properties = copy_properties(&self.properties);
        AuthenticatedPlayer { id: self.id, username: self.username.clone(), properties }
    }
}

fn copy_properties(v: &Vec<Property>) -> (r: Vec<Property>)
    ensures
        views(r@) == views(v@),
{
    let mut r: Vec<Property> = Vec::new();
    let mut i: usize = 0;
    while i < v.len()
        invariant
            i <= v@.len(),
            r@.len() == i,
            forall|j: int| 0 <= j < i ==> r@[j]@ == v@[j]@,
        decreases v.len() - i,
    {
        r.push(v[i].clone());
        i = i + 1;
    }
    assert(views(r@) == views(v@));
    r
}

/// The identifier of a player whom no service vouches for: name-based, from the player's name.
pub open spec fn offline_id(username: Seq<char>) -> u128 {
    uuid_v3_of(0, encode_utf8("OfflinePlayer:"@ + username))
}

impl AuthenticatedPlayer {
    pub fn offline(username: &str) -> (r: Self)
        ensures
            r@ == (PlayerModel {
                id: offline_id(username@),
                username: username@,
                properties: Seq::empty(),
            }),
    {
        let name = cat2("OfflinePlayer:", username);
        let id: u128 = uuid_v3(0, name.as_str().as_bytes());
        let r = AuthenticatedPlayer { id, username: owned(username), properties: Vec::new() };
        assert(r@.properties == Seq::<PropertyModel>::empty());
        r
    }
}

// ---------------------------------------------------------------------------
// The session service
// ---------------------------------------------------------------------------

/// A player's profile as the session service tells it.
#[derive(Debug, PartialEq, Eq)]
pub struct MojangSessionResponse {
    pub id: String,
    pub name: String,
    pub properties: Vec<Property>,
}

/// Queries and answers of the session service.
pub struct Authenticator;

pub open spec fn session_query(
    username: Seq<char>,
    hash: Seq<char>,
    client_ip: Seq<char>,
    with_ip: bool,
) -> Seq<char> {
    let base = "https://sessionserver.mojang.com/session/minecraft/hasJoined?username="@ + username
        + "&serverId="@ + hash;
    if with_ip {
        base + "&ip="@ + client_ip
    } else {
        base
    }
}

/// The player of a profile: the identifier must be a UUID; the rest is taken over.
pub open spec fn profile_player(
    id: Seq<char>,
    name: Seq<char>,
    properties: Seq<PropertyModel>,
) -> Result<PlayerModel, AuthErrorModel> {
    match uuid_parsed(id) {
        Ok(uuid) => Ok(AuthenticatedPlayer { id: uuid, username: name, properties }),
        Err(e) => Err(AuthError::InvalidUuid(e)),
    }
}

impl Authenticator {
    /// Where to ask whether a player has joined with this hash.
    pub fn session_url(
        username: &str,
        server_hash: &str,
        client_ip: &str,
        prevent_proxy_connections: bool,
    ) -> (r: String)
        ensures
            r@ == session_query(username@, server_hash@, client_ip@, prevent_proxy_connections),
    {
        let mut r = cat2(
            "https://sessionserver.mojang.com/session/minecraft/hasJoined?username=",
            username,
        );
        r.append("&serverId=");
        r.append(server_hash);
        if prevent_proxy_connections {
            r.append("&ip=");
            r.append(client_ip);
        }
        r
    }

    /// Any status but one of success refuses the player.
    pub fn check_status(status: u16) -> (r: Result<(), AuthError>)
        ensures
            r is Ok <==> 200 <= status <= 299,
            r matches Err(e) ==> e@ == AuthErrorModel::MojangAuthFailed(status),
    {
        if 200 <= status && status <= 299 {
            Ok(())
        } else {
            Err(AuthError::MojangAuthFailed(status))
        }
    }

    /// The player that a profile stands for, once its identifier has been read.
    pub fn player_with_id(id: Result<u128, String>, profile: MojangSessionResponse) -> (r: Result<
        AuthenticatedPlayer,
        AuthError,
    >)
        ensures
            match id {
                Ok(uuid) => r matches Ok(p) && p@ == (PlayerModel {
                    id: uuid,
                    username: profile.name@,
                    properties: views(profile.properties@),
                }),
                Err(t) => r matches Err(e) && e@ == AuthErrorModel::InvalidUuid(t@),
            },
    {
        match id {
            Ok(uuid) => Ok(
                AuthenticatedPlayer {
                    id: uuid,
                    username: profile.name,
                    properties: profile.properties,
                },
            ),
            Err(t) => Err(AuthError::InvalidUuid(t)),
        }
    }

    /// The player that a profile stands for.
    pub fn player_of(profile: MojangSessionResponse) -> (r: Result<AuthenticatedPlayer, AuthError>)
        ensures
            match r {
                Ok(p) => profile_player(profile.id@, profile.name@, views(profile.properties@))
                    == Ok::<PlayerModel, AuthErrorModel>(p@),
                Err(e) => profile_player(profile.id@, profile.name@, views(profile.properties@))
                    == Err::<PlayerModel, AuthErrorModel>(e@),
            },
    {
        let id = uuid_parse(profile.id.as_str());
        Authenticator::player_with_id(id, profile)
    }
}

/// An offline player is known by the name-based identifier of their name, and has no properties.
pub proof fn law_offline_player_is_named(username: &str, r: AuthenticatedPlayer)
    requires
        call_ensures(AuthenticatedPlayer::offline, (username,), r),
    ensures
        r.username@ == username@,
        r.id == uuid_v3_of(0, encode_utf8("OfflinePlayer:"@ + username@)),
        r.properties@.len() == 0,
{
    assert(views(r.properties@).len() == 0);
}

/// The session service is asked about the player, with the hash; with the address exactly where
/// it is asked for.
pub proof fn law_session_query_names_the_player(
    username: Seq<char>,
    hash: Seq<char>,
    client_ip: Seq<char>,
)
    ensures
        session_query(username, hash, client_ip, false)
            == "https://sessionserver.mojang.com/session/minecraft/hasJoined?username="@
            + username + "&serverId="@ + hash,
        session_query(username, hash, client_ip, true) == session_query(
            username,
            hash,
            client_ip,
            false,
        ) + "&ip="@ + client_ip,
{
}

/// A profile stands for the player with its name, its properties and the identifier that its text
/// is read as; without one, for nobody.
pub proof fn law_profile_is_taken_over(
    id: Seq<char>,
    name: Seq<char>,
    properties: Seq<PropertyModel>,
)
    ensures
        profile_player(id, name, properties) matches Ok(p) ==> uuid_parsed(id) == Ok::<
            u128,
            Seq<char>,
        >(p.id) && p.username == name && p.properties == properties,
        profile_player(id, name, properties) is Err <==> uuid_parsed(id) is Err,
{
}

/// Only a status of success vouches for a player.
pub proof fn law_only_success_vouches(status: u16, r: Result<(), AuthError>)
    requires
        call_ensures(Authenticator::check_status, (status,), r),
    ensures
        r is Ok <==> status / 100 == 2,
        r matches Err(e) ==> (e@ matches AuthError::MojangAuthFailed(n) && n == status),
{
}

/// Both sides of a login come to the same hash: that of identifier, secret and public key, in this
/// order.
pub proof fn law_server_hash_binds_all(server_id: Seq<char>, secret: Seq<u8>, public_der: Seq<u8>)
    ensures
        server_hash(server_id, secret, public_der) == signed_hex_text(
            twos_complement(sha1_of(encode_utf8(server_id) + secret + public_der)),
        ),
{
}

/// An error in words tells its reason.
pub proof fn law_auth_error_tells_its_reason(e: AuthErrorModel)
    ensures
        e matches AuthError::DecryptError(t) ==> crate::text::holds_part(auth_error_words(e), t),
        e matches AuthError::NetworkError(t) ==> crate::text::holds_part(auth_error_words(e), t),
        e matches AuthError::JsonError(t) ==> crate::text::holds_part(auth_error_words(e), t),
        e matches AuthError::InvalidUuid(t) ==> crate::text::holds_part(auth_error_words(e), t),
        e matches AuthError::MojangAuthFailed(n) ==> crate::text::holds_part(
            auth_error_words(e),
            decimal(n as nat),
        ),
{
    match e {
        AuthError::DecryptError(t) => {
            crate::text::lemma_holds_part("Failed to decrypt RSA payload: "@, t, Seq::empty());
        },
        AuthError::NetworkError(t) => {
            crate::text::lemma_holds_part(
                "Failed to contact Mojang session service: "@,
                t,
                Seq::empty(),
            );
        },
        AuthError::JsonError(t) => {
            crate::text::lemma_holds_part(
                "Failed to parse Mojang response JSON: "@,
                t,
                Seq::empty(),
            );
        },
        AuthError::InvalidUuid(t) => {
            crate::text::lemma_holds_part(
                "Invalid UUID from authentication server: "@,
                t,
                Seq::empty(),
            );
        },
        AuthError::MojangAuthFailed(n) => {
            crate::text::lemma_holds_part(
                "Mojang authentication failed (status: "@,
                decimal(n as nat),
                ")"@,
            );
        },
        _ => {},
    }
}

/// The session service is asked with what was given, and a profile is taken over as it came.
pub proof fn law_session_service_is_used_as_given(
    username: &str,
    hash: &str,
    ip: &str,
    with_ip: bool,
    url: String,
    profile: MojangSessionResponse,
    p: Result<AuthenticatedPlayer, AuthError>,
)
    requires
        call_ensures(Authenticator::session_url, (username, hash, ip, with_ip), url),
        call_ensures(Authenticator::player_of, (profile,), p),
    ensures
        url@ == session_query(username@, hash@, ip@, with_ip),
        p is Ok <==> uuid_parsed(profile.id@) is Ok,
        p matches Ok(x) ==> x.username@ == profile.name@ && views(x.properties@) == views(
            profile.properties@,
        ) && uuid_parsed(profile.id@) == Ok::<u128, Seq<char>>(x.id),
{
}

/// A key pair hashes with its public half and decrypts with its private one.
pub proof fn law_key_pair_is_used(
    k: KeyStore,
    id: &str,
    secret: &[u8],
    data: &[u8],
    h: String,
    d: Result<Vec<u8>, AuthError>,
)
    requires
        call_ensures(KeyStore::auth_digest, (&k, id, secret), h),
        call_ensures(KeyStore::decrypt, (&k, data), d),
    ensures
        h@ == server_hash(id@, secret@, k.public()),
        d is Ok <==> rsa_decrypted(k.private(), data@) is Ok,
        d matches Ok(v) ==> rsa_decrypted(k.private(), data@) == Ok::<Seq<u8>, Seq<char>>(v@),
{
}

} // verus!
