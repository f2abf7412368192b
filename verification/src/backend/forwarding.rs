//! How a backend is told who a player is: BungeeCord, Velocity and Vine forwarding.
use vstd::prelude::*;
use vstd::string::*;
use vstd::utf8::*;

use crate::auth::{AuthenticatedPlayer, PlayerModel, Property, PropertyModel};
use crate::codec::{
    be, be_bytes, law_be_injective, law_varint_round_trip, lemma_be_len,
    put_bytes, put_text, put_varint, signed, slice_of, text, to_signed,
    varint, writable,
};
use crate::crypto::{
    all_hex, ed25519_accepted, ed25519_public, ed25519_public_of, ed25519_sign,
    ed25519_signature_of, ed25519_verify, hex_bytes, hex_decode, hex_encode, hex_text, hmac_sha256,
    hmac_sha256_of, lemma_hex_is_ascii, sha256, sha256_of, uuid_simple, uuid_simple_text,
};
use crate::text::{cat2, owned, pieces, trim, trimmed};

verus! {

broadcast use vstd::seq::group_seq_axioms;

pub const VELOCITY_PLAYER_INFO_CHANNEL: &'static str = "velocity:player_info";

pub const VELOCITY_FORWARDING_VERSION: i32 = 4;

pub const VINE_PLAYER_INFO_CHANNEL: &'static str = "vine:player_info";

pub const VINE_FORWARDING_VERSION: i32 = 1;

#[derive(Debug, PartialEq, Eq)]
pub enum ForwardingError<S = String> {
    /// Velocity forwarding needs a secret
    MissingVelocitySecret,
    /// Vine forwarding needs a secret
    MissingVineSecret,
    HmacError(S),
    IoError(S),
    /// A text is too long to be written
    WritingError(S),
}

pub type ForwardingErrorModel = ForwardingError<Seq<char>>;

impl View for ForwardingError {
    type V = ForwardingErrorModel;

    open spec fn view(&self) -> ForwardingErrorModel {
        match self {
            ForwardingError::MissingVelocitySecret => ForwardingError::MissingVelocitySecret,
            ForwardingError::MissingVineSecret => ForwardingError::MissingVineSecret,
            ForwardingError::HmacError(e) => ForwardingError::HmacError(e@),
            ForwardingError::IoError(e) => ForwardingError::IoError(e@),
            ForwardingError::WritingError(e) => ForwardingError::WritingError(e@),
        }
    }
}

pub open spec fn forwarding_error_words(e: ForwardingErrorModel) -> Seq<char> {
    match e {
        ForwardingError::MissingVelocitySecret => {
            "Velocity secret is required for Velocity modern forwarding"@
        },
        ForwardingError::MissingVineSecret => {
            "Vine secret is required for Vine modern forwarding"@
        },
        ForwardingError::HmacError(t) => "HMAC initialization failed: "@ + t,
        ForwardingError::IoError(t) => "Serialization IO error: "@ + t,
        ForwardingError::WritingError(t) => "Writing error: "@ + t,
    }
}

impl ForwardingError {
    pub fn message(&self) -> (r: String)
        ensures
            r@ == forwarding_error_words(self@),
    {
        match self {
            ForwardingError::MissingVelocitySecret => {
                owned("Velocity secret is required for Velocity modern forwarding")
            },
            ForwardingError::MissingVineSecret => {
                owned("Vine secret is required for Vine modern forwarding")
            },
            ForwardingError::HmacError(t) => cat2("HMAC initialization failed: ", t.as_str()),
            ForwardingError::IoError(t) => cat2("Serialization IO error: ", t.as_str()),
            ForwardingError::WritingError(t) => cat2("Writing error: ", t.as_str()),
        }
    }
}

/// The error for a text whose length no VarInt can hold.
pub open spec fn too_long() -> ForwardingErrorModel {
    ForwardingError::WritingError("text is too long"@)
}

// ---------------------------------------------------------------------------
// What is written of a player
// ---------------------------------------------------------------------------

pub open spec fn property_bytes(p: PropertyModel) -> Seq<u8> {
    text(p.name) + text(p.value) + (match p.signature {
        Some(s) => seq![1u8] + text(s),
        None => seq![0u8],
    })
}

pub open spec fn property_writable(p: PropertyModel) -> bool {
    &&& writable(p.name)
    &&& writable(p.value)
    &&& (p.signature matches Some(s) ==> writable(s))
}

pub open spec fn properties_bytes(ps: Seq<PropertyModel>) -> Seq<u8>
    decreases ps.len(),
{
    if ps.len() == 0 {
        Seq::empty()
    } else {
        properties_bytes(ps.drop_last()) + property_bytes(ps.last())
    }
}

/// Address, identifier, name and properties of a player, one after the other.
pub open spec fn player_info(client_ip: Seq<char>, p: PlayerModel) -> Seq<u8> {
    text(client_ip) + be(p.id as nat, 16) + text(p.username) + varint(signed(p.properties.len()))
        + properties_bytes(p.properties)
}

pub open spec fn info_writable(client_ip: Seq<char>, p: PlayerModel) -> bool {
    &&& writable(client_ip)
    &&& writable(p.username)
    &&& forall|i: int| 0 <= i < p.properties.len() ==> property_writable(#[trigger] p.properties[i])
}

fn put_property(out: &mut Vec<u8>, p: &Property) -> (ok: bool)
    ensures
        ok == property_writable(p@),
        ok ==> final(out)@ == old(out)@ + property_bytes(p@),
{
    let ghost before = out@;
    if !put_text(out, p.name.as_str()) {
        return false;
    }
    if !put_text(out, p.value.as_str()) {
        return false;
    }
    match &p.signature {
        Some(s) => {
            out.push(1u8);
            if !put_text(out, s.as_str()) {
                return false;
            }
            assert(out@ == before + (text(p@.name) + text(p@.value) + (seq![1u8] + text(s@))));
        },
        None => {
            out.push(0u8);
            assert(out@ == before + (text(p@.name) + text(p@.value) + seq![0u8]));
        },
    }
    true
}

fn put_player_info(out: &mut Vec<u8>, client_ip: &str, player: &AuthenticatedPlayer) -> (ok: bool)
    ensures
        ok == info_writable(client_ip@, player@),
        ok ==> final(out)@ == old(out)@ + player_info(client_ip@, player@),
{
    let ghost start = out@;
    if !put_text(out, client_ip) {
        return false;
    }
    let id = be_bytes(player.id, 16);
    put_bytes(out, id.as_slice());
    if !put_text(out, player.username.as_str()) {
        return false;
    }
    put_varint(out, to_signed(player.properties.len() as u64));
    let ghost head = out@;
    let ghost ps = player@.properties;
    assert(head == start + (text(client_ip@) + be(player.id as nat, 16) + text(player.username@)
        + varint(signed(ps.len()))));
    let mut i: usize = 0;
    assert(ps.take(0) == Seq::<PropertyModel>::empty());
    assert(out@ == head + properties_bytes(ps.take(0)));
    while i < player.properties.len()
        invariant
            i <= player.properties@.len(),
            ps == player@.properties,
            out@ == head + properties_bytes(ps.take(i as int)),
            forall|j: int| 0 <= j < i ==> property_writable(#[trigger] ps[j]),
        decreases player.properties.len() - i,
    {
        let ghost o = out@;
        if !put_property(out, &player.properties[i]) {
            assert(!property_writable(ps[i as int]));
            return false;
        }
        assert(ps.take(i + 1).drop_last() == ps.take(i as int));
        assert(ps.take(i + 1).last() == ps[i as int]);
        assert(out@ == head + (properties_bytes(ps.take(i as int)) + property_bytes(
            ps[i as int],
        )));
        i = i + 1;
    }
    assert(ps.take(ps.len() as int) == ps);
    assert(out@ == start + player_info(client_ip@, player@));
    true
}

// ---------------------------------------------------------------------------
// Velocity
// ---------------------------------------------------------------------------

pub open spec fn velocity_body(client_ip: Seq<char>, p: PlayerModel) -> Seq<u8> {
    varint(VELOCITY_FORWARDING_VERSION) + player_info(client_ip, p)
}

/// A MAC of the body under the secret, then the body.
pub open spec fn velocity_payload(secret: Seq<char>, client_ip: Seq<char>, p: PlayerModel) -> Result<
    Seq<u8>,
    ForwardingErrorModel,
> {
    let body = velocity_body(client_ip, p);
    if secret.len() == 0 {
        Err(ForwardingError::MissingVelocitySecret)
    } else if !info_writable(client_ip, p) {
        Err(too_long())
    } else {
        Ok(hmac_sha256_of(encode_utf8(secret), body) + body)
    }
}

// ---------------------------------------------------------------------------
// Vine
// ---------------------------------------------------------------------------

/// The seed of a secret: sixty-four hexadecimal digits stand for themselves, any other text
/// is hashed. White space around it does not count.
pub open spec fn vine_seed(secret: Seq<char>) -> Option<Seq<u8>> {
    let s = trimmed(secret);
    if s.len() == 0 {
        None
    } else if encode_utf8(s).len() == 64 && hex_bytes(s) is Some {
        hex_bytes(s)
    } else {
        Some(sha256_of(encode_utf8(s)))
    }
}

/// The key that signs Vine payloads.
pub struct SigningKey {
    seed: Vec<u8>,
}

impl SigningKey {
    pub closed spec fn seed(&self) -> Seq<u8> {
        self.seed@
    }

    pub closed spec fn wf(&self) -> bool {
        self.seed@.len() == 32
    }

    /// The public half, by which a backend checks signatures.
    pub fn verifying_key(&self) -> (r: Vec<u8>)
        requires
            self.wf(),
        ensures
            r@ == ed25519_public_of(self.seed()),
            r@.len() == 32,
    {
        ed25519_public(&self.seed)
    }

    pub fn sign(&self, message: &[u8]) -> (r: Vec<u8>)
        requires
            self.wf(),
        ensures
            r@ == ed25519_signature_of(self.seed(), message@),
            r@.len() == 64,
            ed25519_accepted(ed25519_public_of(self.seed()), message@, r@),
    {
        ed25519_sign(&self.seed, message)
    }
}

pub open spec fn vine_body(
    now: u64,
    challenge: Seq<u8>,
    client_ip: Seq<char>,
    p: PlayerModel,
) -> Seq<u8> {
    varint(VINE_FORWARDING_VERSION) + be(now as nat, 8) + challenge + player_info(client_ip, p)
}

/// A signature of the body under the secret's key, then the body.
pub open spec fn vine_payload(
    secret: Seq<char>,
    client_ip: Seq<char>,
    p: PlayerModel,
    challenge: Seq<u8>,
    now: u64,
) -> Result<Seq<u8>, ForwardingErrorModel> {
    let body = vine_body(now, challenge, client_ip, p);
    match vine_seed(secret) {
        None => Err(ForwardingError::MissingVineSecret),
        Some(seed) => if !info_writable(client_ip, p) {
            Err(too_long())
        } else {
            Ok(ed25519_signature_of(seed, body) + body)
        },
    }
}

/// A payload begins with a signature of the rest that is accepted under a public key.
pub open spec fn vine_accepted(public: Seq<u8>, data: Seq<u8>) -> bool {
    data.len() >= 64 && ed25519_accepted(public, data.skip(64), data.take(64))
}

/// What is promised of a Vine payload that could be built: sixty-four bytes of signature that the
/// secret's public key accepts for the bytes behind them.
pub open spec fn vine_signed(secret: Seq<char>, data: Seq<u8>) -> bool {
    &&& data.len() > 64
    &&& vine_seed(secret) matches Some(seed)
    &&& vine_accepted(ed25519_public_of(seed), data)
}

/// A result and the result that is described agree.
pub open spec fn agrees(
    r: Result<Vec<u8>, ForwardingError>,
    m: Result<Seq<u8>, ForwardingErrorModel>,
) -> bool {
    match r {
        Ok(v) => m == Ok::<Seq<u8>, ForwardingErrorModel>(v@),
        Err(e) => m == Err::<Seq<u8>, ForwardingErrorModel>(e@),
    }
}

/// A point in time by the calendar.
#[verifier::external_type_specification]
#[verifier::external_body]
pub struct ExSystemTime(std::time::SystemTime);

/// `SystemTime::now`. Nothing is said of the result: it is the time.
#[verifier::external_body]
pub(crate) fn system_now() -> (r: std::time::SystemTime) {
    std::time::SystemTime::now()
}

/// `SystemTime::duration_since` of the Unix epoch, in whole seconds, or zero before it. Nothing is
/// said of the result: it rests on the clock.
#[verifier::external_body]
pub(crate) fn unix_seconds(time: std::time::SystemTime) -> (r: u64) {
    time.duration_since(std::time::UNIX_EPOCH).unwrap_or_default().as_secs()
}

// ---------------------------------------------------------------------------
// BungeeCord
// ---------------------------------------------------------------------------

/// Host, address, identifier and properties with a NUL between each two.
pub open spec fn bungeecord_host(
    host: Seq<char>,
    client_ip: Seq<char>,
    id: u128,
    json: Seq<char>,
) -> Seq<char> {
    host + seq!['\0'] + client_ip + seq!['\0'] + uuid_simple_text(id) + seq!['\0'] + json
}

pub struct ForwardingHelper;

impl ForwardingHelper {
    /// Builds the BungeeCord handshake host. `json_properties` is the player's property list as
    /// JSON, or `None` where it could not be written, which counts as an empty list.
    pub fn build_bungeecord_host(
        original_host: &str,
        client_ip: &str,
        player: &AuthenticatedPlayer,
        json_properties: Option<&str>,
    ) -> (r: String)
        ensures
            r@ == bungeecord_host(
                original_host@,
                client_ip@,
                player.id,
                match json_properties {
                    Some(json) => json@,
                    None => "[]"@,
                },
            ),
    {
        let mut r = owned(original_host);
        r.push('\0');
        assert(r@ == original_host@ + seq!['\0']);
        r.append(client_ip);
        let ghost a = r@;
        r.push('\0');
        assert(r@ == a + seq!['\0']);
        r.append(uuid_simple(player.id).as_str());
        let ghost b = r@;
        r.push('\0');
        assert(r@ == b + seq!['\0']);
        match json_properties {
            Some(json) => r.append(json),
            None => r.append("[]"),
        }
        r
    }

    /// Builds the Velocity player info response.
    pub fn build_velocity_payload(
        secret: &str,
        client_ip: &str,
        player: &AuthenticatedPlayer,
    ) -> (r: Result<Vec<u8>, ForwardingError>)
        ensures
            agrees(r, velocity_payload(secret@, client_ip@, player@)),
            r matches Ok(v) ==> v@.len() > 32 && v@.take(32) == hmac_sha256_of(
                encode_utf8(secret@),
                v@.skip(32),
            ) && v@.skip(32) == velocity_body(client_ip@, player@),
    {
        if secret.unicode_len() == 0 {
            return Err(ForwardingError::MissingVelocitySecret);
        }
        let mut payload: Vec<u8> = Vec::new();
        put_varint(&mut payload, VELOCITY_FORWARDING_VERSION);
        if !put_player_info(&mut payload, client_ip, player) {
            return Err(ForwardingError::WritingError(owned("text is too long")));
        }
        assert(payload@ == velocity_body(client_ip@, player@));
        match hmac_sha256(secret.as_bytes(), payload.as_slice()) {
            Ok(mac) => {
                let ghost code = mac@;
                let mut full = mac;
                put_bytes(&mut full, payload.as_slice());
                proof {
                    assert(full@.take(32) == code);
                    assert(full@.skip(32) == payload@);
                    lemma_varint_len(VELOCITY_FORWARDING_VERSION);
                }
                Ok(full)
            },
            Err(e) => Err(ForwardingError::HmacError(e)),
        }
    }

    /// Derives the Ed25519 signing key of a secret.
    pub fn get_vine_signing_key(secret: &str) -> (r: Result<SigningKey, ForwardingError>)
        ensures
            match r {
                Ok(key) => key.wf() && vine_seed(secret@) == Some(key.seed()),
                Err(e) => vine_seed(secret@) is None && e@
                    == ForwardingErrorModel::MissingVineSecret,
            },
    {
        let s = trim(secret);
        if s.as_str().unicode_len() == 0 {
            return Err(ForwardingError::MissingVineSecret);
        }
        if s.as_str().as_bytes().len() == 64 {
            match hex_decode(s.as_str()) {
                Some(seed) => {
                    proof {
                        assert(all_hex(s@));
                        lemma_hex_is_ascii(s@);
                    }
                    return Ok(SigningKey { seed });
                },
                None => {},
            }
        }
        Ok(SigningKey { seed: sha256(s.as_str().as_bytes()) })
    }

    /// The 64-character hexadecimal public key of a secret, for a backend's configuration.
    pub fn get_vine_public_key_hex(secret: &str) -> (r: Result<String, ForwardingError>)
        ensures
            match r {
                Ok(t) => vine_seed(secret@) matches Some(seed) && t@ == hex_text(
                    ed25519_public_of(seed),
                ) && t@.len() == 64,
                Err(e) => vine_seed(secret@) is None && e@
                    == ForwardingErrorModel::MissingVineSecret,
            },
    {
        match ForwardingHelper::get_vine_signing_key(secret) {
            Ok(key) => Ok(hex_encode(key.verifying_key().as_slice())),
            Err(e) => Err(e),
        }
    }

    /// Builds the Vine player info response with the present time.
    pub fn build_vine_payload(
        secret: &str,
        client_ip: &str,
        player: &AuthenticatedPlayer,
        challenge: &[u8],
    ) -> (r: Result<Vec<u8>, ForwardingError>)
        requires
            challenge@.len() == 16,
        ensures
            exists|now: u64|
                agrees(
                    r,
                    #[trigger] vine_payload(secret@, client_ip@, player@, challenge@, now),
                ) && (r matches Ok(v) ==> v@.skip(64) == vine_body(
                    now,
                    challenge@,
                    client_ip@,
                    player@,
                )),
            r matches Ok(v) ==> vine_signed(secret@, v@),
    {
        let now: u64 = unix_seconds(system_now());
        ForwardingHelper::build_vine_payload_at(secret, client_ip, player, challenge, now)
    }

    /// Builds the Vine player info response with a given time in seconds.
    pub fn build_vine_payload_at(
        secret: &str,
        client_ip: &str,
        player: &AuthenticatedPlayer,
        challenge: &[u8],
        now: u64,
    ) -> (r: Result<Vec<u8>, ForwardingError>)
        requires
            challenge@.len() == 16,
        ensures
            agrees(r, vine_payload(secret@, client_ip@, player@, challenge@, now)),
            r matches Ok(v) ==> vine_signed(secret@, v@) && v@.skip(64) == vine_body(
                now,
                challenge@,
                client_ip@,
                player@,
            ),
    {
        let key = match ForwardingHelper::get_vine_signing_key(secret) {
            Ok(key) => key,
            Err(e) => return Err(e),
        };
        let mut payload: Vec<u8> = Vec::new();
        put_varint(&mut payload, VINE_FORWARDING_VERSION);
        let time = be_bytes(now as u128, 8);
        put_bytes(&mut payload, time.as_slice());
        put_bytes(&mut payload, challenge);
        if !put_player_info(&mut payload, client_ip, player) {
            return Err(ForwardingError::WritingError(owned("text is too long")));
        }
        assert(payload@ == vine_body(now, challenge@, client_ip@, player@));
        let mut full = key.sign(payload.as_slice());
        let ghost signature = full@;
        put_bytes(&mut full, payload.as_slice());
        proof {
            assert(full@.take(64) == signature);
            assert(full@.skip(64) == payload@);
            lemma_varint_len(VINE_FORWARDING_VERSION);
        }
        Ok(full)
    }

    /// Whether a backend that knows the public key accepts a Vine payload.
    pub fn verify_vine_payload(public_key: &Vec<u8>, data: &[u8]) -> (r: bool)
        ensures
            r == (public_key@.len() == 32 && vine_accepted(public_key@, data@)),
    {
        if public_key.len() != 32 || data.len() < 64 {
            return false;
        }
        let signature = slice_of(data, 0, 64);
        let body = slice_of(data, 64, data.len());
        assert(signature@ == data@.take(64));
        assert(body@ == data@.skip(64));
        ed25519_verify(public_key, &body, &signature)
    }
}

// ---------------------------------------------------------------------------
// Laws of forwarding
// ---------------------------------------------------------------------------

proof fn lemma_varint_len(n: i32)
    ensures
        varint(n).len() > 0,
{
    law_varint_round_trip(n, Seq::empty());
}

/// Behind the signature stand the version, the time in eight bytes, the backend's challenge, and
/// who the player is.
pub proof fn law_vine_layout(now: u64, challenge: Seq<u8>, client_ip: Seq<char>, p: PlayerModel)
    requires
        challenge.len() == 16,
    ensures
        vine_body(now, challenge, client_ip, p)[0] == 1,
        vine_body(now, challenge, client_ip, p).subrange(1, 9) == be(now as nat, 8),
        vine_body(now, challenge, client_ip, p).subrange(9, 25) == challenge,
        vine_body(now, challenge, client_ip, p).skip(25) == player_info(client_ip, p),
{
    let b = vine_body(now, challenge, client_ip, p);
    lemma_be_len(now as nat, 8);
    assert(varint(VINE_FORWARDING_VERSION) =~= seq![1u8]);
    assert(b.subrange(1, 9) =~= be(now as nat, 8));
    assert(b.subrange(9, 25) =~= challenge);
    assert(b.skip(25) =~= player_info(client_ip, p));
}

/// A written text can be told from what follows it.
pub proof fn lemma_text_prefix(s: Seq<char>, a: Seq<u8>, t: Seq<char>, b: Seq<u8>)
    requires
        writable(s),
        writable(t),
        text(s) + a == text(t) + b,
    ensures
        s == t,
        a == b,
{
    let u = encode_utf8(s);
    let w = encode_utf8(t);
    law_varint_round_trip(u.len() as i32, u + a);
    law_varint_round_trip(w.len() as i32, w + b);
    assert(text(s) + a == varint(u.len() as i32) + (u + a));
    assert(text(t) + b == varint(w.len() as i32) + (w + b));
    assert(u + a == w + b);
    assert((u + a).take(u.len() as int) == u);
    assert((w + b).take(w.len() as int) == w);
    assert((u + a).skip(u.len() as int) == a);
    assert((w + b).skip(w.len() as int) == b);
    encode_utf8_decode_utf8(s);
    encode_utf8_decode_utf8(t);
}

proof fn lemma_property_prefix(p: PropertyModel, a: Seq<u8>, q: PropertyModel, b: Seq<u8>)
    requires
        property_writable(p),
        property_writable(q),
        property_bytes(p) + a == property_bytes(q) + b,
    ensures
        p == q,
        a == b,
{
    let m = match p.signature {
        Some(s) => seq![1u8] + text(s),
        None => seq![0u8],
    };
    let n = match q.signature {
        Some(s) => seq![1u8] + text(s),
        None => seq![0u8],
    };
    assert(property_bytes(p) + a == text(p.name) + (text(p.value) + (m + a)));
    assert(property_bytes(q) + b == text(q.name) + (text(q.value) + (n + b)));
    lemma_text_prefix(p.name, text(p.value) + (m + a), q.name, text(q.value) + (n + b));
    lemma_text_prefix(p.value, m + a, q.value, n + b);
    assert((m + a)[0] == (n + b)[0]);
    match (p.signature, q.signature) {
        (Some(s), Some(t)) => {
            assert((m + a).skip(1) == text(s) + a);
            assert((n + b).skip(1) == text(t) + b);
            lemma_text_prefix(s, a, t, b);
        },
        (None, None) => {
            assert((m + a).skip(1) == a);
            assert((n + b).skip(1) == b);
        },
        _ => {},
    }
}

/// The properties from the front, for reading them one after the other.
proof fn lemma_properties_front(ps: Seq<PropertyModel>)
    requires
        ps.len() > 0,
    ensures
        properties_bytes(ps) == property_bytes(ps[0]) + properties_bytes(ps.skip(1)),
    decreases ps.len(),
{
    let last = ps.last();
    if ps.len() == 1 {
        assert(ps.drop_last() == Seq::<PropertyModel>::empty());
        assert(ps.skip(1) == Seq::<PropertyModel>::empty());
        assert(properties_bytes(ps.drop_last()) == Seq::<u8>::empty());
        assert(properties_bytes(ps.skip(1)) == Seq::<u8>::empty());
        assert(properties_bytes(ps) =~= property_bytes(ps[0]) + properties_bytes(ps.skip(1)));
    } else {
        lemma_properties_front(ps.drop_last());
        assert(ps.drop_last().skip(1) == ps.skip(1).drop_last());
        assert(ps.skip(1).last() == last);
        assert(properties_bytes(ps) =~= property_bytes(ps[0]) + properties_bytes(ps.skip(1)));
    }
}

proof fn lemma_properties_injective(ps: Seq<PropertyModel>, qs: Seq<PropertyModel>)
    requires
        ps.len() == qs.len(),
        properties_bytes(ps) == properties_bytes(qs),
        forall|i: int| 0 <= i < ps.len() ==> property_writable(#[trigger] ps[i]),
        forall|i: int| 0 <= i < qs.len() ==> property_writable(#[trigger] qs[i]),
    ensures
        ps == qs,
    decreases ps.len(),
{
    if ps.len() > 0 {
        lemma_properties_front(ps);
        lemma_properties_front(qs);
        lemma_property_prefix(
            ps[0],
            properties_bytes(ps.skip(1)),
            qs[0],
            properties_bytes(qs.skip(1)),
        );
        lemma_properties_injective(ps.skip(1), qs.skip(1));
        assert(ps == seq![ps[0]] + ps.skip(1));
        assert(qs == seq![qs[0]] + qs.skip(1));
    } else {
        assert(ps == qs);
    }
}

proof fn lemma_id_fits(n: u128)
    ensures
        crate::codec::be_fits(n as nat, 16),
{
    reveal_with_fuel(crate::codec::be_fits, 17);
}

spec fn info_tail(p: PlayerModel) -> Seq<u8> {
    varint(signed(p.properties.len())) + properties_bytes(p.properties)
}

proof fn lemma_info_shape(ip: Seq<char>, p: PlayerModel)
    ensures
        player_info(ip, p) == text(ip) + (be(p.id as nat, 16) + (text(p.username) + info_tail(p))),
{
    let a = text(ip);
    let b = be(p.id as nat, 16);
    let c = text(p.username);
    let d = varint(signed(p.properties.len()));
    let e = properties_bytes(p.properties);
    assert(a + b + c + d + e =~= a + (b + (c + (d + e))));
}

proof fn lemma_id_prefix(n: u128, a: Seq<u8>, m: u128, b: Seq<u8>)
    requires
        be(n as nat, 16) + a == be(m as nat, 16) + b,
    ensures
        n == m,
        a == b,
{
    let x = be(n as nat, 16);
    let y = be(m as nat, 16);
    lemma_be_len(n as nat, 16);
    lemma_be_len(m as nat, 16);
    assert((x + a).take(16) == x);
    assert((y + b).take(16) == y);
    assert((x + a).skip(16) == a);
    assert((y + b).skip(16) == b);
    lemma_id_fits(n);
    lemma_id_fits(m);
    law_be_injective(n as nat, m as nat, 16);
}

/// What is written of a player says who the player is: two players, or two addresses, are never
/// written alike.
pub proof fn law_player_info_injective(
    ip: Seq<char>,
    p: PlayerModel,
    ip2: Seq<char>,
    q: PlayerModel,
)
    requires
        info_writable(ip, p),
        info_writable(ip2, q),
        p.properties.len() <= i32::MAX,
        q.properties.len() <= i32::MAX,
        player_info(ip, p) == player_info(ip2, q),
    ensures
        ip == ip2,
        p == q,
{
    lemma_info_shape(ip, p);
    lemma_info_shape(ip2, q);
    let ap = text(p.username) + info_tail(p);
    let aq = text(q.username) + info_tail(q);
    lemma_text_prefix(ip, be(p.id as nat, 16) + ap, ip2, be(q.id as nat, 16) + aq);
    lemma_id_prefix(p.id, ap, q.id, aq);
    lemma_text_prefix(p.username, info_tail(p), q.username, info_tail(q));
    law_varint_round_trip(signed(p.properties.len()), properties_bytes(p.properties));
    law_varint_round_trip(signed(q.properties.len()), properties_bytes(q.properties));
    lemma_properties_injective(p.properties, q.properties);
}

proof fn lemma_pieces_head(a: Seq<char>, c: char, rest: Seq<char>)
    requires
        !a.contains(c),
    ensures
        pieces(a + seq![c] + rest, c) == seq![a] + pieces(rest, c),
{
    let s = a + seq![c] + rest;
    assert forall|j: int| 0 <= j < a.len() implies s[j] != c by {
        assert(a.contains(a[j]));
    }
    crate::text::lemma_position_is(s, c, a.len() as int);
    assert(s.take(a.len() as int) == a);
    assert(s.skip(a.len() as int + 1) == rest);
}

/// A BungeeCord host whose parts hold no NUL splits at NUL into exactly its four parts.
pub proof fn law_bungeecord_host_splits(
    host: Seq<char>,
    client_ip: Seq<char>,
    id: u128,
    json: Seq<char>,
)
    requires
        !host.contains('\0'),
        !client_ip.contains('\0'),
        !json.contains('\0'),
    ensures
        pieces(bungeecord_host(host, client_ip, id, json), '\0') == seq![
            host,
            client_ip,
            uuid_simple_text(id),
            json,
        ],
{
    let u = uuid_simple_text(id);
    assert(!u.contains('\0')) by {
        assert forall|i: int| 0 <= i < u.len() implies u[i] != '\0' by {}
    }
    let tail2 = u + seq!['\0'] + json;
    let tail1 = client_ip + seq!['\0'] + tail2;
    assert(bungeecord_host(host, client_ip, id, json) == host + seq!['\0'] + tail1);
    lemma_pieces_head(host, '\0', tail1);
    lemma_pieces_head(client_ip, '\0', tail2);
    lemma_pieces_head(u, '\0', json);
    crate::text::lemma_position_of(json, '\0');
    assert(pieces(json, '\0') == seq![json]);
    assert(pieces(bungeecord_host(host, client_ip, id, json), '\0') =~= seq![host, client_ip, u, json]);
}

/// A text as a backend reads it: the number of its bytes, then the bytes.
pub open spec fn counted(s: Seq<char>) -> Seq<u8> {
    varint(encode_utf8(s).len() as i32) + encode_utf8(s)
}

/// What is written of a player stands in this order: the address, sixteen bytes of identifier with
/// the highest first, the name, the number of properties, and the properties one after the other:
/// of each its name, its value, and whether it is signed, with the signature where it is.
pub proof fn law_player_info_layout(ip: Seq<char>, p: PlayerModel, ps: Seq<PropertyModel>)
    requires
        p.properties.len() <= i32::MAX,
        ps.len() > 0,
    ensures
        player_info(ip, p) == counted(ip) + be(p.id as nat, 16) + counted(p.username) + varint(
            p.properties.len() as i32,
        ) + properties_bytes(p.properties),
        properties_bytes(Seq::<PropertyModel>::empty()).len() == 0,
        properties_bytes(ps) == counted(ps[0].name) + counted(ps[0].value) + (
        match ps[0].signature {
            Some(s) => seq![1u8] + counted(s),
            None => seq![0u8],
        }) + properties_bytes(ps.skip(1)),
{
    lemma_properties_front(ps);
    assert(text(ip) == counted(ip));
    assert(text(p.username) == counted(p.username));
    assert(text(ps[0].name) == counted(ps[0].name));
    assert(text(ps[0].value) == counted(ps[0].value));
    if let Some(s) = ps[0].signature {
        assert(text(s) == counted(s));
    }
}

/// Velocity's player data: the code of the body under the secret, then the body, which begins with
/// its version and tells who this player is. They are refused only without a secret, and where a
/// text of theirs cannot be written.
pub proof fn law_velocity_payload_is_authentic(secret: Seq<char>, ip: Seq<char>, p: PlayerModel)
    ensures
        velocity_payload(secret, ip, p) matches Ok(d) ==> d == hmac_sha256_of(
            encode_utf8(secret),
            seq![4u8] + player_info(ip, p),
        ) + (seq![4u8] + player_info(ip, p)),
        velocity_payload(secret, ip, p) is Ok <==> secret.len() > 0 && info_writable(ip, p),
        secret.len() == 0 ==> velocity_payload(secret, ip, p) == Err::<
            Seq<u8>,
            ForwardingErrorModel,
        >(ForwardingError::MissingVelocitySecret),
{
    assert(varint(VELOCITY_FORWARDING_VERSION) =~= seq![4u8]);
}

/// Vine's player data: a signature of the body under the secret's key, then the body. They are
/// refused only without a secret, and where a text of theirs cannot be written.
pub proof fn law_vine_payload_is_signed(
    secret: Seq<char>,
    ip: Seq<char>,
    p: PlayerModel,
    challenge: Seq<u8>,
    now: u64,
)
    ensures
        ({
            let body = seq![1u8] + be(now as nat, 8) + challenge + player_info(ip, p);
            vine_payload(secret, ip, p, challenge, now) matches Ok(d) ==> vine_seed(
                secret,
            ) matches Some(seed) && d == ed25519_signature_of(seed, body) + body
        }),
        vine_payload(secret, ip, p, challenge, now) is Ok <==> vine_seed(secret) is Some
            && info_writable(ip, p),
        vine_seed(secret) is None ==> vine_payload(secret, ip, p, challenge, now) == Err::<
            Seq<u8>,
            ForwardingErrorModel,
        >(ForwardingError::MissingVineSecret),
{
    assert(varint(VINE_FORWARDING_VERSION) =~= seq![1u8]);
}

/// A secret of sixty-four hexadecimal digits is the seed itself, any other text is hashed, and a
/// blank one is none. White space around it does not count.
pub proof fn law_seed_of_a_secret(secret: Seq<char>)
    ensures
        ({
            let s = trimmed(secret);
            &&& vine_seed(secret) is None <==> s.len() == 0
            &&& (s.len() > 0 && all_hex(s) && s.len() == 64) ==> vine_seed(secret) == hex_bytes(s)
            &&& (s.len() > 0 && !(all_hex(s) && s.len() == 64)) ==> vine_seed(secret) == Some(
                sha256_of(encode_utf8(s)),
            )
        }),
{
    let s = trimmed(secret);
    if all_hex(s) {
        lemma_hex_is_ascii(s);
    }
}

/// What is built for a backend is about the player and the address that were given, under the
/// secret that was given.
pub proof fn law_payloads_are_about_their_player(
    secret: &str,
    ip: &str,
    host: &str,
    p: AuthenticatedPlayer,
    json: &str,
    challenge: &[u8],
    now: u64,
    h: String,
    v: Result<Vec<u8>, ForwardingError>,
    w: Result<Vec<u8>, ForwardingError>,
)
    requires
        call_ensures(
            ForwardingHelper::build_bungeecord_host,
            (host, ip, &p, Some::<&str>(json)),
            h,
        ),
        call_ensures(ForwardingHelper::build_velocity_payload, (secret, ip, &p), v),
        call_ensures(
            ForwardingHelper::build_vine_payload_at,
            (secret, ip, &p, challenge, now),
            w,
        ),
    ensures
        h@ == host@ + seq!['\0'] + ip@ + seq!['\0'] + uuid_simple_text(p.id) + seq!['\0'] + json@,
        v is Ok <==> secret@.len() > 0 && info_writable(ip@, p@),
        v matches Ok(d) ==> d@ == hmac_sha256_of(
            encode_utf8(secret@),
            seq![4u8] + player_info(ip@, p@),
        ) + (seq![4u8] + player_info(ip@, p@)),
        w is Ok <==> vine_seed(secret@) is Some && info_writable(ip@, p@),
        w matches Ok(d) ==> d@.skip(64) == vine_body(now, challenge@, ip@, p@) && vine_signed(
            secret@,
            d@,
        ),
{
    law_velocity_payload_is_authentic(secret@, ip@, p@);
    law_vine_payload_is_signed(secret@, ip@, p@, challenge@, now);
}

/// A secret's signing key has the secret's seed, and the public key that a backend is given is that
/// seed's, in hexadecimal.
pub proof fn law_keys_are_the_secrets(
    secret: &str,
    k: Result<SigningKey, ForwardingError>,
    t: Result<String, ForwardingError>,
)
    requires
        call_ensures(ForwardingHelper::get_vine_signing_key, (secret,), k),
        call_ensures(ForwardingHelper::get_vine_public_key_hex, (secret,), t),
    ensures
        k is Ok <==> trimmed(secret@).len() > 0,
        t is Ok <==> trimmed(secret@).len() > 0,
        k matches Ok(key) ==> vine_seed(secret@) == Some(key.seed()),
        t matches Ok(x) ==> x@ == hex_text(ed25519_public_of(vine_seed(secret@)->Some_0)),
{
}

} // verus!
