use rsa::pkcs8::{DecodePublicKey, EncodePrivateKey};
use sha1::{Digest, Sha1};
use vine::auth::{
    AuthError, AuthenticatedPlayer, Authenticator, KeyStore, MojangSessionResponse, Property,
};

fn encrypted(store: &KeyStore, data: &[u8]) -> Vec<u8> {
    let key = rsa::RsaPublicKey::from_public_key_der(store.public_key_der()).unwrap();
    key.encrypt(&mut rsa::rand_core::OsRng, rsa::Pkcs1v15Encrypt, data).unwrap()
}

#[test]
fn what_is_encrypted_for_the_proxy_can_be_decrypted() {
    let store = KeyStore::new().unwrap();
    let sealed = encrypted(&store, b"secret");
    assert_ne!(sealed, b"secret");
    assert_eq!(store.decrypt(&sealed), Ok(b"secret".to_vec()));
    assert!(matches!(store.decrypt(b"nonsense"), Err(AuthError::DecryptError(_))));
    assert!(KeyStore::from_private(vec![1, 2, 3]).is_err());
    assert!(KeyStore::from_generated(Ok(vec![1, 2, 3])).is_err());
    let refused = KeyStore::from_generated(Err("no entropy".to_string()));
    assert_eq!(refused.err().as_deref(), Some("no entropy"));
}

#[test]
fn a_key_with_unequal_primes_still_answers() {
    let one = rsa::BigUint::from(1u8);
    let order = &one << 512;
    let q = &order + &one;
    let p = rsa::BigUint::from(3u8);
    let n = &p * &q;
    let e = rsa::BigUint::from(65537u32);
    let d = e.modpow(&((&one << 510) - &one), &order);
    let key = rsa::RsaPrivateKey::from_components(n, e, d, vec![p, q]).unwrap();
    let der = key.to_pkcs8_der().unwrap().as_bytes().to_vec();
    let store = KeyStore::from_private(der).unwrap();
    for n in 2..8u8 {
        assert!(matches!(store.decrypt(&[n]), Err(AuthError::DecryptError(_))));
    }
}

#[test]
fn the_server_hash_is_a_signed_number() {
    let store = KeyStore::new().unwrap();
    for n in 0u8..8 {
        let mut hasher = Sha1::new();
        hasher.update(b"id");
        hasher.update([n; 16]);
        hasher.update(store.public_key_der());
        let digest = hasher.finalize();
        let expected =
            num_bigint::BigInt::from_signed_bytes_be(digest.as_slice()).to_str_radix(16);
        assert_eq!(store.auth_digest("id", &[n; 16]), expected);
    }
}

#[test]
fn offline_players_are_known_by_name() {
    let steve = AuthenticatedPlayer::offline("Steve");
    let expected = uuid::Uuid::new_v3(&uuid::Uuid::nil(), b"OfflinePlayer:Steve");
    assert_eq!(steve.id, expected.as_u128());
    assert_eq!(steve.username, "Steve");
    assert!(steve.properties.is_empty());
    assert_ne!(steve.id, AuthenticatedPlayer::offline("steve").id);
    assert_eq!(steve.clone(), steve);
}

#[test]
fn the_session_service_is_asked() {
    assert_eq!(
        Authenticator::session_url("Alex", "-abc", "1.2.3.4", false),
        "https://sessionserver.mojang.com/session/minecraft/hasJoined?username=Alex&serverId=-abc"
    );
    assert_eq!(
        Authenticator::session_url("Alex", "-abc", "1.2.3.4", true),
        "https://sessionserver.mojang.com/session/minecraft/hasJoined?username=Alex&serverId=-abc&ip=1.2.3.4"
    );
    assert_eq!(Authenticator::check_status(200), Ok(()));
    assert_eq!(Authenticator::check_status(204), Ok(()));
    assert_eq!(Authenticator::check_status(302), Err(AuthError::MojangAuthFailed(302)));
    assert_eq!(Authenticator::check_status(403), Err(AuthError::MojangAuthFailed(403)));
}

#[test]
fn the_session_services_answer_is_read() {
    let profile = |id: &str| MojangSessionResponse {
        id: id.to_string(),
        name: "Alex".to_string(),
        properties: vec![Property {
            name: "textures".to_string(),
            value: "v".to_string(),
            signature: None,
        }],
    };
    let player = Authenticator::player_of(profile("069a79f444e94726a5befca90e38aaf5")).unwrap();
    assert_eq!(player.id, 0x069a79f4_44e9_4726_a5be_fca90e38aaf5);
    assert_eq!(player.username, "Alex");
    assert_eq!(player.properties.len(), 1);
    assert!(matches!(
        Authenticator::player_of(profile("nonsense")),
        Err(AuthError::InvalidUuid(_))
    ));
    assert_eq!(Authenticator::player_with_id(Ok(7), profile("x")).unwrap().id, 7);
    assert_eq!(
        Authenticator::player_with_id(Err("bad".to_string()), profile("x")),
        Err(AuthError::InvalidUuid("bad".to_string()))
    );
}

#[test]
fn auth_errors_have_words() {
    assert_eq!(
        AuthError::MojangAuthFailed(403).message(),
        "Mojang authentication failed (status: 403)"
    );
    assert_eq!(AuthError::VerifyTokenMismatch.message(), "Verify token mismatch");
    for e in [
        AuthError::DecryptError("x".to_string()),
        AuthError::NetworkError("x".to_string()),
        AuthError::JsonError("x".to_string()),
        AuthError::InvalidUuid("x".to_string()),
    ] {
        assert!(e.message().ends_with(": x"));
    }
}
