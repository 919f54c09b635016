use ethers::signers::{LocalWallet, Signer};
use ethers::utils::hash_message;
use wallet_auth::directory::Directory;
use wallet_auth::nonce::NonceStore;
use wallet_auth::service::{
    login_with_nonce,
    bind_enterprise, challenge, get_enterprise_info, login, AuthError, BindEnterpriseRequest,
    ChallengeRequest, LoginRequest,
};
use wallet_auth::signer::{recover_address, RecoveryError};

const KEY: &str = "4c0883a69102937d6231471b5dbb6204fe5129617082792ae468d01a3f362318";
const SECRET: &[u8] = b"test-signing-secret";

fn wallet() -> LocalWallet {
    KEY.parse::<LocalWallet>().unwrap()
}

fn wallet_address_text(w: &LocalWallet) -> String {
    format!("0x{}", hex::encode(w.address().as_bytes()))
}

fn sign(w: &LocalWallet, message: &str) -> String {
    w.sign_hash(hash_message(message)).unwrap().to_string()
}

fn claims_of(token: &str) -> serde_json::Value {
    let key = jsonwebtoken::DecodingKey::from_secret(SECRET);
    let validation = jsonwebtoken::Validation::new(jsonwebtoken::Algorithm::HS256);
    jsonwebtoken::decode::<serde_json::Value>(token, &key, &validation).unwrap().claims
}

fn a40() -> String {
    format!("0x{}", "a".repeat(40))
}

#[test]
fn challenge_accepts_well_formed_address() {
    let mut store = NonceStore::new();
    let resp = challenge(&mut store, &ChallengeRequest { address: a40() }).unwrap();
    assert_eq!(resp.request_id.len(), 36);
    assert!(resp.nonce.starts_with("pharos-auth-"));
    assert_eq!(resp.nonce.len(), 12 + 64);
}

#[test]
fn challenge_rejects_malformed_addresses() {
    let mut store = NonceStore::new();
    let bad = vec![
        "0x123".to_string(),
        String::new(),
        format!("1x{}", "a".repeat(40)),
        format!("0x{}", "a".repeat(41)),
        format!("0x{}", "a".repeat(39)),
    ];
    for b in bad {
        let r = challenge(&mut store, &ChallengeRequest { address: b });
        assert_eq!(r.err(), Some(AuthError::InvalidAddress));
    }
    assert_eq!(AuthError::InvalidAddress.status_code(), 400);
}

#[test]
fn challenges_get_distinct_ids_and_nonces() {
    let mut store = NonceStore::new();
    let a = challenge(&mut store, &ChallengeRequest { address: a40() }).unwrap();
    let b = challenge(&mut store, &ChallengeRequest { address: a40() }).unwrap();
    assert_ne!(a.request_id, b.request_id);
    assert_ne!(a.nonce, b.nonce);
}

#[test]
fn nonce_is_taken_once() {
    let mut store = NonceStore::new();
    let (id, nonce) = store.issue();
    assert_eq!(store.take(&id), Some(nonce));
    assert_eq!(store.take(&id), None);
    assert_eq!(store.take(&id), None);
}

#[test]
fn nonce_unknown_id_is_absent() {
    let mut store = NonceStore::new();
    let _ = store.issue();
    assert_eq!(store.take(&"no-such-id".to_string()), None);
}

#[test]
fn nonce_past_lifetime_is_gone() {
    let mut store = NonceStore::with_policy(100, 0);
    let (id, _) = store.issue();
    assert_eq!(store.take(&id), None);
}

#[test]
fn nonce_within_lifetime_is_kept() {
    let mut store = NonceStore::with_policy(100, 60);
    let (id, nonce) = store.issue();
    assert_eq!(store.take(&id), Some(nonce));
}

#[test]
fn end_to_end_login_replay_bind_and_info() {
    let w = wallet();
    let expected = wallet_address_text(&w);
    let mut store = NonceStore::new();
    let mut dir = Directory::new();

    let ch = challenge(&mut store, &ChallengeRequest { address: a40() }).unwrap();
    let body = LoginRequest { request_id: ch.request_id.clone(), signature: sign(&w, &ch.nonce) };
    let resp = login(&mut store, &mut dir, SECRET, &body).unwrap();
    assert_eq!(resp.wallet_address, expected);
    let claims = claims_of(&resp.token);
    assert_eq!(claims["sub"], serde_json::Value::from(expected.clone()));
    assert_eq!(claims["role"], serde_json::Value::from("investor"));
    let now = chrono::Utc::now().timestamp();
    let exp = claims["exp"].as_i64().unwrap();
    assert!(exp > now + 86400 - 60 && exp <= now + 86400);

    let replay = login(&mut store, &mut dir, SECRET, &body);
    assert_eq!(replay.err(), Some(AuthError::NonceNotFound));
    assert_eq!(AuthError::NonceNotFound.status_code(), 400);

    let unknown = BindEnterpriseRequest { enterprise_address: format!("0x{}", "b".repeat(40)) };
    let bound = bind_enterprise(&mut dir, &resp.wallet_address, &unknown);
    assert_eq!(bound, Err(AuthError::EnterpriseNotFound));
    assert_eq!(AuthError::EnterpriseNotFound.status_code(), 404);

    let info = get_enterprise_info(&dir, &resp.wallet_address).unwrap();
    assert!(!info.is_enterprise_bound);
    assert_eq!(info.enterprise_name, None);
    assert_eq!(info.enterprise_address, None);
    assert_eq!(info.enterprise_id, None);
}

#[test]
fn repeated_login_keeps_one_identity() {
    let w = wallet();
    let mut store = NonceStore::new();
    let mut dir = Directory::new();
    let mut tokens = Vec::new();
    for _ in 0..2 {
        let ch = challenge(&mut store, &ChallengeRequest { address: a40() }).unwrap();
        let body = LoginRequest { request_id: ch.request_id, signature: sign(&w, &ch.nonce) };
        tokens.push(login(&mut store, &mut dir, SECRET, &body).unwrap().token);
    }
    assert_eq!(claims_of(&tokens[0])["user_id"], claims_of(&tokens[1])["user_id"]);
}

#[test]
fn login_with_unknown_request_id_fails() {
    let mut store = NonceStore::new();
    let mut dir = Directory::new();
    let body = LoginRequest { request_id: "missing".to_string(), signature: "00".repeat(65) };
    assert_eq!(login(&mut store, &mut dir, SECRET, &body).err(), Some(AuthError::NonceNotFound));
}

#[test]
fn login_with_malformed_signature_burns_the_challenge() {
    let mut store = NonceStore::new();
    let mut dir = Directory::new();
    let ch = challenge(&mut store, &ChallengeRequest { address: a40() }).unwrap();
    let body = LoginRequest { request_id: ch.request_id.clone(), signature: "not-hex".to_string() };
    assert_eq!(login(&mut store, &mut dir, SECRET, &body).err(), Some(AuthError::InvalidSignatureFormat));
    let w = wallet();
    let retry = LoginRequest { request_id: ch.request_id, signature: sign(&w, &ch.nonce) };
    assert_eq!(login(&mut store, &mut dir, SECRET, &retry).err(), Some(AuthError::NonceNotFound));
}

#[test]
fn login_with_unrecoverable_signature_is_unauthorized() {
    let mut store = NonceStore::new();
    let mut dir = Directory::new();
    let ch = challenge(&mut store, &ChallengeRequest { address: a40() }).unwrap();
    let body = LoginRequest { request_id: ch.request_id, signature: "00".repeat(65) };
    assert_eq!(login(&mut store, &mut dir, SECRET, &body).err(), Some(AuthError::InvalidSignature));
    assert_eq!(AuthError::InvalidSignature.status_code(), 401);
}

#[test]
fn recovery_ignores_signature_casing() {
    let w = wallet();
    let sig = sign(&w, "pharos-auth-00");
    let lower = recover_address("pharos-auth-00", &sig.to_lowercase()).unwrap();
    let upper = recover_address("pharos-auth-00", &sig.to_uppercase()).unwrap();
    assert_eq!(lower, upper);
    assert_eq!(lower, lower.to_lowercase());
    assert_eq!(lower, wallet_address_text(&w));
}

#[test]
fn recovery_reports_malformed_and_unrecoverable() {
    assert_eq!(recover_address("m", "zz"), Err(RecoveryError::Malformed));
    assert_eq!(recover_address("m", &"00".repeat(64)), Err(RecoveryError::Malformed));
    assert_eq!(recover_address("m", &"00".repeat(65)), Err(RecoveryError::Unrecoverable));
}

#[test]
fn recovery_of_other_message_gives_other_signer() {
    let w = wallet();
    let sig = sign(&w, "pharos-auth-01");
    let other = recover_address("pharos-auth-02", &sig).unwrap();
    assert_ne!(other, wallet_address_text(&w));
}

#[test]
fn recovery_accepts_hex_prefix() {
    let w = wallet();
    let sig = sign(&w, "pharos-auth-03");
    let bare = recover_address("pharos-auth-03", &sig).unwrap();
    assert_eq!(recover_address("pharos-auth-03", &format!("0x{}", sig)).unwrap(), bare);
    assert_eq!(recover_address("pharos-auth-03", &format!("0X{}", sig.to_uppercase())).unwrap(), bare);
    assert_eq!(recover_address("pharos-auth-03", &format!("0x0x{}", sig)), Err(RecoveryError::Malformed));
}

#[test]
fn request_id_is_hyphenated_lowercase_uuid_v4() {
    let mut store = NonceStore::new();
    let resp = challenge(&mut store, &ChallengeRequest { address: a40() }).unwrap();
    let id: Vec<char> = resp.request_id.chars().collect();
    assert_eq!(id.len(), 36);
    for (i, c) in id.iter().enumerate() {
        if [8, 13, 18, 23].contains(&i) {
            assert_eq!(*c, '-');
        } else {
            assert!(c.is_ascii_hexdigit() && !c.is_ascii_uppercase());
        }
    }
    assert_eq!(id[14], '4');
    assert!(['8', '9', 'a', 'b'].contains(&id[19]));
}

#[test]
fn login_with_nonce_reports_each_outcome() {
    let w = wallet();
    let mut dir = Directory::new();
    let nonce = "pharos-auth-abc".to_string();
    let malformed = login_with_nonce(&mut dir, SECRET, &nonce, &"xyz".to_string());
    assert_eq!(malformed.err(), Some(AuthError::InvalidSignatureFormat));
    let unrecoverable = login_with_nonce(&mut dir, SECRET, &nonce, &"00".repeat(65));
    assert_eq!(unrecoverable.err(), Some(AuthError::InvalidSignature));
    assert_eq!(dir.find_user(&wallet_address_text(&w)), None);
    let ok = login_with_nonce(&mut dir, SECRET, &nonce, &sign(&w, &nonce)).unwrap();
    assert_eq!(ok.wallet_address, wallet_address_text(&w));
    assert_eq!(ok.wallet_address.len(), 42);
    assert!(dir.find_user(&ok.wallet_address).is_some());
    assert_eq!(claims_of(&ok.token)["sub"], serde_json::Value::from(ok.wallet_address.clone()));
}
