use echo_server::claims::{Claims, ACCESS_TTL_SECS, REFRESH_TTL_SECS};
use echo_server::error::Error;
use echo_server::session::{SessionStore, Token, TokenKind, TokenResponse};
use echo_server::token::{TokenController, TokenManager};
use echo_server::user::{User, UserType};

fn manager() -> TokenManager {
    TokenManager::new(b"process-wide signing secret".to_vec())
}

fn identity(id: &str) -> User {
    User {
        id: id.to_string(),
        user_type: UserType::User,
        email: None,
        password_hash: None,
        name: None,
        avatar_seed: None,
    }
}

fn mint(store: &mut SessionStore, m: &TokenManager, user: &User, device: &str) -> TokenResponse {
    TokenController::create_or_update(store, m, user, device).expect("mint")
}

fn is_lower_hex(s: &str) -> bool {
    s.chars().all(|c| c.is_ascii_digit() || ('a'..='f').contains(&c))
}

fn flip_hex(s: &str, at: usize) -> String {
    let mut chars: Vec<char> = s.chars().collect();
    chars[at] = if chars[at] == '0' { '1' } else { '0' };
    chars.into_iter().collect()
}

#[test]
fn round_trip_access_yields_identity() {
    let m = manager();
    let mut store = SessionStore::new();
    let user = identity("user:7");
    let pair = mint(&mut store, &m, &user, "device-a");
    let claims = m.validate_access_token(&store, &pair.token).expect("valid access");
    assert_eq!(claims.sub, "user:7");
}

#[test]
fn round_trip_refresh_yields_identity() {
    let m = manager();
    let mut store = SessionStore::new();
    let user = identity("user:7");
    let pair = mint(&mut store, &m, &user, "device-a");
    let refresh = pair.refresh_token.expect("refresh string");
    let claims = m.validate_refresh_token(&store, &refresh).expect("valid refresh");
    assert_eq!(claims.sub, "user:7");
}

#[test]
fn access_and_refresh_expiries_differ_by_ttl() {
    let m = manager();
    let mut store = SessionStore::new();
    let user = identity("user:1");
    let key = [7u8; 32];
    let n1 = [1u8; 24];
    let n2 = [2u8; 24];
    let now_ms: u64 = 1_700_000_000_123;
    let pair = TokenController::mint_at(&mut store, &m, &user, "d", now_ms, &key, &n1, &n2).unwrap();
    let access = m.validate_at(&store, &pair.token, TokenKind::Access, 1_700_000_000).unwrap();
    let refresh = m
        .validate_at(&store, pair.refresh_token.as_deref().unwrap(), TokenKind::Refresh, 1_700_000_000)
        .unwrap();
    assert_eq!(access.iat, now_ms);
    assert_eq!(access.exp, 1_700_000_000 + 10_800);
    assert_eq!(refresh.exp, 1_700_000_000 + 2_592_000);
    assert_eq!(ACCESS_TTL_SECS, 10_800);
    assert_eq!(REFRESH_TTL_SECS, 2_592_000);
}

#[test]
fn rotation_invalidates_first_access() {
    let m = manager();
    let mut store = SessionStore::new();
    let user = identity("user:1");
    let first = mint(&mut store, &m, &user, "device-a");
    let second = mint(&mut store, &m, &user, "device-a");
    assert_ne!(first.token, second.token);
    assert_eq!(store.len(), 1);
    assert!(matches!(m.validate_access_token(&store, &first.token), Err(Error::TokenMismatch)));
    assert!(matches!(
        m.validate_refresh_token(&store, first.refresh_token.as_deref().unwrap()),
        Err(Error::TokenMismatch)
    ));
    assert_eq!(m.validate_access_token(&store, &second.token).unwrap().sub, "user:1");
}

#[test]
fn device_isolation_keeps_other_device_valid() {
    let m = manager();
    let mut store = SessionStore::new();
    let user = identity("user:1");
    let on_b = mint(&mut store, &m, &user, "device-b");
    let _on_a = mint(&mut store, &m, &user, "device-a");
    let _again_a = mint(&mut store, &m, &user, "device-a");
    assert_eq!(store.len(), 2);
    assert_eq!(m.validate_access_token(&store, &on_b.token).unwrap().sub, "user:1");
}

#[test]
fn nonces_do_not_repeat_across_mints() {
    let m = manager();
    let mut store = SessionStore::new();
    let user = identity("user:1");
    let mut firsts = std::collections::HashSet::new();
    let mut seconds = std::collections::HashSet::new();
    for _ in 0..300 {
        mint(&mut store, &m, &user, "device-a");
        let row = TokenController::get_by_device(&store, "device-a").unwrap();
        let nonce = row.nonce.unwrap();
        let (a, b) = nonce.split_once(':').unwrap();
        assert_eq!(a.len(), 48);
        assert_eq!(b.len(), 48);
        assert!(firsts.insert(a.to_string()));
        assert!(seconds.insert(b.to_string()));
    }
}

#[test]
fn expiry_boundary_one_second_each_side() {
    let m = manager();
    let user = identity("user:3");
    let claims = Claims::new(&user, 60, 1_000_000_000_000);
    assert_eq!(claims.exp, 1_000_000_060);
    let token = m.generate(&claims).unwrap();
    let past = m.check_assertion(token.as_bytes(), claims.exp + 1);
    assert!(matches!(past, Err(Error::Unauthorized)));
    let future = m.check_assertion(token.as_bytes(), claims.exp - 1).unwrap();
    assert_eq!(future.sub, "user:3");
    assert_eq!(future.exp, claims.exp);
    assert_eq!(future.iat, claims.iat);
}

#[test]
fn expired_session_is_unauthorized_not_mismatch() {
    let m = manager();
    let mut store = SessionStore::new();
    let user = identity("user:1");
    let pair = TokenController::mint_at(&mut store, &m, &user, "d", 5_000, &[3u8; 32], &[4u8; 24], &[5u8; 24])
        .unwrap();
    let exp = 5 + ACCESS_TTL_SECS;
    assert!(m.validate_at(&store, &pair.token, TokenKind::Access, exp).is_ok());
    assert!(matches!(
        m.validate_at(&store, &pair.token, TokenKind::Access, exp + 1),
        Err(Error::Unauthorized)
    ));
}

#[test]
fn flipped_hex_character_is_mismatch() {
    let m = manager();
    let mut store = SessionStore::new();
    let user = identity("user:1");
    let pair = mint(&mut store, &m, &user, "device-a");
    for at in [0, 17, pair.token.len() - 1] {
        let altered = flip_hex(&pair.token, at);
        assert!(matches!(m.validate_access_token(&store, &altered), Err(Error::TokenMismatch)));
    }
    let refresh = pair.refresh_token.unwrap();
    let altered = flip_hex(&refresh, 5);
    assert!(matches!(m.validate_refresh_token(&store, &altered), Err(Error::TokenMismatch)));
}

#[test]
fn unknown_and_malformed_strings_are_mismatch() {
    let m = manager();
    let mut store = SessionStore::new();
    let user = identity("user:1");
    let pair = mint(&mut store, &m, &user, "device-a");
    assert!(matches!(m.validate_access_token(&store, ""), Err(Error::TokenMismatch)));
    assert!(matches!(m.validate_access_token(&store, "not hex at all"), Err(Error::TokenMismatch)));
    let refresh = pair.refresh_token.unwrap();
    assert!(matches!(m.validate_access_token(&store, &refresh), Err(Error::TokenMismatch)));
    assert!(matches!(m.validate_refresh_token(&store, &pair.token), Err(Error::TokenMismatch)));
}

#[test]
fn stored_record_layout() {
    let m = manager();
    let mut store = SessionStore::new();
    let user = identity("user:9");
    let pair = mint(&mut store, &m, &user, "device-a");
    let row = TokenController::get_by_device(&store, "device-a").unwrap();
    let key = row.key.clone().unwrap();
    assert_eq!(key.len(), 64);
    assert!(is_lower_hex(&key));
    assert!(is_lower_hex(&row.access_token));
    assert_eq!(row.access_token, pair.token);
    assert_eq!(row.refresh_token, pair.refresh_token);
    assert_eq!(row.user_id, "user:9");
    assert_eq!(row.device_id, "device-a");
    let plain = m.generate(&Claims::new(&user, ACCESS_TTL_SECS, 0)).unwrap();
    assert_eq!(plain.split('.').count(), 3);
    assert!(!pair.token.contains('.'));
    let by_access = TokenController::get_by_access_token(&store, &pair.token).unwrap();
    assert_eq!(by_access.id, row.id);
    let by_refresh = TokenController::get_by_refresh_token(&store, pair.refresh_token.as_deref().unwrap()).unwrap();
    assert_eq!(by_refresh.id, row.id);
    assert!(TokenController::get_by_device(&store, "device-b").is_none());
}

#[test]
fn same_material_on_two_devices_identifies_neither() {
    let m = manager();
    let mut store = SessionStore::new();
    let user = identity("user:1");
    let key = [9u8; 32];
    let n1 = [8u8; 24];
    let n2 = [6u8; 24];
    let a = TokenController::mint_at(&mut store, &m, &user, "d1", 1_000, &key, &n1, &n2).unwrap();
    let b = TokenController::mint_at(&mut store, &m, &user, "d2", 1_000, &key, &n1, &n2).unwrap();
    assert_eq!(a.token, b.token);
    assert!(TokenController::get_by_access_token(&store, &a.token).is_none());
    assert!(matches!(m.validate_at(&store, &a.token, TokenKind::Access, 1), Err(Error::TokenMismatch)));
}

#[test]
fn wrong_secret_is_unauthorized() {
    let m = manager();
    let other = TokenManager::new(b"another secret".to_vec());
    let mut store = SessionStore::new();
    let user = identity("user:1");
    let pair = mint(&mut store, &m, &user, "device-a");
    assert!(matches!(other.validate_access_token(&store, &pair.token), Err(Error::Unauthorized)));
}

fn row_like(t: &Token) -> Token {
    t.duplicate()
}

#[test]
fn corrupt_rows_degrade_to_mismatch() {
    let m = manager();
    let mut store = SessionStore::new();
    let user = identity("user:1");
    let pair = mint(&mut store, &m, &user, "device-a");
    let row = TokenController::get_by_device(&store, "device-a").unwrap();
    assert!(m.open_session(&row, &pair.token, TokenKind::Access, 0).is_ok());

    let mut no_key = row_like(&row);
    no_key.key = None;
    assert!(matches!(m.open_session(&no_key, &pair.token, TokenKind::Access, 0), Err(Error::TokenMismatch)));

    let mut no_nonce = row_like(&row);
    no_nonce.nonce = None;
    assert!(matches!(m.open_session(&no_nonce, &pair.token, TokenKind::Access, 0), Err(Error::TokenMismatch)));

    let mut bad_key = row_like(&row);
    bad_key.key = Some("zz".repeat(32));
    assert!(matches!(m.open_session(&bad_key, &pair.token, TokenKind::Access, 0), Err(Error::TokenMismatch)));

    let mut short_key = row_like(&row);
    short_key.key = Some("ab".repeat(16));
    assert!(matches!(m.open_session(&short_key, &pair.token, TokenKind::Access, 0), Err(Error::TokenMismatch)));

    let mut no_colon = row_like(&row);
    no_colon.nonce = Some(row.nonce.clone().unwrap().replace(':', ""));
    assert!(matches!(m.open_session(&no_colon, &pair.token, TokenKind::Access, 0), Err(Error::TokenMismatch)));

    let mut swapped = row_like(&row);
    let nonce = row.nonce.clone().unwrap();
    let (a, b) = nonce.split_once(':').unwrap();
    swapped.nonce = Some(format!("{b}:{a}"));
    assert!(matches!(m.open_session(&swapped, &pair.token, TokenKind::Access, 0), Err(Error::TokenMismatch)));
}

#[test]
fn access_string_is_sealed_assertion() {
    let m = manager();
    let mut store = SessionStore::new();
    let user = identity("user:4");
    let now_ms: u64 = 42_000;
    let pair = TokenController::mint_at(&mut store, &m, &user, "d", now_ms, &[1u8; 32], &[2u8; 24], &[3u8; 24])
        .unwrap();
    let assertion = m.generate(&Claims::new(&user, ACCESS_TTL_SECS, now_ms)).unwrap();
    let sealed = hex::decode(&pair.token).unwrap();
    assert_eq!(sealed.len(), assertion.len() + 16);
    assert_ne!(&sealed[..assertion.len()], assertion.as_bytes());
}
