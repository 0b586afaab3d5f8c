//! Minting, rotating and validating sessions.
use vstd::prelude::*;
use vstd::utf8::encode_utf8;

use crate::claims::{
    asserted_claims, clock_millis, expiry_fits, issued, read_claims, sign_claims, signed_assertion,
    Claims, ClaimsView, ACCESS_TTL_SECS, REFRESH_TTL_SECS,
};
use crate::encoding::{decode_hex, encode_hex, hex_decode, hex_encode};
use crate::envelope::{
    fresh_key, fresh_nonce, open, opened, seal, sealed, KEY_LEN, MESSAGE_LIMIT, NONCE_LEN,
};
use crate::error::Error;
use crate::session::{
    has_device, holder, text_of, upserted, NewToken, SessionFields, SessionStore, SessionView,
    Token, TokenKind, TokenResponse,
};
use crate::user::User;

verus! {

/// Whether `s` has no colon.
pub open spec fn colon_free(s: Seq<char>) -> bool {
    forall|i: int| 0 <= i < s.len() ==> s[i] != ':'
}

/// Whether `n` is `a`, a colon, then `b`, with no colon in `a`.
pub open spec fn splits_at_colon(n: Seq<char>, a: Seq<char>, b: Seq<char>) -> bool {
    n == a + seq![':'] + b && colon_free(a)
}

/// The text before the first colon of `n` and the text after it.
pub open spec fn nonce_pair(n: Seq<char>) -> Option<(Seq<char>, Seq<char>)> {
    if exists|a: Seq<char>, b: Seq<char>| splits_at_colon(n, a, b) {
        Some(choose|a: Seq<char>, b: Seq<char>| splits_at_colon(n, a, b))
    } else {
        None
    }
}

/// A text splits at its first colon in one way only.
pub proof fn lemma_nonce_pair(n: Seq<char>, a: Seq<char>, b: Seq<char>)
    requires
        splits_at_colon(n, a, b),
    ensures
        nonce_pair(n) == Some((a, b)),
{
    let (a2, b2) = choose|a2: Seq<char>, b2: Seq<char>| splits_at_colon(n, a2, b2);
    if a2.len() < a.len() {
        assert(n[a2.len() as int] == ':');
        assert(n[a2.len() as int] == a[a2.len() as int]);
    } else if a.len() < a2.len() {
        assert(n[a.len() as int] == ':');
        assert(n[a.len() as int] == a2[a.len() as int]);
    }
    assert(a2 =~= n.subrange(0, a.len() as int));
    assert(a =~= n.subrange(0, a.len() as int));
    assert(b2 =~= n.subrange(a.len() as int + 1, n.len() as int));
    assert(b =~= n.subrange(a.len() as int + 1, n.len() as int));
}

/// The hexadecimal nonce that a session uses for its string of the given kind.
pub open spec fn nonce_half(n: Seq<char>, kind: TokenKind) -> Option<Seq<char>> {
    match nonce_pair(n) {
        Some((a, b)) => Some(
            if kind == TokenKind::Access {
                a
            } else {
                b
            },
        ),
        None => None,
    }
}

/// The view of a validation outcome.
pub open spec fn outcome(r: Result<Claims, Error>) -> Result<ClaimsView, Error> {
    match r {
        Ok(c) => Ok(c@),
        Err(e) => Err(e),
    }
}

/// What a signed assertion, given as bytes, yields at time `now_s` (seconds):
/// its claims while they have not expired, `Unauthorized` once they have or
/// when the signature does not verify.
pub open spec fn assertion_verdict(secret: Seq<u8>, token: Seq<u8>, now_s: i64) -> Result<ClaimsView, Error> {
    match asserted_claims(secret, token) {
        Some((iat, exp, sub)) => if exp < now_s {
            Err(Error::Unauthorized)
        } else {
            Ok(ClaimsView { iat, exp, sub })
        },
        None => Err(Error::Unauthorized),
    }
}

/// What opening the session `f` with the presented string yields: a session
/// whose key, nonce or envelope cannot be read or does not open is a mismatch;
/// past that, the assertion inside decides.
pub open spec fn open_row(
    f: SessionFields,
    presented: Seq<char>,
    kind: TokenKind,
    secret: Seq<u8>,
    now_s: i64,
) -> Result<ClaimsView, Error> {
    match (f.key, f.nonce) {
        (Some(k), Some(n)) => match (hex_decode(k), nonce_half(n, kind)) {
            (Some(key), Some(h)) => match (hex_decode(h), hex_decode(presented)) {
                (Some(nonce), Some(ct)) => if key.len() == KEY_LEN && nonce.len() == NONCE_LEN {
                    match opened(key, nonce, ct) {
                        Some(msg) => assertion_verdict(secret, msg, now_s),
                        None => Err(Error::TokenMismatch),
                    }
                } else {
                    Err(Error::TokenMismatch)
                },
                _ => Err(Error::TokenMismatch),
            },
            _ => Err(Error::TokenMismatch),
        },
        _ => Err(Error::TokenMismatch),
    }
}

/// What validating `presented` against the stored sessions yields at time `now_s`.
pub open spec fn verdict(
    rows: Seq<SessionView>,
    presented: Seq<char>,
    kind: TokenKind,
    secret: Seq<u8>,
    now_s: i64,
) -> Result<ClaimsView, Error> {
    match holder(rows, presented, kind) {
        Some(row) => open_row(row.fields, presented, kind, secret, now_s),
        None => Err(Error::TokenMismatch),
    }
}

/// The signed assertion of the claims issued to `sub` at `now_ms` for `ttl` seconds.
pub open spec fn assertion_for(secret: Seq<u8>, sub: Seq<char>, ttl: i64, now_ms: u64) -> Seq<char> {
    let c = issued(sub, ttl, now_ms);
    signed_assertion(secret, c.iat, c.exp, c.sub)
}

/// The record that a mint writes for `device`.
pub open spec fn minted(
    secret: Seq<u8>,
    user_id: Seq<char>,
    device: Seq<char>,
    now_ms: u64,
    key: Seq<u8>,
    n1: Seq<u8>,
    n2: Seq<u8>,
) -> SessionFields {
    SessionFields {
        access: hex_encode(
            sealed(key, n1, encode_utf8(assertion_for(secret, user_id, ACCESS_TTL_SECS, now_ms))),
        ),
        refresh: Some(
            hex_encode(
                sealed(key, n2, encode_utf8(assertion_for(secret, user_id, REFRESH_TTL_SECS, now_ms))),
            ),
        ),
        key: Some(hex_encode(key)),
        nonce: Some(hex_encode(n1) + seq![':'] + hex_encode(n2)),
        user_id,
        device_id: device,
    }
}

/// Whether both assertions of a mint are short enough for the cipher.
pub open spec fn fits_cipher(secret: Seq<u8>, user_id: Seq<char>, now_ms: u64) -> bool {
    &&& encode_utf8(assertion_for(secret, user_id, ACCESS_TTL_SECS, now_ms)).len() < MESSAGE_LIMIT
    &&& encode_utf8(assertion_for(secret, user_id, REFRESH_TTL_SECS, now_ms)).len() < MESSAGE_LIMIT
}

/// Opening what was sealed under `key` and `nonce` gives `msg` back.
pub open spec fn sealing_sound(key: Seq<u8>, nonce: Seq<u8>, msg: Seq<u8>) -> bool {
    opened(key, nonce, sealed(key, nonce, msg)) == Some(msg)
}

/// Reading the signed assertion of `c` under `secret` gives `c` back.
pub open spec fn assertion_sound(secret: Seq<u8>, c: ClaimsView) -> bool {
    asserted_claims(secret, encode_utf8(signed_assertion(secret, c.iat, c.exp, c.sub))) == Some(
        (c.iat, c.exp, c.sub),
    )
}

/// What a successful mint has established about the assertions and envelopes it made.
pub open spec fn minted_sound(
    secret: Seq<u8>,
    user_id: Seq<char>,
    now_ms: u64,
    key: Seq<u8>,
    n1: Seq<u8>,
    n2: Seq<u8>,
) -> bool {
    &&& sealing_sound(key, n1, encode_utf8(assertion_for(secret, user_id, ACCESS_TTL_SECS, now_ms)))
    &&& sealing_sound(key, n2, encode_utf8(assertion_for(secret, user_id, REFRESH_TTL_SECS, now_ms)))
    &&& assertion_sound(secret, issued(user_id, ACCESS_TTL_SECS, now_ms))
    &&& assertion_sound(secret, issued(user_id, REFRESH_TTL_SECS, now_ms))
}

/// The outcome of minting for `user_id` on `device` at `now_ms` with the given
/// key and nonces, from the sessions `before` (next new id `fresh`) to `after`.
pub open spec fn mint_outcome(
    before: Seq<SessionView>,
    fresh: u64,
    secret: Seq<u8>,
    user_id: Seq<char>,
    device: Seq<char>,
    now_ms: u64,
    key: Seq<u8>,
    n1: Seq<u8>,
    n2: Seq<u8>,
    r: Result<TokenResponse, Error>,
    after: Seq<SessionView>,
) -> bool {
    let m = minted(secret, user_id, device, now_ms, key, n1, n2);
    &&& r is Ok <==> fits_cipher(secret, user_id, now_ms) && (has_device(before, device) || fresh
        < u64::MAX)
    &&& match r {
        Ok(resp) => {
            &&& after == upserted(before, m, fresh)
            &&& resp.token@ == m.access
            &&& text_of(resp.refresh_token) == m.refresh
            &&& minted_sound(secret, user_id, now_ms, key, n1, n2)
        },
        Err(e) => after == before && if fits_cipher(secret, user_id, now_ms) {
            e matches Error::StoreData(m) && m@ == "token"@
        } else {
            e == Error::Jwt
        },
    }
}

/// Some mint for `user_id` on `device`, with some clock reading and some key
/// and nonces of the right lengths, had outcome `r`.
pub open spec fn mints_for(
    before: Seq<SessionView>,
    fresh: u64,
    secret: Seq<u8>,
    user_id: Seq<char>,
    device: Seq<char>,
    r: Result<TokenResponse, Error>,
    after: Seq<SessionView>,
) -> bool {
    exists|now_ms: u64, key: Seq<u8>, n1: Seq<u8>, n2: Seq<u8>|
        key.len() == KEY_LEN && n1.len() == NONCE_LEN && n2.len() == NONCE_LEN && #[trigger] mint_outcome(
            before,
            fresh,
            secret,
            user_id,
            device,
            now_ms,
            key,
            n1,
            n2,
            r,
            after,
        )
}

/// Splits a stored nonce pair at its first colon.
fn split_pair(s: &str) -> (r: Option<(&str, &str)>)
    ensures
        match r {
            Some((a, b)) => nonce_pair(s@) == Some((a@, b@)),
            None => nonce_pair(s@) is None,
        },
{
    let n = s.unicode_len();
    let mut i: usize = 0;
    while i < n
        invariant
            n == s@.len(),
            0 <= i <= n,
            forall|j: int| 0 <= j < i ==> s@[j] != ':',
        decreases n - i,
    {
        if s.get_char(i) == ':' {
            let a = s.substring_char(0, i);
            let b = s.substring_char(i + 1, n);
            proof {
                assert(s@ =~= a@ + seq![':'] + b@);
                lemma_nonce_pair(s@, a@, b@);
            }
            return Some((a, b));
        }
        i = i + 1;
    }
    assert(!exists|a: Seq<char>, b: Seq<char>| splits_at_colon(s@, a, b)) by {
        if exists|a: Seq<char>, b: Seq<char>| splits_at_colon(s@, a, b) {
            let (a, b) = choose|a: Seq<char>, b: Seq<char>| splits_at_colon(s@, a, b);
            assert(s@[a.len() as int] == ':');
        }
    }
    None
}

/// The wall clock in milliseconds since the Unix epoch; a clock set before the
/// epoch reads as the epoch, one past `u64::MAX` milliseconds as that maximum.
pub(crate) fn now_millis() -> u64 {
    match clock_millis() {
        Some(ms) => if ms > u64::MAX as u128 {
            u64::MAX
        } else {
            ms as u64
        },
        None => 0,
    }
}

/// Signs and checks assertions with the one process-wide secret, and validates
/// presented strings against a session store.
pub struct TokenManager {
    secret: Vec<u8>,
}

impl TokenManager {
    /// The signing secret.
    pub closed spec fn secret(&self) -> Seq<u8> {
        self.secret@
    }

    /// A manager that signs with `secret`.
    pub fn new(secret: Vec<u8>) -> (m: TokenManager)
        ensures
            m.secret() == secret@,
    {
        TokenManager { secret }
    }

    /// The compact signed assertion of `claims`.
    pub fn generate(&self, claims: &Claims) -> (r: Result<String, Error>)
        ensures
            r is Ok,
            r is Ok ==> r->Ok_0@ == signed_assertion(self.secret(), claims.iat, claims.exp, claims.sub@),
            r is Ok ==> assertion_sound(self.secret(), claims@),
    {
        match sign_claims(self.secret.as_slice(), claims.iat, claims.exp, claims.sub.as_str()) {
            Some(t) => Ok(t),
            None => Err(Error::Jwt),
        }
    }

    /// The claims of a signed assertion at time `now_s`, unless it does not
    /// verify or has expired.
    pub fn check_assertion(&self, token: &[u8], now_s: i64) -> (r: Result<Claims, Error>)
        ensures
            outcome(r) == assertion_verdict(self.secret(), token@, now_s),
    {
        match read_claims(self.secret.as_slice(), token) {
            Some((iat, exp, sub)) => if exp < now_s {
                Err(Error::Unauthorized)
            } else {
                Ok(Claims { iat, exp, sub })
            },
            None => Err(Error::Unauthorized),
        }
    }

    /// Opens the stored session `row` with the presented string, whose kind
    /// selects the nonce.
    pub fn open_session(&self, row: &Token, presented: &str, kind: TokenKind, now_s: i64) -> (r:
        Result<Claims, Error>)
        ensures
            outcome(r) == open_row(row@.fields, presented@, kind, self.secret(), now_s),
    {
        let key_text = match &row.key {
            Some(k) => k,
            None => return Err(Error::TokenMismatch),
        };
        let nonce_text = match &row.nonce {
            Some(n) => n,
            None => return Err(Error::TokenMismatch),
        };
        let key = match decode_hex(key_text.as_str()) {
            Some(k) => k,
            None => return Err(Error::TokenMismatch),
        };
        let (first, second) = match split_pair(nonce_text.as_str()) {
            Some(p) => p,
            None => return Err(Error::TokenMismatch),
        };
        let half = match kind {
            TokenKind::Access => first,
            TokenKind::Refresh => second,
        };
        let nonce = match decode_hex(half) {
            Some(n) => n,
            None => return Err(Error::TokenMismatch),
        };
        let ct = match decode_hex(presented) {
            Some(c) => c,
            None => return Err(Error::TokenMismatch),
        };
        if key.len() != KEY_LEN || nonce.len() != NONCE_LEN {
            return Err(Error::TokenMismatch);
        }
        match open(key.as_slice(), nonce.as_slice(), ct.as_slice()) {
            Some(msg) => self.check_assertion(msg.as_slice(), now_s),
            None => Err(Error::TokenMismatch),
        }
    }

    /// Validates a presented string at time `now_s` (seconds): the one session
    /// that holds it is opened; no such session is a mismatch.
    pub fn validate_at(&self, store: &SessionStore, presented: &str, kind: TokenKind, now_s: i64) -> (r:
        Result<Claims, Error>)
        ensures
            outcome(r) == verdict(store@, presented@, kind, self.secret(), now_s),
    {
        match store.find_held(presented, kind) {
            Some(row) => self.open_session(&row, presented, kind, now_s),
            None => Err(Error::TokenMismatch),
        }
    }

    /// Validates an access string against the wall clock.
    pub fn validate_access_token(&self, store: &SessionStore, encrypted_token: &str) -> (r: Result<
        Claims,
        Error,
    >)
        ensures
            exists|now_s: i64| #[trigger]
                verdict(store@, encrypted_token@, TokenKind::Access, self.secret(), now_s) == outcome(
                    r,
                ),
    {
        let now_s = (now_millis() / 1000) as i64;
        self.validate_at(store, encrypted_token, TokenKind::Access, now_s)
    }

    /// Validates a refresh string against the wall clock.
    pub fn validate_refresh_token(&self, store: &SessionStore, encrypted_token: &str) -> (r: Result<
        Claims,
        Error,
    >)
        ensures
            exists|now_s: i64| #[trigger]
                verdict(store@, encrypted_token@, TokenKind::Refresh, self.secret(), now_s) == outcome(
                    r,
                ),
    {
        let now_s = (now_millis() / 1000) as i64;
        self.validate_at(store, encrypted_token, TokenKind::Refresh, now_s)
    }
}

/// Reads and writes session records.
pub struct TokenController;

impl TokenController {
    /// The session that alone holds `access_token` as its access string.
    pub fn get_by_access_token(store: &SessionStore, access_token: &str) -> (r: Option<Token>)
        ensures
            match r {
                Some(t) => holder(store@, access_token@, TokenKind::Access) == Some(t@),
                None => holder(store@, access_token@, TokenKind::Access) is None,
            },
    {
        store.find_held(access_token, TokenKind::Access)
    }

    /// The session that alone holds `refresh_token` as its refresh string.
    pub fn get_by_refresh_token(store: &SessionStore, refresh_token: &str) -> (r: Option<Token>)
        ensures
            match r {
                Some(t) => holder(store@, refresh_token@, TokenKind::Refresh) == Some(t@),
                None => holder(store@, refresh_token@, TokenKind::Refresh) is None,
            },
    {
        store.find_held(refresh_token, TokenKind::Refresh)
    }

    /// The session of the device `device_id`.
    pub fn get_by_device(store: &SessionStore, device_id: &str) -> (r: Option<Token>)
        requires
            store.wf(),
        ensures
            match r {
                Some(t) => has_device(store@, device_id@) && exists|i: int|
                    0 <= i < store@.len() && #[trigger] store@[i] == t@ && t@.fields.device_id
                        == device_id@,
                None => !has_device(store@, device_id@),
            },
    {
        store.find_device(device_id)
    }

    /// Mints a session for `user` on `device_id` at `now_ms` with the given key
    /// and nonces: an access assertion valid for three hours and a refresh
    /// assertion valid for thirty days, each sealed under the key with its own
    /// nonce and written as hexadecimal, then upserted as the device's one session.
    pub fn mint_at(
        store: &mut SessionStore,
        manager: &TokenManager,
        user: &User,
        device_id: &str,
        now_ms: u64,
        key: &[u8],
        access_nonce: &[u8],
        refresh_nonce: &[u8],
    ) -> (r: Result<TokenResponse, Error>)
        requires
            old(store).wf(),
            key@.len() == KEY_LEN,
            access_nonce@.len() == NONCE_LEN,
            refresh_nonce@.len() == NONCE_LEN,
        ensures
            final(store).wf(),
            mint_outcome(
                old(store)@,
                old(store).fresh_id(),
                manager.secret(),
                user.id@,
                device_id@,
                now_ms,
                key@,
                access_nonce@,
                refresh_nonce@,
                r,
                final(store)@,
            ),
            r is Err ==> final(store).fresh_id() == old(store).fresh_id(),
    {
        proof {
            assert(expiry_fits(now_ms, ACCESS_TTL_SECS));
            assert(expiry_fits(now_ms, REFRESH_TTL_SECS));
        }
        let claims = Claims::new(user, ACCESS_TTL_SECS, now_ms);
        let refresh_claims = Claims::new(user, REFRESH_TTL_SECS, now_ms);
        let access = match manager.generate(&claims) {
            Ok(t) => t,
            Err(e) => return Err(e),
        };
        let refresh = match manager.generate(&refresh_claims) {
            Ok(t) => t,
            Err(e) => return Err(e),
        };
        let access_bytes = access.as_str().as_bytes();
        let refresh_bytes = refresh.as_str().as_bytes();
        if access_bytes.len() as u64 >= MESSAGE_LIMIT || refresh_bytes.len() as u64 >= MESSAGE_LIMIT {
            return Err(Error::Jwt);
        }
        let sealed_access = match seal(key, access_nonce, access_bytes) {
            Some(c) => c,
            None => return Err(Error::Jwt),
        };
        let sealed_refresh = match seal(key, refresh_nonce, refresh_bytes) {
            Some(c) => c,
            None => return Err(Error::Jwt),
        };
        let mut nonce_text = encode_hex(access_nonce);
        proof {
            reveal_strlit(":");
        }
        nonce_text.append(":");
        let refresh_nonce_text = encode_hex(refresh_nonce);
        nonce_text.append(refresh_nonce_text.as_str());
        let record = NewToken {
            access_token: encode_hex(sealed_access.as_slice()),
            refresh_token: Some(encode_hex(sealed_refresh.as_slice())),
            key: Some(encode_hex(key)),
            nonce: Some(nonce_text),
            user_id: user.id.clone(),
            device_id: device_id.to_owned(),
        };
        proof {
            let m = minted(
                manager.secret(),
                user.id@,
                device_id@,
                now_ms,
                key@,
                access_nonce@,
                refresh_nonce@,
            );
            assert(record@.nonce == m.nonce);
            assert(record@ == m);
        }
        match store.upsert(record) {
            Ok(t) => Ok(TokenResponse::from(t)),
            Err(e) => Err(e),
        }
    }

    /// Mints a session for `user` on `device_id` with the wall clock and a fresh
    /// random key and nonces; the device's earlier session, if any, is overwritten.
    pub fn create_or_update(
        store: &mut SessionStore,
        manager: &TokenManager,
        user: &User,
        device_id: &str,
    ) -> (r: Result<TokenResponse, Error>)
        requires
            old(store).wf(),
        ensures
            final(store).wf(),
            mints_for(
                old(store)@,
                old(store).fresh_id(),
                manager.secret(),
                user.id@,
                device_id@,
                r,
                final(store)@,
            ),
    {
        let now_ms = now_millis();
        let key = fresh_key();
        let access_nonce = fresh_nonce();
        let refresh_nonce = fresh_nonce();
        let r = Self::mint_at(
            store,
            manager,
            user,
            device_id,
            now_ms,
            key.as_slice(),
            access_nonce.as_slice(),
            refresh_nonce.as_slice(),
        );
        r
    }
}

} // verus!
