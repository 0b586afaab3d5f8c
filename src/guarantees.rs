//! What minting and validation guarantee together.
use vstd::prelude::*;
use vstd::utf8::encode_utf8;

use crate::claims::{issued, signed_assertion, ClaimsView, ACCESS_TTL_SECS, REFRESH_TTL_SECS};
use crate::encoding::{lemma_hex_encode_is_hex, lemma_hex_round_trip, hex_encode};
use crate::envelope::{sealed, KEY_LEN, NONCE_LEN};
use crate::error::Error;
use crate::session::{devices_distinct, holder, held_once, holds, upserted, SessionFields, SessionView, TokenKind};
use crate::auth::refresh_outcome;
use crate::session::TokenResponse;
use crate::user::UserView;
use crate::session::text_of;
use crate::token::{mint_outcome, mints_for};
use crate::token::{
    assertion_sound, assertion_verdict, lemma_nonce_pair, minted, minted_sound, verdict,
};

verus! {

/// The string of the given kind that a session record holds.
pub open spec fn string_of(f: SessionFields, kind: TokenKind) -> Seq<char> {
    match kind {
        TokenKind::Access => f.access,
        TokenKind::Refresh => match f.refresh {
            Some(s) => s,
            None => Seq::empty(),
        },
    }
}

/// Whether the session of some device other than `device` holds `s`.
pub open spec fn held_elsewhere(rows: Seq<SessionView>, s: Seq<char>, kind: TokenKind, device: Seq<char>) -> bool {
    exists|j: int|
        0 <= j < rows.len() && rows[j].fields.device_id != device && #[trigger] holds(rows[j].fields, s, kind)
}

/// The lifetime of the assertion behind a string of the given kind.
pub open spec fn ttl_of(kind: TokenKind) -> i64 {
    match kind {
        TokenKind::Access => ACCESS_TTL_SECS,
        TokenKind::Refresh => REFRESH_TTL_SECS,
    }
}

/// An upsert keeps one session per device, puts `f` in the device's place and
/// leaves every other device's session where it was.
proof fn lemma_upserted(rows: Seq<SessionView>, f: SessionFields, fresh: u64)
    requires
        devices_distinct(rows),
    ensures
        devices_distinct(upserted(rows, f, fresh)),
        exists|k: int|
            0 <= k < upserted(rows, f, fresh).len() && #[trigger] upserted(rows, f, fresh)[k].fields == f,
        forall|k: int|
            0 <= k < upserted(rows, f, fresh).len() && #[trigger] upserted(rows, f, fresh)[k].fields.device_id
                == f.device_id ==> upserted(rows, f, fresh)[k].fields == f,
        forall|k: int|
            0 <= k < upserted(rows, f, fresh).len() && #[trigger] upserted(rows, f, fresh)[k].fields.device_id
                != f.device_id ==> k < rows.len() && upserted(rows, f, fresh)[k] == rows[k],
        forall|j: int|
            0 <= j < rows.len() && #[trigger] rows[j].fields.device_id != f.device_id ==> j < upserted(
                rows,
                f,
                fresh,
            ).len() && upserted(rows, f, fresh)[j] == rows[j],
{
    let after = upserted(rows, f, fresh);
    if exists|i: int| 0 <= i < rows.len() && #[trigger] rows[i].fields.device_id == f.device_id {
        let i = choose|i: int| 0 <= i < rows.len() && #[trigger] rows[i].fields.device_id == f.device_id;
        assert(after == rows.update(i, SessionView { id: rows[i].id, fields: f }));
        assert(after[i].fields == f);
        assert forall|k: int| 0 <= k < after.len() && #[trigger] after[k].fields.device_id == f.device_id implies after[k].fields == f by {
            if k != i {
                assert(after[k] == rows[k]);
                assert(rows[k].fields.device_id == rows[i].fields.device_id);
            }
        }
        assert forall|a: int, b: int|
            0 <= a < after.len() && 0 <= b < after.len() && a != b implies #[trigger] after[a].fields.device_id
            != #[trigger] after[b].fields.device_id by {
            if a != i && b != i {
                assert(rows[a].fields.device_id != rows[b].fields.device_id);
            } else if a == i {
                assert(rows[b].fields.device_id != rows[i].fields.device_id);
            } else {
                assert(rows[a].fields.device_id != rows[i].fields.device_id);
            }
        }
    } else {
        assert(after == rows.push(SessionView { id: fresh, fields: f }));
        assert(after[rows.len() as int].fields == f);
        assert forall|k: int| 0 <= k < after.len() && #[trigger] after[k].fields.device_id == f.device_id implies after[k].fields == f by {
            if k < rows.len() {
                assert(after[k] == rows[k]);
            }
        }
        assert forall|a: int, b: int|
            0 <= a < after.len() && 0 <= b < after.len() && a != b implies #[trigger] after[a].fields.device_id
            != #[trigger] after[b].fields.device_id by {
            if a < rows.len() && b < rows.len() {
                assert(rows[a].fields.device_id != rows[b].fields.device_id);
            } else if a < rows.len() {
                assert(after[a] == rows[a]);
            } else {
                assert(after[b] == rows[b]);
            }
        }
    }
}

/// When exactly the row at `k` holds `s`, that row is the holder.
proof fn lemma_sole_holder(rows: Seq<SessionView>, s: Seq<char>, kind: TokenKind, k: int)
    requires
        0 <= k < rows.len(),
        holds(rows[k].fields, s, kind),
        forall|j: int| 0 <= j < rows.len() && j != k ==> !#[trigger] holds(rows[j].fields, s, kind),
    ensures
        held_once(rows, s, kind),
        holder(rows, s, kind) == Some(rows[k]),
{
    let c = choose|i: int| 0 <= i < rows.len() && #[trigger] holds(rows[i].fields, s, kind);
    assert(c == k);
}

/// When no row holds `s`, it is a mismatch.
proof fn lemma_unheld(rows: Seq<SessionView>, s: Seq<char>, kind: TokenKind, secret: Seq<u8>, now_s: i64)
    requires
        forall|j: int| 0 <= j < rows.len() ==> !#[trigger] holds(rows[j].fields, s, kind),
    ensures
        verdict(rows, s, kind, secret, now_s) == Err::<ClaimsView, Error>(Error::TokenMismatch),
{
    assert(!held_once(rows, s, kind));
}

/// Round trip: after a mint for `user_id` on `device`, each of the two minted
/// strings yields the claims it was minted with, whose subject is `user_id`,
/// while they have not expired, and `Unauthorized` from the second after their
/// expiry; unless another device's session holds the same string.
pub proof fn lemma_round_trip(
    rows: Seq<SessionView>,
    fresh: u64,
    secret: Seq<u8>,
    user_id: Seq<char>,
    device: Seq<char>,
    now_ms: u64,
    key: Seq<u8>,
    n1: Seq<u8>,
    n2: Seq<u8>,
    kind: TokenKind,
    now_s: i64,
)
    requires
        devices_distinct(rows),
        key.len() == KEY_LEN,
        n1.len() == NONCE_LEN,
        n2.len() == NONCE_LEN,
        minted_sound(secret, user_id, now_ms, key, n1, n2),
        !held_elsewhere(rows, string_of(minted(secret, user_id, device, now_ms, key, n1, n2), kind), kind, device),
    ensures
        ({
            let m = minted(secret, user_id, device, now_ms, key, n1, n2);
            let c = issued(user_id, ttl_of(kind), now_ms);
            &&& c.sub == user_id
            &&& verdict(upserted(rows, m, fresh), string_of(m, kind), kind, secret, now_s) == if now_s
                <= c.exp {
                Ok::<ClaimsView, Error>(c)
            } else {
                Err(Error::Unauthorized)
            }
        }),
{
    let m = minted(secret, user_id, device, now_ms, key, n1, n2);
    let after = upserted(rows, m, fresh);
    let s = string_of(m, kind);
    lemma_upserted(rows, m, fresh);
    let k = choose|k: int| 0 <= k < after.len() && #[trigger] after[k].fields == m;
    assert(holds(after[k].fields, s, kind));
    assert forall|j: int| 0 <= j < after.len() && j != k implies !#[trigger] holds(after[j].fields, s, kind) by {
        if after[j].fields.device_id == device {
            assert(after[j].fields == m);
            assert(after[j].fields.device_id == after[k].fields.device_id);
        } else {
            assert(after[j] == rows[j]);
            if holds(after[j].fields, s, kind) {
                assert(held_elsewhere(rows, s, kind, device));
            }
        }
    }
    lemma_sole_holder(after, s, kind, k);
    lemma_hex_round_trip(key);
    lemma_hex_round_trip(n1);
    lemma_hex_round_trip(n2);
    lemma_hex_encode_is_hex(n1);
    lemma_nonce_pair(hex_encode(n1) + seq![':'] + hex_encode(n2), hex_encode(n1), hex_encode(n2));
    let c = issued(user_id, ttl_of(kind), now_ms);
    let msg = encode_utf8(signed_assertion(secret, c.iat, c.exp, c.sub));
    match kind {
        TokenKind::Access => {
            lemma_hex_round_trip(sealed(key, n1, msg));
        },
        TokenKind::Refresh => {
            lemma_hex_round_trip(sealed(key, n2, msg));
        },
    }
    assert(assertion_sound(secret, c));
    assert(assertion_verdict(secret, msg, now_s) == if now_s <= c.exp {
        Ok::<ClaimsView, Error>(c)
    } else {
        Err(Error::Unauthorized)
    });
}

/// Rotation: once a device has minted again, the string of its earlier session
/// is refused as a mismatch, unless the later mint produced the very same
/// string or another device's session holds it.
pub proof fn lemma_rotation(
    rows: Seq<SessionView>,
    first: SessionFields,
    second: SessionFields,
    fresh1: u64,
    fresh2: u64,
    kind: TokenKind,
    secret: Seq<u8>,
    now_s: i64,
)
    requires
        devices_distinct(rows),
        second.device_id == first.device_id,
    ensures
        ({
            let s = string_of(first, kind);
            let after = upserted(upserted(rows, first, fresh1), second, fresh2);
            ||| verdict(after, s, kind, secret, now_s) == Err::<ClaimsView, Error>(Error::TokenMismatch)
            ||| holds(second, s, kind)
            ||| held_elsewhere(rows, s, kind, first.device_id)
        }),
{
    let s = string_of(first, kind);
    let mid = upserted(rows, first, fresh1);
    let after = upserted(mid, second, fresh2);
    lemma_upserted(rows, first, fresh1);
    lemma_upserted(mid, second, fresh2);
    if !holds(second, s, kind) && !held_elsewhere(rows, s, kind, first.device_id) {
        assert forall|j: int| 0 <= j < after.len() implies !#[trigger] holds(after[j].fields, s, kind) by {
            if after[j].fields.device_id == second.device_id {
                assert(after[j].fields == second);
            } else {
                assert(after[j] == mid[j]);
                assert(mid[j] == rows[j]);
                if holds(after[j].fields, s, kind) {
                    assert(held_elsewhere(rows, s, kind, first.device_id));
                }
            }
        }
        lemma_unheld(after, s, kind, secret, now_s);
    }
}

/// Device isolation: minting for one device leaves the verdict on a string
/// that only another device's session holds as it was, unless the new session
/// holds that very string too.
pub proof fn lemma_device_isolation(
    rows: Seq<SessionView>,
    m: SessionFields,
    fresh: u64,
    s: Seq<char>,
    kind: TokenKind,
    secret: Seq<u8>,
    now_s: i64,
)
    requires
        devices_distinct(rows),
        held_once(rows, s, kind),
        holder(rows, s, kind)->0.fields.device_id != m.device_id,
    ensures
        verdict(upserted(rows, m, fresh), s, kind, secret, now_s) == verdict(rows, s, kind, secret, now_s)
            || holds(m, s, kind),
{
    let after = upserted(rows, m, fresh);
    lemma_upserted(rows, m, fresh);
    let b = choose|i: int|
        0 <= i < rows.len() && #[trigger] holds(rows[i].fields, s, kind) && forall|j: int|
            0 <= j < rows.len() && j != i ==> !#[trigger] holds(rows[j].fields, s, kind);
    lemma_sole_holder(rows, s, kind, b);
    if !holds(m, s, kind) {
        assert(after[b] == rows[b]);
        assert forall|j: int| 0 <= j < after.len() && j != b implies !#[trigger] holds(after[j].fields, s, kind) by {
            if after[j].fields.device_id == m.device_id {
                assert(after[j].fields == m);
            } else {
                assert(after[j] == rows[j]);
                assert(!holds(rows[j].fields, s, kind));
            }
        }
        lemma_sole_holder(after, s, kind, b);
    }
}

/// Expiry boundary: a signed assertion is refused as `Unauthorized` one second
/// after its expiry and yields its claims one second before it.
pub proof fn lemma_expiry_boundary(secret: Seq<u8>, c: ClaimsView)
    requires
        assertion_sound(secret, c),
        i64::MIN < c.exp < i64::MAX,
    ensures
        assertion_verdict(secret, encode_utf8(signed_assertion(secret, c.iat, c.exp, c.sub)), (c.exp + 1) as i64)
            == Err::<ClaimsView, Error>(Error::Unauthorized),
        assertion_verdict(secret, encode_utf8(signed_assertion(secret, c.iat, c.exp, c.sub)), (c.exp - 1) as i64)
            == Ok::<ClaimsView, Error>(c),
{
}

/// Tamper resistance: a minted string with one character changed is refused
/// as a mismatch, unless another device's session holds the altered string.
pub proof fn lemma_tamper(
    rows: Seq<SessionView>,
    m: SessionFields,
    fresh: u64,
    kind: TokenKind,
    i: int,
    c: char,
    secret: Seq<u8>,
    now_s: i64,
)
    requires
        devices_distinct(rows),
        0 <= i < string_of(m, kind).len(),
        string_of(m, kind)[i] != c,
        kind == TokenKind::Refresh ==> m.refresh is Some,
    ensures
        ({
            let altered = string_of(m, kind).update(i, c);
            ||| verdict(upserted(rows, m, fresh), altered, kind, secret, now_s) == Err::<ClaimsView, Error>(
                Error::TokenMismatch,
            )
            ||| held_elsewhere(rows, altered, kind, m.device_id)
        }),
{
    let altered = string_of(m, kind).update(i, c);
    let after = upserted(rows, m, fresh);
    lemma_upserted(rows, m, fresh);
    assert(altered[i] != string_of(m, kind)[i]);
    assert(!holds(m, altered, kind));
    if !held_elsewhere(rows, altered, kind, m.device_id) {
        assert forall|j: int| 0 <= j < after.len() implies !#[trigger] holds(after[j].fields, altered, kind) by {
            if after[j].fields.device_id == m.device_id {
                assert(after[j].fields == m);
            } else {
                assert(after[j] == rows[j]);
                if holds(after[j].fields, altered, kind) {
                    assert(held_elsewhere(rows, altered, kind, m.device_id));
                }
            }
        }
        lemma_unheld(after, altered, kind, secret, now_s);
    }
}

/// A refresh passes a validation error on unchanged: whenever validating the
/// presented refresh string fails, the refresh fails with the same error and
/// leaves the sessions as they were.
pub proof fn lemma_refresh_passes_errors(
    sessions: Seq<SessionView>,
    fresh: u64,
    secret: Seq<u8>,
    users: Seq<UserView>,
    presented: Seq<char>,
    device: Seq<char>,
    now_s: i64,
    r: Result<TokenResponse, Error>,
    after: Seq<SessionView>,
)
    requires
        refresh_outcome(sessions, fresh, secret, users, presented, device, now_s, r, after),
        verdict(sessions, presented, TokenKind::Refresh, secret, now_s) is Err,
    ensures
        r == Err::<TokenResponse, Error>(verdict(sessions, presented, TokenKind::Refresh, secret, now_s)->Err_0),
        after == sessions,
{
}

/// The string of the given kind that a mint handed to its caller.
pub open spec fn handed_out(r: TokenResponse, kind: TokenKind) -> Seq<char> {
    match kind {
        TokenKind::Access => r.token@,
        TokenKind::Refresh => match text_of(r.refresh_token) {
            Some(t) => t,
            None => Seq::empty(),
        },
    }
}

/// Round trip through any successful mint, as `create_or_update`, signup,
/// login, guest entry and refresh report it: each string handed out yields
/// claims with subject `user_id` until their expiry and `Unauthorized` after
/// it, unless another device's session holds the same string.
pub proof fn lemma_minted_validates(
    before: Seq<SessionView>,
    fresh: u64,
    secret: Seq<u8>,
    user_id: Seq<char>,
    device: Seq<char>,
    resp: TokenResponse,
    after: Seq<SessionView>,
    kind: TokenKind,
    now_s: i64,
)
    requires
        devices_distinct(before),
        mints_for(before, fresh, secret, user_id, device, Ok::<TokenResponse, Error>(resp), after),
        !held_elsewhere(before, handed_out(resp, kind), kind, device),
    ensures
        exists|c: ClaimsView|
            c.sub == user_id && #[trigger] verdict(after, handed_out(resp, kind), kind, secret, now_s) == if now_s
                <= c.exp {
                Ok::<ClaimsView, Error>(c)
            } else {
                Err(Error::Unauthorized)
            },
{
    let r = Ok::<TokenResponse, Error>(resp);
    let (now_ms, key, n1, n2) = choose|now_ms: u64, key: Seq<u8>, n1: Seq<u8>, n2: Seq<u8>|
        key.len() == KEY_LEN && n1.len() == NONCE_LEN && n2.len() == NONCE_LEN && #[trigger] mint_outcome(
            before,
            fresh,
            secret,
            user_id,
            device,
            now_ms,
            key,
            n1,
            n2,
            r,
            after,
        );
    let m = minted(secret, user_id, device, now_ms, key, n1, n2);
    assert(string_of(m, kind) == handed_out(resp, kind));
    lemma_round_trip(before, fresh, secret, user_id, device, now_ms, key, n1, n2, kind, now_s);
    let c = issued(user_id, ttl_of(kind), now_ms);
    assert(verdict(after, handed_out(resp, kind), kind, secret, now_s) == if now_s <= c.exp {
        Ok::<ClaimsView, Error>(c)
    } else {
        Err(Error::Unauthorized)
    });
}

/// Rotation through any two successful mints on one device, as
/// `create_or_update`, signup, login, guest entry and refresh report them:
/// the first string handed out is refused as a mismatch, unless the second
/// mint handed out the very same string or another device's session held it.
pub proof fn lemma_minted_rotation(
    s0: Seq<SessionView>,
    f0: u64,
    s1: Seq<SessionView>,
    f1: u64,
    s2: Seq<SessionView>,
    secret: Seq<u8>,
    user1: Seq<char>,
    user2: Seq<char>,
    device: Seq<char>,
    first: TokenResponse,
    second: TokenResponse,
    kind: TokenKind,
    now_s: i64,
)
    requires
        devices_distinct(s0),
        mints_for(s0, f0, secret, user1, device, Ok::<TokenResponse, Error>(first), s1),
        mints_for(s1, f1, secret, user2, device, Ok::<TokenResponse, Error>(second), s2),
    ensures
        ({
            let s = handed_out(first, kind);
            ||| verdict(s2, s, kind, secret, now_s) == Err::<ClaimsView, Error>(Error::TokenMismatch)
            ||| handed_out(second, kind) == s
            ||| held_elsewhere(s0, s, kind, device)
        }),
{
    let (t1, k1, a1, b1) = choose|t: u64, k: Seq<u8>, a: Seq<u8>, b: Seq<u8>|
        k.len() == KEY_LEN && a.len() == NONCE_LEN && b.len() == NONCE_LEN && #[trigger] mint_outcome(
            s0,
            f0,
            secret,
            user1,
            device,
            t,
            k,
            a,
            b,
            Ok::<TokenResponse, Error>(first),
            s1,
        );
    let (t2, k2, a2, b2) = choose|t: u64, k: Seq<u8>, a: Seq<u8>, b: Seq<u8>|
        k.len() == KEY_LEN && a.len() == NONCE_LEN && b.len() == NONCE_LEN && #[trigger] mint_outcome(
            s1,
            f1,
            secret,
            user2,
            device,
            t,
            k,
            a,
            b,
            Ok::<TokenResponse, Error>(second),
            s2,
        );
    let m1 = minted(secret, user1, device, t1, k1, a1, b1);
    let m2 = minted(secret, user2, device, t2, k2, a2, b2);
    assert(string_of(m1, kind) == handed_out(first, kind));
    assert(string_of(m2, kind) == handed_out(second, kind));
    lemma_rotation(s0, m1, m2, f0, f1, kind, secret, now_s);
}

} // verus!
