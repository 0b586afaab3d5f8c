//! Session records and the store that keeps one of them per device.
use vstd::prelude::*;

use crate::error::Error;

verus! {

/// A stored session: the credentials last minted for one device.
#[derive(Debug)]
pub struct Token {
    /// Record id, assigned by the store.
    pub id: u64,
    /// The opaque access string: hexadecimal of the sealed access assertion.
    pub access_token: String,
    /// The opaque refresh string: hexadecimal of the sealed refresh assertion.
    pub refresh_token: Option<String>,
    /// The session key, in hexadecimal.
    pub key: Option<String>,
    /// The two nonces, as `hex(access nonce):hex(refresh nonce)`.
    pub nonce: Option<String>,
    pub user_id: String,
    pub device_id: String,
}

/// The fields of a session record, before the store gives it an id.
#[derive(Debug)]
pub struct NewToken {
    pub access_token: String,
    pub refresh_token: Option<String>,
    pub key: Option<String>,
    pub nonce: Option<String>,
    pub user_id: String,
    pub device_id: String,
}

/// The two opaque strings handed to a client.
#[derive(Debug)]
pub struct TokenResponse {
    pub token: String,
    pub refresh_token: Option<String>,
}

/// The text of an optional string.
pub open spec fn text_of(o: Option<String>) -> Option<Seq<char>> {
    match o {
        Some(s) => Some(s@),
        None => None,
    }
}

/// The mathematical value of a [`NewToken`].
pub struct SessionFields {
    pub access: Seq<char>,
    pub refresh: Option<Seq<char>>,
    pub key: Option<Seq<char>>,
    pub nonce: Option<Seq<char>>,
    pub user_id: Seq<char>,
    pub device_id: Seq<char>,
}

/// The mathematical value of a [`Token`].
pub struct SessionView {
    pub id: u64,
    pub fields: SessionFields,
}

impl View for NewToken {
    type V = SessionFields;

    open spec fn view(&self) -> SessionFields {
        SessionFields {
            access: self.access_token@,
            refresh: text_of(self.refresh_token),
            key: text_of(self.key),
            nonce: text_of(self.nonce),
            user_id: self.user_id@,
            device_id: self.device_id@,
        }
    }
}

impl View for Token {
    type V = SessionView;

    open spec fn view(&self) -> SessionView {
        SessionView {
            id: self.id,
            fields: SessionFields {
                access: self.access_token@,
                refresh: text_of(self.refresh_token),
                key: text_of(self.key),
                nonce: text_of(self.nonce),
                user_id: self.user_id@,
                device_id: self.device_id@,
            },
        }
    }
}

/// A copy of an optional string.
pub(crate) fn copy_text(o: &Option<String>) -> (r: Option<String>)
    ensures
        r == *o,
{
    match o {
        Some(s) => Some(s.clone()),
        None => None,
    }
}

impl Token {
    /// A copy of the record.
    pub fn duplicate(&self) -> (t: Token)
        ensures
            t@ == self@,
    {
        Token {
            id: self.id,
            access_token: self.access_token.clone(),
            refresh_token: copy_text(&self.refresh_token),
            key: copy_text(&self.key),
            nonce: copy_text(&self.nonce),
            user_id: self.user_id.clone(),
            device_id: self.device_id.clone(),
        }
    }
}

impl From<Token> for TokenResponse {
    fn from(t: Token) -> (r: TokenResponse) {
        TokenResponse { token: t.access_token, refresh_token: t.refresh_token }
    }
}

impl vstd::std_specs::convert::FromSpecImpl<Token> for TokenResponse {
    open spec fn obeys_from_spec() -> bool {
        true
    }

    open spec fn from_spec(t: Token) -> TokenResponse {
        TokenResponse { token: t.access_token, refresh_token: t.refresh_token }
    }
}

/// Which of a session's two strings is meant.
#[derive(Debug, Clone, Copy, PartialEq, Eq, Structural)]
pub enum TokenKind {
    Access,
    Refresh,
}

/// Whether a session holds `s` as its string of the given kind.
pub open spec fn holds(f: SessionFields, s: Seq<char>, kind: TokenKind) -> bool {
    match kind {
        TokenKind::Access => f.access == s,
        TokenKind::Refresh => f.refresh == Some(s),
    }
}

/// Whether exactly one session holds `s` as its string of the given kind.
pub open spec fn held_once(rows: Seq<SessionView>, s: Seq<char>, kind: TokenKind) -> bool {
    exists|i: int|
        0 <= i < rows.len() && #[trigger] holds(rows[i].fields, s, kind) && forall|j: int|
            0 <= j < rows.len() && j != i ==> !#[trigger] holds(rows[j].fields, s, kind)
}

/// The one session that holds `s`; a string that two sessions hold identifies neither.
pub open spec fn holder(rows: Seq<SessionView>, s: Seq<char>, kind: TokenKind) -> Option<SessionView> {
    if held_once(rows, s, kind) {
        Some(rows[choose|i: int| 0 <= i < rows.len() && #[trigger] holds(rows[i].fields, s, kind)])
    } else {
        None
    }
}

/// Whether some session belongs to the device `d`.
pub open spec fn has_device(rows: Seq<SessionView>, d: Seq<char>) -> bool {
    exists|i: int| 0 <= i < rows.len() && #[trigger] rows[i].fields.device_id == d
}

/// No two sessions belong to the same device.
pub open spec fn devices_distinct(rows: Seq<SessionView>) -> bool {
    forall|i: int, j: int|
        0 <= i < rows.len() && 0 <= j < rows.len() && i != j ==> #[trigger] rows[i].fields.device_id
            != #[trigger] rows[j].fields.device_id
}

/// The sessions after an upsert of `f`: the device's session is overwritten in
/// place, keeping its id, or a session with id `fresh` is added.
pub open spec fn upserted(rows: Seq<SessionView>, f: SessionFields, fresh: u64) -> Seq<SessionView> {
    if has_device(rows, f.device_id) {
        let i = choose|i: int| 0 <= i < rows.len() && #[trigger] rows[i].fields.device_id == f.device_id;
        rows.update(i, SessionView { id: rows[i].id, fields: f })
    } else {
        rows.push(SessionView { id: fresh, fields: f })
    }
}

/// The session records, at most one per device.
pub struct SessionStore {
    rows: Vec<Token>,
    next_id: u64,
}

impl View for SessionStore {
    type V = Seq<SessionView>;

    closed spec fn view(&self) -> Seq<SessionView> {
        self.rows@.map_values(|t: Token| t@)
    }
}

impl SessionStore {
    /// The id that the next new record gets.
    pub closed spec fn fresh_id(&self) -> u64 {
        self.next_id
    }

    /// One session per device, and every id below the next one.
    pub open spec fn wf(&self) -> bool {
        &&& devices_distinct(self@)
        &&& forall|i: int| 0 <= i < self@.len() ==> #[trigger] self@[i].id < self.fresh_id()
    }

    /// An empty store.
    pub fn new() -> (s: SessionStore)
        ensures
            s.wf(),
            s@ == Seq::<SessionView>::empty(),
    {
        let s = SessionStore { rows: Vec::new(), next_id: 1 };
        assert(s@ =~= Seq::<SessionView>::empty());
        s
    }

    /// The number of sessions.
    pub fn len(&self) -> (n: usize)
        ensures
            n == self@.len(),
    {
        self.rows.len()
    }

    /// Inserts `f` when its device has no session, else overwrites all the
    /// fields of that session in place. A store that has run out of ids
    /// refuses a new device.
    pub fn upsert(&mut self, f: NewToken) -> (r: Result<Token, Error>)
        requires
            old(self).wf(),
        ensures
            final(self).wf(),
            r is Ok <==> has_device(old(self)@, f@.device_id) || old(self).fresh_id() < u64::MAX,
            match r {
                Ok(t) => {
                    &&& final(self)@ == upserted(old(self)@, f@, old(self).fresh_id())
                    &&& t@.fields == f@
                    &&& final(self).fresh_id() == if has_device(old(self)@, f@.device_id) {
                        old(self).fresh_id() as int
                    } else {
                        old(self).fresh_id() + 1
                    }
                },
                Err(e) => final(self)@ == old(self)@ && final(self).fresh_id() == old(self).fresh_id()
                    && (e matches Error::StoreData(m) && m@ == "token"@),
            },
    {
        let n = self.rows.len();
        let mut i: usize = 0;
        while i < n
            invariant
                n == self.rows.len(),
                self.wf(),
                self@ == old(self)@,
                self.fresh_id() == old(self).fresh_id(),
                0 <= i <= n,
                forall|j: int| 0 <= j < i ==> #[trigger] self@[j].fields.device_id != f@.device_id,
            decreases n - i,
        {
            assert(self@[i as int] == self.rows@[i as int]@);
            if self.rows[i].device_id == f.device_id {
                let ghost before = self@;
                assert(before[i as int].fields.device_id == f@.device_id);
                let row = Token {
                    id: self.rows[i].id,
                    access_token: f.access_token,
                    refresh_token: f.refresh_token,
                    key: f.key,
                    nonce: f.nonce,
                    user_id: f.user_id,
                    device_id: f.device_id,
                };
                let t = row.duplicate();
                self.rows.set(i, row);
                proof {
                    let k = choose|k: int| 0 <= k < before.len() && #[trigger] before[k].fields.device_id == f@.device_id;
                    assert(k == i);
                    assert(self@ =~= before.update(i as int, SessionView { id: before[i as int].id, fields: t@.fields }));
                }
                return Ok(t);
            }
            i = i + 1;
        }
        if self.next_id == u64::MAX {
            return Err(Error::StoreData(String::from_str("token")));
        }
        let ghost before = self@;
        let row = Token {
            id: self.next_id,
            access_token: f.access_token,
            refresh_token: f.refresh_token,
            key: f.key,
            nonce: f.nonce,
            user_id: f.user_id,
            device_id: f.device_id,
        };
        let t = row.duplicate();
        self.rows.push(row);
        self.next_id = self.next_id + 1;
        assert(self@ =~= before.push(SessionView { id: (self.next_id - 1) as u64, fields: t@.fields }));
        Ok(t)
    }
}


impl SessionStore {
    fn holds_at(&self, i: usize, s: &String, kind: TokenKind) -> (b: bool)
        requires
            i < self@.len(),
        ensures
            b == holds(self@[i as int].fields, s@, kind),
    {
        assert(self@[i as int] == self.rows@[i as int]@);
        match kind {
            TokenKind::Access => self.rows[i].access_token == *s,
            TokenKind::Refresh => match &self.rows[i].refresh_token {
                Some(r) => *r == *s,
                None => false,
            },
        }
    }

    /// The session that alone holds `presented` as its string of the given kind.
    pub fn find_held(&self, presented: &str, kind: TokenKind) -> (r: Option<Token>)
        ensures
            match r {
                Some(t) => holder(self@, presented@, kind) == Some(t@),
                None => holder(self@, presented@, kind) is None,
            },
    {
        let s = presented.to_owned();
        let n = self.rows.len();
        let mut i: usize = 0;
        while i < n
            invariant
                n == self@.len(),
                s@ == presented@,
                0 <= i <= n,
                forall|j: int| 0 <= j < i ==> !#[trigger] holds(self@[j].fields, s@, kind),
            ensures
                0 <= i <= n,
                forall|j: int| 0 <= j < i ==> !#[trigger] holds(self@[j].fields, s@, kind),
                i < n ==> holds(self@[i as int].fields, s@, kind),
            decreases n - i,
        {
            if self.holds_at(i, &s, kind) {
                break;
            }
            i = i + 1;
        }
        if i == n {
            return None;
        }
        let first = i;
        i = i + 1;
        while i < n
            invariant
                n == self@.len(),
                s@ == presented@,
                first < i <= n,
                holds(self@[first as int].fields, s@, kind),
                forall|j: int| 0 <= j < i && j != first ==> !#[trigger] holds(self@[j].fields, s@, kind),
            decreases n - i,
        {
            if self.holds_at(i, &s, kind) {
                assert(!held_once(self@, presented@, kind)) by {
                    if held_once(self@, presented@, kind) {
                        let k = choose|k: int|
                            0 <= k < self@.len() && #[trigger] holds(self@[k].fields, presented@, kind)
                                && forall|j: int|
                                0 <= j < self@.len() && j != k ==> !#[trigger] holds(
                                    self@[j].fields,
                                    presented@,
                                    kind,
                                );
                        if k != first as int {
                            assert(holds(self@[first as int].fields, presented@, kind));
                        } else {
                            assert(holds(self@[i as int].fields, presented@, kind));
                        }
                    }
                }
                return None;
            }
            i = i + 1;
        }
        assert(self@[first as int] == self.rows@[first as int]@);
        assert(held_once(self@, presented@, kind));
        assert(holder(self@, presented@, kind) == Some(self@[first as int])) by {
            let c = choose|k: int| 0 <= k < self@.len() && #[trigger] holds(self@[k].fields, presented@, kind);
            assert(c == first);
        }
        Some(self.rows[first].duplicate())
    }

    /// The session of the device `device_id`.
    pub fn find_device(&self, device_id: &str) -> (r: Option<Token>)
        requires
            self.wf(),
        ensures
            match r {
                Some(t) => has_device(self@, device_id@) && exists|i: int|
                    0 <= i < self@.len() && #[trigger] self@[i] == t@ && t@.fields.device_id
                        == device_id@,
                None => !has_device(self@, device_id@),
            },
    {
        let d = device_id.to_owned();
        let n = self.rows.len();
        let mut i: usize = 0;
        while i < n
            invariant
                n == self@.len(),
                d@ == device_id@,
                0 <= i <= n,
                forall|j: int| 0 <= j < i ==> #[trigger] self@[j].fields.device_id != d@,
            decreases n - i,
        {
            assert(self@[i as int] == self.rows@[i as int]@);
            if self.rows[i].device_id == d {
                let t = self.rows[i].duplicate();
                assert(self@[i as int] == t@);
                assert(self@[i as int].fields.device_id == device_id@);
                return Some(t);
            }
            i = i + 1;
        }
        None
    }
}

/// Keeps the sessions that do not belong to the identity `user_id`.
pub open spec fn not_of_user(user_id: Seq<char>) -> spec_fn(SessionView) -> bool {
    |r: SessionView| r.fields.user_id != user_id
}

impl SessionStore {
    /// Removes every session of the identity `user_id`.
    pub fn remove_user(&mut self, user_id: &str)
        requires
            old(self).wf(),
        ensures
            final(self).wf(),
            final(self)@ == old(self)@.filter(not_of_user(user_id@)),
            final(self).fresh_id() == old(self).fresh_id(),
    {
        let key = user_id.to_owned();
        let ghost p = not_of_user(user_id@);
        let mut kept: Vec<Token> = Vec::new();
        let ghost mut idx: Seq<int> = Seq::empty();
        let n = self.rows.len();
        let mut i: usize = 0;
        while i < n
            invariant
                n == self@.len(),
                self@ == old(self)@,
                self.fresh_id() == old(self).fresh_id(),
                self.wf(),
                key@ == user_id@,
                p == not_of_user(user_id@),
                0 <= i <= n,
                kept@.map_values(|t: Token| t@) == self@.subrange(0, i as int).filter(p),
                idx.len() == kept@.len(),
                forall|k: int| 0 <= k < idx.len() ==> 0 <= #[trigger] idx[k] < i && kept@[k]@ == self@[idx[k]],
                forall|a: int, b: int| 0 <= a < b < idx.len() ==> #[trigger] idx[a] < #[trigger] idx[b],
            decreases n - i,
        {
            proof {
                crate::lookup::lemma_filter_step(self@, p, i as int);
            }
            assert(self@[i as int] == self.rows@[i as int]@);
            if !(self.rows[i].user_id == key) {
                let t = self.rows[i].duplicate();
                let ghost before = kept@.map_values(|t: Token| t@);
                kept.push(t);
                proof {
                    idx = idx.push(i as int);
                    assert(kept@.map_values(|t: Token| t@) =~= before.push(self@[i as int]));
                }
            }
            i = i + 1;
        }
        assert(self@.subrange(0, n as int) =~= self@);
        let ghost before = self@;
        self.rows = kept;
        assert forall|a: int, b: int|
            0 <= a < self@.len() && 0 <= b < self@.len() && a != b implies #[trigger] self@[a].fields.device_id
            != #[trigger] self@[b].fields.device_id by {
            assert(self@[a] == before[idx[a]]);
            assert(self@[b] == before[idx[b]]);
            if a < b {
                assert(idx[a] < idx[b]);
            } else {
                assert(idx[b] < idx[a]);
            }
        }
        assert forall|k: int| 0 <= k < self@.len() implies #[trigger] self@[k].id < self.fresh_id() by {
            assert(self@[k] == before[idx[k]]);
        }
    }
}

} // verus!
