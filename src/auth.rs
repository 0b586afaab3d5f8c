//! The identity events that mint sessions: signup, login, refresh and guest entry.
use vstd::prelude::*;

use crate::claims::Claims;
use crate::device::{
    device_where, merge_text, not_owned_by, DeviceController, DevicePatch, DeviceStore, DeviceView, NewDevice,
};
use crate::error::Error;
use crate::session::{copy_text, holder, not_of_user, SessionStore, SessionView, TokenKind, TokenResponse};
use crate::token::{mints_for, now_millis, open_row, outcome, verdict, TokenController, TokenManager};
use crate::user::{
    created_guest, email_is, guest_id_is, id_is, other_than, password_fits, password_matches, phc_parses,
    record_id, user_where, NewUser, PasswordHasher, UserController, UserStore, UserType, UserView,
};

verus! {

/// A signup: the account and the device it signs up on.
#[derive(Debug)]
pub struct UserPayload {
    pub user: NewUser,
    pub device: NewDevice,
}

/// A guest entry from a device.
#[derive(Debug)]
pub struct GuestPayload {
    pub device: NewDevice,
}

/// A login on a device.
#[derive(Debug)]
pub struct LoginPayload {
    pub email: String,
    pub password: String,
    pub device: NewDevice,
}

/// A refresh: the refresh string and the device it is exchanged for.
#[derive(Debug)]
pub struct RefreshPayload {
    pub refresh_token: String,
    pub device_id: String,
}

/// Whether an account uses an email.
#[derive(Debug)]
pub struct CheckEmailResponse {
    pub exists: bool,
}

/// The lowercase form of a text, as `str::to_lowercase` gives it.
pub uninterp spec fn lower_of(s: Seq<char>) -> Seq<char>;

/// Relies on `str::to_lowercase`: the result depends on the characters alone.
#[verifier::external_body]
fn lowercase(s: &str) -> (r: String)
    ensures
        r@ == lower_of(s@),
{
    s.to_lowercase()
}

/// The accounts, devices and sessions, with the manager that signs for them.
pub struct Backend {
    pub users: UserStore,
    pub devices: DeviceStore,
    pub sessions: SessionStore,
    pub tokens: TokenManager,
}

/// The guest that a device report leaves bound to the device.
pub open spec fn reported_guest(devices: Seq<DeviceView>, d: NewDevice) -> Option<Seq<char>> {
    match device_where(devices, d.id@) {
        Some(stored) => merge_text(d.guest_id, stored.guest_id),
        None => crate::session::text_of(d.guest_id),
    }
}

/// The device `id` is stored and owned by the identity `user_id`.
pub open spec fn bound_to(devices: Seq<DeviceView>, id: Seq<char>, user_id: Seq<char>) -> bool {
    device_where(devices, id) matches Some(d) && d.user_id == Some(user_id)
}

/// The device `id` is stored, owned by and bound to the guest `guest_id`.
pub open spec fn bound_as_guest(devices: Seq<DeviceView>, id: Seq<char>, guest_id: Seq<char>) -> bool {
    device_where(devices, id) matches Some(d) && d.user_id == Some(guest_id) && d.guest_id == Some(
        guest_id,
    )
}

/// The guest account that a device report leaves bound, if it exists.
pub open spec fn bound_guest(users: Seq<UserView>, devices: Seq<DeviceView>, d: NewDevice) -> Option<UserView> {
    match reported_guest(devices, d) {
        Some(g) => user_where(users, guest_id_is(g)),
        None => None,
    }
}

/// The account that a login with `email` and `password` opens: the account
/// of the lowercased email, when its stored hash reads and accepts the password.
pub open spec fn accepted_account(users: Seq<UserView>, email: Seq<char>, password: Seq<char>) -> Option<UserView> {
    match user_where(users, email_is(lower_of(email))) {
        Some(u) => match u.password_hash {
            Some(h) => if phc_parses(h) && password_matches(h, password) {
                Some(u)
            } else {
                None
            },
            None => None,
        },
        None => None,
    }
}

/// Whether a signup is refused before any record is written: no email, an
/// email in use, no password, a password argon2 refuses, or no id left.
pub open spec fn signup_refused(users: Seq<UserView>, fresh: u64, user: NewUser) -> bool {
    match user.email {
        None => true,
        Some(e) => user_where(users, email_is(lower_of(e@))) is Some || match user.password {
            None => true,
            Some(p) => !password_fits(p@) || fresh == u64::MAX,
        },
    }
}

/// The outcome of exchanging the refresh string `presented` for `device` at
/// time `now_s`: the session that alone holds it must open, which passes any
/// validation error on as it is; a valid string presented for another device
/// is a mismatch; its subject must still exist; then a mint for that subject.
pub open spec fn refresh_outcome(
    sessions: Seq<SessionView>,
    fresh: u64,
    secret: Seq<u8>,
    users: Seq<UserView>,
    presented: Seq<char>,
    device: Seq<char>,
    now_s: i64,
    r: Result<TokenResponse, Error>,
    after: Seq<SessionView>,
) -> bool {
    match holder(sessions, presented, TokenKind::Refresh) {
        None => r == Err::<TokenResponse, Error>(Error::TokenMismatch) && after == sessions,
        Some(row) => match open_row(row.fields, presented, TokenKind::Refresh, secret, now_s) {
            Err(e) => r == Err::<TokenResponse, Error>(e) && after == sessions,
            Ok(c) => if row.fields.device_id != device {
                r == Err::<TokenResponse, Error>(Error::TokenMismatch) && after == sessions
            } else {
                match user_where(users, id_is(c.sub)) {
                    None => r == Err::<TokenResponse, Error>(Error::WrongCredentials) && after == sessions,
                    Some(u) => mints_for(sessions, fresh, secret, u.id, device, r, after),
                }
            },
        },
    }
}

/// The lowercased email of a signup, which must have one.
pub fn get_new_user_email(new_user: &NewUser) -> (r: Result<String, Error>)
    ensures
        match new_user.email {
            Some(e) => r matches Ok(l) && l@ == lower_of(e@),
            None => r matches Err(Error::BadRequest(m)) && m@ == "Email is required"@,
        },
{
    match &new_user.email {
        Some(e) => Ok(lowercase(e.as_str())),
        None => Err(Error::BadRequest(String::from_str("Email is required"))),
    }
}

fn owned_device(d: &NewDevice, user_id: &String) -> (r: NewDevice)
    ensures
        r == (NewDevice { user_id: Some(*user_id), ..*d }),
{
    NewDevice {
        id: d.id.clone(),
        name: d.name.clone(),
        platform: d.platform.clone(),
        user_id: Some(user_id.clone()),
        guest_id: d.guest_id.clone(),
        expo_token: d.expo_token.clone(),
    }
}

impl Backend {
    /// Empty stores, signing with `secret`.
    pub fn new(secret: Vec<u8>) -> (b: Backend)
        ensures
            b.sessions.wf(),
            b.tokens.secret() == secret@,
            b.users@.len() == 0,
            b.devices@.len() == 0,
            b.sessions@.len() == 0,
    {
        Backend {
            users: UserStore::new(),
            devices: DeviceStore::new(),
            sessions: SessionStore::new(),
            tokens: TokenManager::new(secret),
        }
    }

    /// Signs a new account up on a device and mints its first session there.
    /// The email is stored and compared in lowercase; one already in use is
    /// refused. Every refusal leaves the stores as they were.
    pub fn signup(&mut self, payload: &UserPayload) -> (r: Result<TokenResponse, Error>)
        requires
            old(self).sessions.wf(),
        ensures
            final(self).sessions.wf(),
            final(self).tokens.secret() == old(self).tokens.secret(),
            signup_refused(old(self).users@, old(self).users.fresh_id(), payload.user) ==> {
                &&& r is Err
                &&& final(self).users@ == old(self).users@
                &&& final(self).devices@ == old(self).devices@
                &&& final(self).sessions@ == old(self).sessions@
            },
            match payload.user.email {
                None => r matches Err(Error::BadRequest(m)) && m@ == "Email is required"@,
                Some(e) => if user_where(old(self).users@, email_is(lower_of(e@))) is Some {
                    r == Err::<TokenResponse, Error>(Error::EmailInUse)
                } else {
                    match payload.user.password {
                        None => r matches Err(Error::BadRequest(m)) && m@ == "password is required"@,
                        Some(p) => if !password_fits(p@) {
                            r == Err::<TokenResponse, Error>(Error::PasswordHash)
                        } else if old(self).users.fresh_id() == u64::MAX {
                            r matches Err(Error::StoreData(m)) && m@ == "user"@
                        } else {
                            let u = final(self).users@.last();
                            &&& final(self).users@ == old(self).users@.push(u)
                            &&& u.id == record_id("user"@, old(self).users.fresh_id() as nat)
                            &&& u.user_type == UserType::User
                            &&& u.email == Some(lower_of(e@))
                            &&& u.password_hash matches Some(h) && phc_parses(h) && password_matches(h, p@)
                            &&& bound_to(final(self).devices@, payload.device.id@, u.id)
                            &&& mints_for(
                                old(self).sessions@,
                                old(self).sessions.fresh_id(),
                                old(self).tokens.secret(),
                                u.id,
                                payload.device.id@,
                                r,
                                final(self).sessions@,
                            )
                        },
                    }
                },
            },
    {
        let email = match get_new_user_email(&payload.user) {
            Ok(e) => e,
            Err(e) => return Err(e),
        };
        if UserController::get_by_email(&self.users, email.as_str()).is_some() {
            return Err(Error::EmailInUse);
        }
        let account = NewUser {
            password: copy_text(&payload.user.password),
            email: Some(email),
            avatar_seed: copy_text(&payload.user.avatar_seed),
            name: copy_text(&payload.user.name),
        };
        let user = match UserController::create(&mut self.users, &account) {
            Ok(u) => u,
            Err(e) => return Err(e),
        };
        let new_device = owned_device(&payload.device, &user.id);
        let device = match DeviceController::create_or_update(&mut self.devices, &new_device) {
            Ok(d) => d,
            Err(e) => return Err(e),
        };
        TokenController::create_or_update(&mut self.sessions, &self.tokens, &user, device.id.as_str())
    }

    /// Logs an account in on a device, binds the device to it and mints a
    /// fresh session there, overwriting the device's earlier one. An unknown
    /// email, an account without a password, an unreadable hash and a wrong
    /// password all give the same `WrongCredentials` and write nothing.
    pub fn login(&mut self, payload: &LoginPayload) -> (r: Result<TokenResponse, Error>)
        requires
            old(self).sessions.wf(),
        ensures
            final(self).sessions.wf(),
            final(self).tokens.secret() == old(self).tokens.secret(),
            final(self).users@ == old(self).users@,
            match accepted_account(old(self).users@, payload.email@, payload.password@) {
                Some(u) => {
                    &&& bound_to(final(self).devices@, payload.device.id@, u.id)
                    &&& mints_for(
                        old(self).sessions@,
                        old(self).sessions.fresh_id(),
                        old(self).tokens.secret(),
                        u.id,
                        payload.device.id@,
                        r,
                        final(self).sessions@,
                    )
                },
                None => {
                    &&& r == Err::<TokenResponse, Error>(Error::WrongCredentials)
                    &&& final(self).devices@ == old(self).devices@
                    &&& final(self).sessions@ == old(self).sessions@
                },
            },
    {
        let email = lowercase(payload.email.as_str());
        let user = match UserController::get_by_email(&self.users, email.as_str()) {
            Some(u) => u,
            None => return Err(Error::WrongCredentials),
        };
        let hash = match &user.password_hash {
            Some(h) => h,
            None => return Err(Error::WrongCredentials),
        };
        let hasher = PasswordHasher::new();
        match hasher.verify(hash.as_str(), payload.password.as_str()) {
            Ok(()) => {},
            Err(e) => return Err(e),
        }
        let new_device = owned_device(&payload.device, &user.id);
        let device = match DeviceController::create_or_update(&mut self.devices, &new_device) {
            Ok(d) => d,
            Err(e) => return Err(e),
        };
        TokenController::create_or_update(&mut self.sessions, &self.tokens, &user, device.id.as_str())
    }

    /// Exchanges a refresh string at time `now_s` (seconds) for a brand-new
    /// session pair on the device whose session holds it: new assertions, a
    /// new key and new nonces. A validation error is passed on unchanged; a
    /// valid string presented for another device is a mismatch; no refusal
    /// mints anything.
    pub fn refresh_at(&mut self, payload: &RefreshPayload, now_s: i64) -> (r: Result<TokenResponse, Error>)
        requires
            old(self).sessions.wf(),
        ensures
            final(self).sessions.wf(),
            final(self).tokens.secret() == old(self).tokens.secret(),
            final(self).users@ == old(self).users@,
            final(self).devices@ == old(self).devices@,
            refresh_outcome(
                old(self).sessions@,
                old(self).sessions.fresh_id(),
                old(self).tokens.secret(),
                old(self).users@,
                payload.refresh_token@,
                payload.device_id@,
                now_s,
                r,
                final(self).sessions@,
            ),
    {
        let row = match TokenController::get_by_refresh_token(&self.sessions, payload.refresh_token.as_str()) {
            Some(row) => row,
            None => return Err(Error::TokenMismatch),
        };
        let claims = match self.tokens.open_session(&row, payload.refresh_token.as_str(), TokenKind::Refresh, now_s) {
            Ok(c) => c,
            Err(e) => return Err(e),
        };
        if !(row.device_id == payload.device_id) {
            return Err(Error::TokenMismatch);
        }
        let user = match UserController::get(&self.users, claims.sub.as_str()) {
            Some(u) => u,
            None => return Err(Error::WrongCredentials),
        };
        TokenController::create_or_update(&mut self.sessions, &self.tokens, &user, payload.device_id.as_str())
    }

    /// Exchanges a refresh string against the wall clock.
    pub fn refresh(&mut self, payload: &RefreshPayload) -> (r: Result<TokenResponse, Error>)
        requires
            old(self).sessions.wf(),
        ensures
            final(self).sessions.wf(),
            final(self).tokens.secret() == old(self).tokens.secret(),
            final(self).users@ == old(self).users@,
            final(self).devices@ == old(self).devices@,
            exists|now_s: i64| #[trigger]
                refresh_outcome(
                    old(self).sessions@,
                    old(self).sessions.fresh_id(),
                    old(self).tokens.secret(),
                    old(self).users@,
                    payload.refresh_token@,
                    payload.device_id@,
                    now_s,
                    r,
                    final(self).sessions@,
                ),
    {
        let now_s = (now_millis() / 1000) as i64;
        self.refresh_at(payload, now_s)
    }

    /// Guest entry: records the device, binds it to its guest account, creating
    /// one only when the device has none, and mints a session for that guest.
    pub fn guest(&mut self, payload: &GuestPayload) -> (r: Result<TokenResponse, Error>)
        requires
            old(self).sessions.wf(),
        ensures
            final(self).sessions.wf(),
            final(self).tokens.secret() == old(self).tokens.secret(),
            match bound_guest(old(self).users@, old(self).devices@, payload.device) {
                Some(g) => {
                    &&& final(self).users@ == old(self).users@
                    &&& bound_as_guest(final(self).devices@, payload.device.id@, g.id)
                    &&& mints_for(
                        old(self).sessions@,
                        old(self).sessions.fresh_id(),
                        old(self).tokens.secret(),
                        g.id,
                        payload.device.id@,
                        r,
                        final(self).sessions@,
                    )
                },
                None => if old(self).users.fresh_id() < u64::MAX {
                    let g = final(self).users@.last();
                    &&& created_guest(old(self).users@, old(self).users.fresh_id(), g, final(self).users@)
                    &&& bound_as_guest(final(self).devices@, payload.device.id@, g.id)
                    &&& mints_for(
                        old(self).sessions@,
                        old(self).sessions.fresh_id(),
                        old(self).tokens.secret(),
                        g.id,
                        payload.device.id@,
                        r,
                        final(self).sessions@,
                    )
                } else {
                    &&& r matches Err(Error::StoreData(m)) && m@ == "user"@
                    &&& final(self).users@ == old(self).users@
                    &&& final(self).sessions@ == old(self).sessions@
                },
            },
    {
        let device = match DeviceController::create_or_update(&mut self.devices, &payload.device) {
            Ok(d) => d,
            Err(e) => return Err(e),
        };
        let guest = match device.get_guest(&self.users) {
            Some(g) => g,
            None => match UserController::create_guest(&mut self.users) {
                Ok(g) => g,
                Err(e) => return Err(e),
            },
        };
        let patch = DevicePatch {
            name: None,
            platform: None,
            user_id: Some(guest.id.clone()),
            guest_id: Some(guest.id.clone()),
            expo_token: None,
        };
        let bound = match DeviceController::update(&mut self.devices, device.id.as_str(), patch) {
            Ok(d) => d,
            Err(e) => return Err(e),
        };
        TokenController::create_or_update(&mut self.sessions, &self.tokens, &guest, device.id.as_str())
    }

    /// Whether an account uses `email`, compared in lowercase.
    pub fn check_email_exists(&self, email: &str) -> (r: CheckEmailResponse)
        ensures
            r.exists == user_where(self.users@, email_is(lower_of(email@))) is Some,
    {
        let lowered = lowercase(email);
        CheckEmailResponse { exists: UserController::get_by_email(&self.users, lowered.as_str()).is_some() }
    }

    /// Deletes the account `id` with the devices it owns and all its
    /// sessions; an unknown account gives `WrongCredentials`.
    pub fn delete_user(&mut self, id: &str) -> (r: Result<(), Error>)
        requires
            old(self).sessions.wf(),
        ensures
            final(self).sessions.wf(),
            final(self).tokens.secret() == old(self).tokens.secret(),
            r is Ok <==> user_where(old(self).users@, id_is(id@)) is Some,
            r is Ok ==> {
                &&& final(self).users@ == old(self).users@.filter(other_than(id@))
                &&& final(self).devices@ == old(self).devices@.filter(not_owned_by(id@))
                &&& final(self).sessions@ == old(self).sessions@.filter(not_of_user(id@))
            },
            r is Err ==> r == Err::<(), Error>(Error::WrongCredentials) && final(self).users@ == old(
                self,
            ).users@ && final(self).devices@ == old(self).devices@ && final(self).sessions@ == old(
                self,
            ).sessions@,
    {
        if UserController::get(&self.users, id).is_none() {
            return Err(Error::WrongCredentials);
        }
        self.devices.remove_owned(id);
        self.sessions.remove_user(id);
        self.users.remove(id);
        Ok(())
    }

    /// The claims that an access string carries now.
    pub fn validate_access(&self, encrypted_token: &str) -> (r: Result<Claims, Error>)
        ensures
            exists|now_s: i64| #[trigger]
                verdict(self.sessions@, encrypted_token@, TokenKind::Access, self.tokens.secret(), now_s)
                    == outcome(r),
    {
        self.tokens.validate_access_token(&self.sessions, encrypted_token)
    }
}

} // verus!
