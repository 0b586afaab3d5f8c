use echo_server::auth::{Backend, GuestPayload, LoginPayload, RefreshPayload, UserPayload};
use echo_server::device::{DeviceController, DevicePatch, NewDevice};
use echo_server::error::Error;
use echo_server::user::{NewUser, PasswordHasher, UserController, UserPatch, UserType};

fn backend() -> Backend {
    Backend::new(b"flow secret".to_vec())
}

fn device(id: &str) -> NewDevice {
    NewDevice {
        id: id.to_string(),
        name: Some("phone".to_string()),
        platform: Some("ios".to_string()),
        user_id: None,
        guest_id: None,
        expo_token: None,
    }
}

fn signup_payload(email: &str, password: &str, device_id: &str) -> UserPayload {
    UserPayload {
        user: NewUser {
            password: Some(password.to_string()),
            email: Some(email.to_string()),
            avatar_seed: None,
            name: Some("Ana".to_string()),
        },
        device: device(device_id),
    }
}

#[test]
fn signup_validate_relogin_scenario() {
    let mut db = backend();
    let first = db.signup(&signup_payload("u1@example.com", "hunter2", "D1")).unwrap();
    let u1 = UserController::get_by_email(&db.users, "u1@example.com").unwrap();
    assert_eq!(u1.id, "user:1");
    assert_eq!(db.validate_access(&first.token).unwrap().sub, u1.id);

    let login = LoginPayload {
        email: "u1@example.com".to_string(),
        password: "hunter2".to_string(),
        device: device("D1"),
    };
    let second = db.login(&login).unwrap();
    assert_ne!(second.token, first.token);
    assert!(matches!(db.validate_access(&first.token), Err(Error::TokenMismatch)));
    assert_eq!(db.validate_access(&second.token).unwrap().sub, u1.id);
}

#[test]
fn guest_entry_binds_device_to_one_guest() {
    let mut db = backend();
    let first = db.guest(&GuestPayload { device: device("D2") }).unwrap();
    let guest_sub = db.validate_access(&first.token).unwrap().sub;
    let stored = DeviceController::get(&db.devices, "D2").unwrap();
    assert_eq!(stored.guest_id.as_deref(), Some(guest_sub.as_str()));
    assert_eq!(stored.user_id.as_deref(), Some(guest_sub.as_str()));
    let guest = UserController::get(&db.users, &guest_sub).unwrap();
    assert_eq!(guest.user_type, UserType::Guest);
    assert!(guest.password_hash.is_none());
    let name = guest.name.unwrap();
    assert!(name.starts_with("Guest#"));
    assert_eq!(name.chars().count(), 10);

    let again = db.guest(&GuestPayload { device: device("D2") }).unwrap();
    assert_eq!(db.validate_access(&again.token).unwrap().sub, guest_sub);
    assert!(matches!(db.validate_access(&first.token), Err(Error::TokenMismatch)));
    assert!(UserController::get(&db.users, "user:2").is_none());
}

#[test]
fn guests_on_two_devices_are_distinct() {
    let mut db = backend();
    let a = db.guest(&GuestPayload { device: device("A") }).unwrap();
    let b = db.guest(&GuestPayload { device: device("B") }).unwrap();
    let sa = db.validate_access(&a.token).unwrap().sub;
    let sb = db.validate_access(&b.token).unwrap().sub;
    assert_eq!(sa, "user:1");
    assert_eq!(sb, "user:2");
}

#[test]
fn refresh_rotates_the_whole_pair() {
    let mut db = backend();
    let first = db.guest(&GuestPayload { device: device("D3") }).unwrap();
    let payload = RefreshPayload {
        refresh_token: first.refresh_token.clone().unwrap(),
        device_id: "D3".to_string(),
    };
    let second = db.refresh(&payload).unwrap();
    assert_ne!(second.token, first.token);
    assert_ne!(second.refresh_token, first.refresh_token);
    assert!(matches!(db.validate_access(&first.token), Err(Error::TokenMismatch)));
    assert_eq!(db.validate_access(&second.token).unwrap().sub, "user:1");
    assert!(matches!(db.refresh(&payload), Err(Error::TokenMismatch)));
}

#[test]
fn refresh_with_access_string_is_mismatch() {
    let mut db = backend();
    let first = db.guest(&GuestPayload { device: device("D4") }).unwrap();
    let payload = RefreshPayload { refresh_token: first.token.clone(), device_id: "D4".to_string() };
    assert!(matches!(db.refresh(&payload), Err(Error::TokenMismatch)));
}

#[test]
fn login_failures_are_uniform() {
    let mut db = backend();
    db.signup(&signup_payload("a@b.c", "right", "D1")).unwrap();
    let wrong = LoginPayload { email: "a@b.c".to_string(), password: "wrong".to_string(), device: device("D1") };
    assert!(matches!(db.login(&wrong), Err(Error::WrongCredentials)));
    let unknown = LoginPayload { email: "x@y.z".to_string(), password: "right".to_string(), device: device("D1") };
    assert!(matches!(db.login(&unknown), Err(Error::WrongCredentials)));
    db.guest(&GuestPayload { device: device("G") }).unwrap();
    let upper = LoginPayload { email: "A@B.C".to_string(), password: "right".to_string(), device: device("D5") };
    assert!(db.login(&upper).is_ok());
}

#[test]
fn signup_refusals() {
    let mut db = backend();
    db.signup(&signup_payload("taken@x.io", "pw", "D1")).unwrap();
    assert!(matches!(db.signup(&signup_payload("TAKEN@x.io", "pw", "D2")), Err(Error::EmailInUse)));
    let mut no_email = signup_payload("n@x.io", "pw", "D3");
    no_email.user.email = None;
    assert!(matches!(db.signup(&no_email), Err(Error::BadRequest(_))));
    let mut no_password = signup_payload("n@x.io", "pw", "D3");
    no_password.user.password = None;
    assert!(matches!(db.signup(&no_password), Err(Error::BadRequest(_))));
    assert!(db.check_email_exists("Taken@X.io").exists);
    assert!(!db.check_email_exists("n@x.io").exists);
}

#[test]
fn signup_binds_device_to_new_account() {
    let mut db = backend();
    db.signup(&signup_payload("own@x.io", "pw", "D9")).unwrap();
    let stored = DeviceController::get(&db.devices, "D9").unwrap();
    assert_eq!(stored.user_id.as_deref(), Some("user:1"));
    assert_eq!(stored.platform.as_deref(), Some("ios"));
    let user = UserController::get(&db.users, "user:1").unwrap();
    assert_eq!(user.user_type, UserType::User);
    assert_ne!(user.password_hash.as_deref(), Some("pw"));
}

#[test]
fn password_hasher_checks() {
    let hasher = PasswordHasher::new();
    let hash = hasher.derive("secret pw").unwrap();
    assert!(hash.starts_with("$argon2"));
    assert!(hasher.verify(&hash, "secret pw").is_ok());
    assert!(matches!(hasher.verify(&hash, "other"), Err(Error::WrongCredentials)));
    assert!(matches!(hasher.verify("not a phc string", "secret pw"), Err(Error::WrongCredentials)));
}

#[test]
fn device_upsert_merges_reported_fields() {
    let mut db = backend();
    DeviceController::create_or_update(&mut db.devices, &device("M")).unwrap();
    let mut report = device("M");
    report.name = None;
    report.platform = Some("android".to_string());
    report.expo_token = Some("push".to_string());
    let merged = DeviceController::create_or_update(&mut db.devices, &report).unwrap();
    assert_eq!(merged.name.as_deref(), Some("phone"));
    assert_eq!(merged.platform.as_deref(), Some("android"));
    assert_eq!(merged.expo_token.as_deref(), Some("push"));
    let patched = DeviceController::update(
        &mut db.devices,
        "M",
        DevicePatch { name: Some("tablet".to_string()), platform: None, user_id: None, guest_id: None, expo_token: None },
    )
    .unwrap();
    assert_eq!(patched.name.as_deref(), Some("tablet"));
    assert_eq!(patched.platform.as_deref(), Some("android"));
    let missing = DeviceController::update(
        &mut db.devices,
        "nope",
        DevicePatch { name: None, platform: None, user_id: None, guest_id: None, expo_token: None },
    );
    assert!(matches!(missing, Err(Error::StoreData(_))));
    let from = DevicePatch::from(&report);
    assert_eq!(from.platform.as_deref(), Some("android"));
    assert!(from.name.is_none());
}

#[test]
fn user_update_applies_patch() {
    let mut db = backend();
    let guest = UserController::create_guest(&mut db.users).unwrap();
    let patch = UserPatch { name: Some("Bo".to_string()), avatar_seed: None, password_hash: None };
    let updated = UserController::update(&mut db.users, &guest.id, patch).unwrap();
    assert_eq!(updated.name.as_deref(), Some("Bo"));
    assert_eq!(updated.avatar_seed, guest.avatar_seed);
    let none = UserPatch { name: None, avatar_seed: None, password_hash: None };
    assert!(matches!(UserController::update(&mut db.users, "user:99", none), Err(Error::StoreData(_))));
}

#[test]
fn deleting_an_account_revokes_its_sessions() {
    let mut db = backend();
    let mine = db.guest(&GuestPayload { device: device("P") }).unwrap();
    let other = db.guest(&GuestPayload { device: device("Q") }).unwrap();
    let sub = db.validate_access(&mine.token).unwrap().sub;
    assert!(db.delete_user(&sub).is_ok());
    assert!(matches!(db.validate_access(&mine.token), Err(Error::TokenMismatch)));
    assert!(DeviceController::get(&db.devices, "P").is_none());
    assert!(UserController::get(&db.users, &sub).is_none());
    assert_eq!(db.validate_access(&other.token).unwrap().sub, "user:2");
    assert!(matches!(db.delete_user(&sub), Err(Error::WrongCredentials)));
}

#[test]
fn refresh_from_another_device_is_mismatch() {
    let mut db = backend();
    let first = db.guest(&GuestPayload { device: device("R1") }).unwrap();
    let payload = RefreshPayload { refresh_token: first.refresh_token.clone().unwrap(), device_id: "R2".to_string() };
    assert!(matches!(db.refresh(&payload), Err(Error::TokenMismatch)));
    assert_eq!(db.validate_access(&first.token).unwrap().sub, "user:1");
}

#[test]
fn refresh_for_deleted_subject_is_wrong_credentials() {
    let mut db = backend();
    let first = db.guest(&GuestPayload { device: device("R3") }).unwrap();
    let payload = RefreshPayload { refresh_token: first.refresh_token.clone().unwrap(), device_id: "R3".to_string() };
    let mut users_only = echo_server::user::UserStore::new();
    std::mem::swap(&mut db.users, &mut users_only);
    assert!(matches!(db.refresh(&payload), Err(Error::WrongCredentials)));
    std::mem::swap(&mut db.users, &mut users_only);
    assert!(db.refresh(&payload).is_ok());
}

#[test]
fn signup_with_capitals_can_log_in() {
    let mut db = backend();
    db.signup(&signup_payload("Cap@Example.com", "pw", "C1")).unwrap();
    let stored = UserController::get(&db.users, "user:1").unwrap();
    assert_eq!(stored.email.as_deref(), Some("cap@example.com"));
    let login = LoginPayload { email: "Cap@Example.com".to_string(), password: "pw".to_string(), device: device("C1") };
    assert!(db.login(&login).is_ok());
}

#[test]
fn expired_refresh_from_another_device_is_unauthorized() {
    let mut db = backend();
    let first = db.guest(&GuestPayload { device: device("E1") }).unwrap();
    let payload = RefreshPayload { refresh_token: first.refresh_token.clone().unwrap(), device_id: "E2".to_string() };
    assert!(matches!(db.refresh_at(&payload, i64::MAX), Err(Error::Unauthorized)));
    let own = RefreshPayload { refresh_token: first.refresh_token.clone().unwrap(), device_id: "E1".to_string() };
    assert!(matches!(db.refresh_at(&own, i64::MAX), Err(Error::Unauthorized)));
    assert_eq!(db.validate_access(&first.token).unwrap().sub, "user:1");
}

#[test]
fn record_ids_count_in_decimal() {
    let mut db = backend();
    let mut last = String::new();
    for _ in 0..12 {
        last = UserController::create_guest(&mut db.users).unwrap().id;
    }
    assert_eq!(last, "user:12");
    assert!(UserController::get(&db.users, "user:10").is_some());
}
