use echo_server::api::{
    authorize_url, contains, default_limit, get_default_webhook_base, make_default_webhook_url,
    sanitized_url, PaginationParameters,
};
use echo_server::auth::get_new_user_email;
use echo_server::connector::{modal_base_url, reverb_base_url};
use echo_server::error::Error;
use echo_server::user::NewUser;

#[test]
fn webhook_urls_per_deployment() {
    assert_eq!(make_default_webhook_url("prod", "diarize"), "https://echo-server.fly.dev/webhook/diarize/status");
    assert_eq!(
        make_default_webhook_url("development", "diarize"),
        "https://8a40d8967902.ngrok-free.app/webhook/diarize/status"
    );
    assert_eq!(make_default_webhook_url("staging", "x"), "/webhook/x/status");
    assert_eq!(get_default_webhook_base("prod"), "https://echo-server.fly.dev/webhook");
}

#[test]
fn pagination_defaults() {
    let p: PaginationParameters<()> = PaginationParameters::default();
    assert_eq!(p.offset, 0);
    assert_eq!(p.limit, 50);
    assert!(p.filters.is_none());
    assert_eq!(default_limit(), 50);
}

#[test]
fn file_url_authorization() {
    assert_eq!(authorize_url("https://f/a.m4a", "tok"), "https://f/a.m4a?Authorization=tok");
    assert_eq!(authorize_url("https://f/a.m4a?x=1", "tok"), "https://f/a.m4a?x=1&Authorization=tok");
    assert_eq!(authorize_url("https://f/a?Authorization=old", "tok"), "https://f/a?Authorization=old");
    assert!(contains("abcabd", "abd"));
    assert!(!contains("abcab", "abd"));
    assert!(contains("abc", ""));
    assert!(!contains("", "a"));
}

#[test]
fn file_url_sanitizing() {
    assert_eq!(sanitized_url("https://f/a.m4a?Authorization=tok&x=1"), "https://f/a.m4a");
    assert_eq!(sanitized_url("https://f/a.m4a"), "https://f/a.m4a");
    assert_eq!(sanitized_url("?q"), "");
}

#[test]
fn signup_email_is_lowercased() {
    let u = NewUser { password: None, email: Some("MiXeD@Example.COM".to_string()), avatar_seed: None, name: None };
    assert_eq!(get_new_user_email(&u).unwrap(), "mixed@example.com");
    let none = NewUser { password: None, email: None, avatar_seed: None, name: None };
    assert!(matches!(get_new_user_email(&none), Err(Error::BadRequest(_))));
}

#[test]
fn status_codes() {
    assert_eq!(Error::NotFound("x".to_string()).status_code(), 404);
    assert_eq!(Error::BadRequest("x".to_string()).status_code(), 400);
    assert_eq!(Error::StoreData("token".to_string()).status_code(), 500);
    assert_eq!(Error::PasswordHash.status_code(), 500);
    assert_eq!(Error::WrongCredentials.status_code(), 401);
    assert_eq!(Error::TokenMismatch.status_code(), 401);
    assert_eq!(Error::Unauthorized.status_code(), 401);
    assert_eq!(Error::EmailInUse.status_code(), 401);
    assert_eq!(Error::Jwt.status_code(), 401);
}

#[test]
fn service_base_urls_per_deployment() {
    assert_eq!(modal_base_url("prod"), "https://litsdm--orestiad-main.modal.run");
    assert_eq!(modal_base_url("development"), "https://litsdm--orestiad-main-dev.modal.run");
    assert_eq!(reverb_base_url("prod"), "https://reverb.fly.dev");
    assert_eq!(reverb_base_url("staging"), "http://localhost:4000");
}
