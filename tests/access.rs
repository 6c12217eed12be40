use turingarena_core::auth::{ApiConfig, ContestArgs, JwtData, UserId};
use turingarena_core::error::ApiError;
use turingarena_core::misc::{Announcement, MutationOk, ServerArgs};

fn context(skip: bool, secret: Option<&str>, user: Option<&str>) -> turingarena_core::api::ApiContext {
    ApiConfig::new()
        .with_skip_auth(skip)
        .with_secret(secret.map(|s| s.as_bytes().to_vec()))
        .create_context(user.map(|u| JwtData { user: u.to_string() }), "/tmp/ws".to_string())
}

fn some_user(u: &str) -> Option<UserId> {
    Some(UserId(u.to_string()))
}

#[test]
fn admin_only_when_skipping_auth() {
    assert_eq!(context(true, None, None).authorize_admin(), Ok(()));
    assert_eq!(context(false, Some("k"), Some("a")).authorize_admin(), Err(ApiError::Forbidden));
}

#[test]
fn user_check_matches_identity() {
    let ctx = context(false, Some("k"), Some("alice"));
    assert_eq!(ctx.authorize_user(&some_user("alice")), Ok(()));
    assert_eq!(ctx.authorize_user(&some_user("bob")), Err(ApiError::Forbidden));
    assert_eq!(ctx.authorize_user(&None), Ok(()));
}

#[test]
fn user_check_skipped() {
    let ctx = context(true, Some("k"), Some("alice"));
    assert_eq!(ctx.authorize_user(&some_user("bob")), Ok(()));
}

#[test]
fn user_check_needs_token() {
    let ctx = context(false, Some("k"), None);
    assert_eq!(ctx.authorize_user(&some_user("bob")), Err(ApiError::AuthenticationRequired));
}

#[test]
fn user_check_without_secret_passes() {
    let ctx = context(false, None, None);
    assert_eq!(ctx.authorize_user(&some_user("bob")), Ok(()));
}

#[test]
fn config_builders() {
    let c = ApiConfig::default();
    assert!(!c.skip_auth);
    assert!(c.secret.is_none());
    assert_eq!(c.database_url, "");
    let c = c
        .with_args(ContestArgs { database_url: "./db.sqlite3".to_string() })
        .with_secret(Some(vec![1, 2]))
        .with_skip_auth(true);
    assert_eq!(c.database_url, "./db.sqlite3");
    assert_eq!(c.secret, Some(vec![1, 2]));
    assert!(c.skip_auth);
    let c = c.with_database_url("other".to_string());
    assert_eq!(c.database_url, "other");
    assert!(c.skip_auth);
}

#[test]
fn small_types() {
    assert!(MutationOk::ok());
    let a = Announcement { id: 1, text: "Hello".to_string() };
    assert_eq!(a.text(), "Hello");
    let args = ServerArgs {
        contest: ContestArgs { database_url: "db".to_string() },
        host: "localhost".to_string(),
        port: 8080,
        secret_key: None,
        skip_auth: false,
        enable_dmz: false,
    };
    assert!(!args.is_usable());
    let args = ServerArgs { secret_key: Some("s".to_string()), ..args };
    assert!(args.is_usable());
}

#[test]
fn identity_attached_later() {
    let ctx = context(false, Some("k"), None);
    assert_eq!(ctx.authorize_user(&some_user("ann")), Err(ApiError::AuthenticationRequired));
    let ctx = ctx.with_jwt_data(Some(JwtData { user: "ann".to_string() }));
    assert_eq!(ctx.authorize_user(&some_user("ann")), Ok(()));
}
