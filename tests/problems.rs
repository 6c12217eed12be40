use turingarena_core::api::{ApiContext, FileInput, ProblemInput, ProblemUpdateInput};
use turingarena_core::auth::{ApiConfig, JwtData, UserId};
use turingarena_core::error::ApiError;
use turingarena_core::store::compute_integrity;

fn admin() -> ApiContext {
    ApiConfig::new().with_skip_auth(true).create_context(None, "/tmp/ws".to_string())
}

fn problem(name: &str, archive: &[u8]) -> ProblemInput {
    ProblemInput { name: name.to_string(), archive_content: archive.to_vec() }
}

fn file() -> Vec<FileInput> {
    vec![FileInput {
        type_id: "cpp".to_string(),
        field_id: "solution".to_string(),
        name: "a.cpp".to_string(),
        content_base64: "".to_string(),
    }]
}

#[test]
fn update_replaces_named_archives_only() {
    let mut ctx = admin();
    ctx.add_problems(&vec![problem("a", b"1"), problem("b", b"2")]).unwrap();
    ctx.update_problems(&vec![
        ProblemUpdateInput { name: "a".to_string(), archive_content: Some(b"3".to_vec()) },
        ProblemUpdateInput { name: "b".to_string(), archive_content: None },
    ])
    .unwrap();
    assert_eq!(ctx.problem("a").unwrap().archive_integrity, compute_integrity(b"3"));
    assert_eq!(ctx.problem("b").unwrap().archive_integrity, compute_integrity(b"2"));
    assert_eq!(ctx.artifacts().len(), 3);
}

#[test]
fn problem_changes_need_admin() {
    let mut ctx = ApiConfig::new()
        .with_secret(Some(b"k".to_vec()))
        .create_context(Some(JwtData { user: "u".to_string() }), "/tmp/ws".to_string());
    assert_eq!(ctx.add_problems(&vec![problem("a", b"1")]), Err(ApiError::Forbidden));
    assert_eq!(ctx.delete_problems(&vec!["a".to_string()]), Err(ApiError::Forbidden));
    assert_eq!(ctx.update_problems(&vec![]), Err(ApiError::Forbidden));
    assert_eq!(ctx.artifacts().len(), 0);
}

#[test]
fn delete_keeps_other_problems() {
    let mut ctx = admin();
    ctx.add_problems(&vec![problem("a", b"1"), problem("b", b"2"), problem("c", b"3")]).unwrap();
    ctx.delete_problems(&vec!["b".to_string(), "zzz".to_string()]).unwrap();
    assert!(ctx.problem("a").is_ok());
    assert_eq!(ctx.problem("b").unwrap_err(), ApiError::NotFound);
    assert!(ctx.problem("c").is_ok());
}

#[test]
fn submissions_listed_by_user_and_problem() {
    let mut ctx = admin();
    let a1 = ctx.submit(&UserId("ann".to_string()), "p", &file()).unwrap();
    ctx.submit(&UserId("bob".to_string()), "p", &file()).unwrap();
    ctx.submit(&UserId("ann".to_string()), "q", &file()).unwrap();
    let a2 = ctx.submit(&UserId("ann".to_string()), "p", &file()).unwrap();
    let listed = ctx.by_user_and_problem("ann", "p");
    assert_eq!(listed.len(), 2);
    assert_eq!(listed[0].id(), &a1);
    assert_eq!(listed[1].id(), &a2);
    assert!(ctx.by_user_and_problem("carl", "p").is_empty());
}

#[test]
fn empty_file_content_decodes_to_nothing() {
    let mut ctx = admin();
    let id = ctx.submit(&UserId("ann".to_string()), "p", &file()).unwrap();
    let sub = ctx.submission(&id).unwrap();
    assert!(sub.files()[0].content().is_empty());
    assert_eq!(sub.files()[0].field_id(), "solution");
    assert_eq!(sub.files()[0].type_id(), "cpp");
    assert_eq!(sub.files()[0].name(), "a.cpp");
    assert!(!sub.created_at().is_empty());
}
