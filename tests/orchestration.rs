use turingarena_core::api::{ApiContext, FileInput, ProblemInput};
use turingarena_core::auth::{ApiConfig, JwtData, UserId};
use turingarena_core::error::ApiError;
use turingarena_core::evaluation::{Evaluation, EvaluationStatus, Event};
use turingarena_core::material::{gen_material, JudgeSubtask, JudgeTask};
use turingarena_core::score::{total_score, AwardKey, AwardOutcome, Score};

fn admin() -> ApiContext {
    ApiConfig::new().with_skip_auth(true).create_context(None, "/tmp/ws".to_string())
}

fn solution() -> Vec<FileInput> {
    vec![FileInput {
        type_id: "cpp".to_string(),
        field_id: "solution".to_string(),
        name: "sol.cpp".to_string(),
        content_base64: "aGVsbG8=".to_string(),
    }]
}

fn score(subtask: u32, testcase: u32, hundredths: u64) -> Event {
    Event::Score { subtask, testcase, score: Score(hundredths) }
}

#[test]
fn lifecycle_of_an_evaluation() {
    let mut e = Evaluation::new("s1".to_string());
    assert_eq!(e.status(), EvaluationStatus::Pending);
    e.record(score(1, 1, 100));
    assert_eq!(e.status(), EvaluationStatus::Pending);
    assert!(e.events().is_empty());
    e.dispatched(Ok(()));
    assert_eq!(e.status(), EvaluationStatus::Running);
    e.record(score(1, 1, 100));
    e.record(Event::Message("compiled".to_string()));
    e.record(Event::Done);
    assert_eq!(e.status(), EvaluationStatus::Succeeded);
    e.record(Event::Error("late".to_string()));
    e.dispatched(Err("again".to_string()));
    assert_eq!(e.status(), EvaluationStatus::Succeeded);
    assert_eq!(e.events().len(), 3);
}

#[test]
fn failed_dispatch_fails_with_event() {
    let mut e = Evaluation::new("s1".to_string());
    e.dispatched(Err("archive missing".to_string()));
    assert_eq!(e.status(), EvaluationStatus::Failed);
    assert!(matches!(&e.events()[0], Event::Error(m) if m == "archive missing"));
    e.dispatched(Ok(()));
    assert_eq!(e.status(), EvaluationStatus::Failed);
}

#[test]
fn judge_error_fails_evaluation() {
    let mut e = Evaluation::new("s1".to_string());
    e.dispatched(Ok(()));
    e.record(Event::Error("crash".to_string()));
    assert_eq!(e.status(), EvaluationStatus::Failed);
}

#[test]
fn awards_group_testcases_into_subtasks() {
    let mut e = Evaluation::new("s1".to_string());
    e.dispatched(Ok(()));
    e.record(score(2, 1, 100));
    e.record(score(1, 1, 50));
    e.record(score(2, 2, 25));
    e.record(Event::Done);
    let awards = e.awards();
    assert_eq!(
        awards,
        vec![
            AwardOutcome { key: AwardKey::Subtask(2), score: Score(125) },
            AwardOutcome { key: AwardKey::Subtask(1), score: Score(50) },
            AwardOutcome { key: AwardKey::Testcase(2, 1), score: Score(100) },
            AwardOutcome { key: AwardKey::Testcase(1, 1), score: Score(50) },
            AwardOutcome { key: AwardKey::Testcase(2, 2), score: Score(25) },
        ]
    );
}

#[test]
fn submit_evaluate_and_score() {
    let mut ctx = admin();
    let task = JudgeTask {
        title: "p1".to_string(),
        subtasks: vec![
            JudgeSubtask { id: 1, max_score: Score::points(40), testcases: vec![1, 2] },
            JudgeSubtask { id: 2, max_score: Score::points(60), testcases: vec![1] },
        ],
    };
    let material = gen_material(&task, &vec![], &vec![]);
    let id = ctx.submit(&UserId("alice".to_string()), "p1", &solution()).unwrap();
    let sub = ctx.submission(&id).unwrap();
    assert_eq!(sub.user_id(), "alice");
    assert_eq!(sub.problem_name(), "p1");
    assert_eq!(sub.files()[0].content(), &b"hello".to_vec());
    assert_eq!(ctx.evaluation(&id).unwrap().status(), EvaluationStatus::Pending);
    ctx.dispatched(&id, Ok(())).unwrap();
    assert_eq!(ctx.evaluation(&id).unwrap().status(), EvaluationStatus::Running);
    ctx.record_event(&id, score(1, 1, 100)).unwrap();
    ctx.record_event(&id, score(1, 2, 100)).unwrap();
    ctx.record_event(&id, score(2, 1, 6000)).unwrap();
    ctx.record_event(&id, Event::Done).unwrap();
    let evaluation = ctx.evaluation(&id).unwrap();
    assert_eq!(evaluation.status(), EvaluationStatus::Succeeded);
    let awards = evaluation.awards();
    assert_eq!(awards[0], AwardOutcome { key: AwardKey::Subtask(1), score: Score(200) });
    assert_eq!(awards[1], AwardOutcome { key: AwardKey::Subtask(2), score: Score(6000) });
    let total = total_score(&awards, &material.scorables);
    assert_eq!(total, Score(6200));
    assert!(total.0 <= material.total_score_range().max.0);
}

#[test]
fn reevaluation_supersedes() {
    let mut ctx = admin();
    let id = ctx.submit(&UserId("u".to_string()), "p", &solution()).unwrap();
    ctx.dispatched(&id, Ok(())).unwrap();
    ctx.record_event(&id, Event::Done).unwrap();
    ctx.evaluate(&vec![id.clone()]).unwrap();
    assert_eq!(ctx.evaluation(&id).unwrap().status(), EvaluationStatus::Pending);
}

#[test]
fn evaluate_needs_admin_and_known_ids() {
    let mut ctx = admin();
    assert_eq!(ctx.evaluate(&vec!["nope".to_string()]), Err(ApiError::NotFound));
    let mut user = ApiConfig::new()
        .with_secret(Some(b"k".to_vec()))
        .create_context(Some(JwtData { user: "u".to_string() }), "/tmp/ws".to_string());
    assert_eq!(user.evaluate(&vec![]), Err(ApiError::Forbidden));
}

#[test]
fn submit_checks_user_and_content() {
    let mut ctx = ApiConfig::new()
        .with_secret(Some(b"k".to_vec()))
        .create_context(Some(JwtData { user: "u".to_string() }), "/tmp/ws".to_string());
    assert_eq!(
        ctx.submit(&UserId("v".to_string()), "p", &solution()),
        Err(ApiError::Forbidden)
    );
    let mut bad = solution();
    bad[0].content_base64 = "not base64!".to_string();
    assert_eq!(ctx.submit(&UserId("u".to_string()), "p", &bad), Err(ApiError::InvalidFileContent));
    let id = ctx.submit(&UserId("u".to_string()), "p", &solution()).unwrap();
    assert_eq!(id.len(), 36);
    assert!(ctx.submission(&id).is_ok());
    assert_eq!(ctx.submission("missing").unwrap_err(), ApiError::NotFound);
    assert_eq!(ctx.dispatched("missing", Ok(())), Err(ApiError::NotFound));
}

#[test]
fn other_users_cannot_see_a_submission() {
    let mut ctx = admin();
    let id = ctx.submit(&UserId("alice".to_string()), "p", &solution()).unwrap();
    let mut other = ApiConfig::new()
        .with_secret(Some(b"k".to_vec()))
        .create_context(Some(JwtData { user: "bob".to_string() }), "/tmp/ws".to_string());
    other
        .insert_submission(id.clone(), "now".to_string(), "alice", "p", &solution())
        .unwrap();
    other.start_evaluation(&id);
    assert_eq!(other.submission(&id).unwrap_err(), ApiError::Forbidden);
    assert_eq!(other.evaluation(&id).unwrap_err(), ApiError::Forbidden);
    assert!(ctx.evaluation(&id).is_ok());
}

#[test]
fn problems_are_stored_and_unpacked() {
    let mut ctx = admin();
    ctx.add_problems(&vec![ProblemInput { name: "p1".to_string(), archive_content: b"tar".to_vec() }])
        .unwrap();
    let integrity = ctx.problem("p1").unwrap().archive_integrity.clone();
    assert_eq!(ctx.artifacts().content_of(&integrity).unwrap(), &b"tar".to_vec());
    let plan = ctx.unpack_problem("p1").unwrap();
    assert_eq!(plan.path, format!("/tmp/ws/problem-{}", integrity));
    assert_eq!(plan.extract, Some(b"tar".to_vec()));
    assert!(ctx.unpack_problem("p1").unwrap().extract.is_none());
    assert_eq!(ctx.unpack_problem("p2").unwrap_err(), ApiError::NotFound);
    ctx.delete_problems(&vec!["p1".to_string()]).unwrap();
    assert_eq!(ctx.problem("p1").unwrap_err(), ApiError::NotFound);
}

#[test]
fn blobs_through_the_context() {
    let mut ctx = admin();
    let d = ctx.create_blob(b"zip");
    assert_eq!(ctx.create_blob(b"zip"), d);
    assert_eq!(ctx.artifacts().len(), 1);
    let plan = ctx.unpack_archive(&d, "problem").unwrap();
    assert_eq!(plan.path, format!("{}/problem-{}", ctx.workspace_path(), d));
}
