use turingarena_core::material::{
    attachment_at, gen_material, match_statement, Cell, ColContent, JudgeSubtask, JudgeTask,
    Section, TaskFile,
};
use turingarena_core::score::{AwardKey, Score, ScoreRange};

fn subtask(id: u32, points: u32, testcases: Vec<u32>) -> JudgeSubtask {
    JudgeSubtask { id, max_score: Score::points(points), testcases }
}

fn file(name: &str, content: &[u8]) -> TaskFile {
    TaskFile { name: name.to_string(), content: content.to_vec() }
}

#[test]
fn zero_weight_subtask_has_no_scorable_but_a_row_group() {
    let task = JudgeTask {
        title: "Sum".to_string(),
        subtasks: vec![subtask(2, 40, vec![2, 1]), subtask(1, 0, vec![1])],
    };
    let m = gen_material(&task, &vec![], &vec![]);
    assert_eq!(m.scorables.len(), 1);
    assert_eq!(m.scorables[0].name, AwardKey::Subtask(2));
    assert_eq!(m.scorables[0].title[0].value, "Subtask 2");
    assert_eq!(m.scorables[0].range, ScoreRange { precision: 0, max: Score(4000) });
    let Section::Table(table) = &m.feedback[0];
    assert_eq!(table.row_groups.len(), 2);
    assert_eq!(table.row_groups[0].title[0].value, "Subtask 1");
    assert_eq!(table.row_groups[0].rows.len(), 1);
    assert_eq!(table.row_groups[1].rows.len(), 2);
    assert_eq!(table.row_groups[1].rows[0].cells[0], Cell::RowNumber(1));
    assert_eq!(
        table.row_groups[1].rows[1].cells[1],
        Cell::Score {
            range: ScoreRange { precision: 2, max: Score(100) },
            key: AwardKey::Testcase(2, 2),
        }
    );
    assert_eq!(AwardKey::Testcase(2, 2).text(), "subtask.2.testcase.2.score");
}

#[test]
fn fixed_parts_of_material() {
    let task = JudgeTask { title: "Empty".to_string(), subtasks: vec![] };
    let m = gen_material(&task, &vec![], &vec![]);
    assert_eq!(m.title[0].value, "Empty");
    assert!(m.scorables.is_empty());
    let Section::Table(table) = &m.feedback[0];
    assert!(table.row_groups.is_empty());
    assert_eq!(table.caption[0].value, "Test case results");
    assert_eq!(table.cols.len(), 2);
    assert_eq!(table.cols[0].title[0].value, "Case");
    assert_eq!(table.cols[0].content, ColContent::RowNumber);
    assert_eq!(table.cols[1].title[0].value, "Score");
    assert_eq!(
        table.cols[1].content,
        ColContent::Score(ScoreRange { precision: 2, max: Score(100) })
    );
    let field = &m.submission_form.fields[0];
    assert_eq!(field.id, "solution");
    assert_eq!(field.types[0].id, "cpp");
    assert_eq!(field.types[0].extensions, vec![".cpp".to_string(), ".cc".to_string()]);
    assert_eq!(field.types[0].primary_extension, ".cpp");
}

#[test]
fn total_score_range_sums_scorables() {
    let task = JudgeTask {
        title: "T".to_string(),
        subtasks: vec![subtask(1, 0, vec![1]), subtask(2, 40, vec![1]), subtask(3, 60, vec![])],
    };
    let m = gen_material(&task, &vec![], &vec![]);
    assert_eq!(m.total_score_range(), ScoreRange { precision: 0, max: Score(10000) });
}

#[test]
fn statements_by_extension() {
    let pdf = match_statement(&file("english.pdf", b"%PDF")).unwrap();
    assert_eq!(pdf.attributes[0].key, "language_name");
    assert_eq!(pdf.attributes[0].value, "english");
    assert_eq!(pdf.name.as_deref(), Some("english.pdf"));
    assert_eq!(pdf.media_type.as_deref(), Some("application/pdf"));
    assert_eq!(pdf.content, b"%PDF".to_vec());
    let html = match_statement(&file("it.html", b"")).unwrap();
    assert_eq!(html.media_type.as_deref(), Some("text/html"));
    let md = match_statement(&file("a.b.md", b"")).unwrap();
    assert_eq!(md.attributes[0].value, "a.b");
    assert_eq!(md.media_type.as_deref(), Some("application/markdown"));
}

#[test]
fn other_files_are_not_statements() {
    assert!(match_statement(&file("notes.txt", b"")).is_none());
    assert!(match_statement(&file("README", b"")).is_none());
    assert!(match_statement(&file(".pdf", b"")).is_none());
    assert!(match_statement(&file("pdf.", b"")).is_none());
}

#[test]
fn statements_kept_in_order_others_skipped() {
    let task = JudgeTask { title: "T".to_string(), subtasks: vec![] };
    let statements = vec![file("en.md", b"a"), file("x.txt", b"b"), file("it.pdf", b"c")];
    let m = gen_material(&task, &statements, &vec![]);
    assert_eq!(m.statement.len(), 2);
    assert_eq!(m.statement[0].attributes[0].value, "en");
    assert_eq!(m.statement[1].attributes[0].value, "it");
}

#[test]
fn attachments_guess_media_type() {
    let a = attachment_at(&file("input.txt", b"1 2"));
    assert_eq!(a.title[0].value, "input.txt");
    assert_eq!(a.file[0].name.as_deref(), Some("input.txt"));
    assert_eq!(a.file[0].media_type.as_deref(), Some("text/plain"));
    assert_eq!(a.file[0].content, b"1 2".to_vec());
    let b = attachment_at(&file("data.nosuchext", b""));
    assert!(b.file[0].media_type.is_none());
}

#[test]
fn every_attachment_listed() {
    let task = JudgeTask { title: "T".to_string(), subtasks: vec![] };
    let m = gen_material(&task, &vec![], &vec![file("a.png", b""), file("b", b"")]);
    assert_eq!(m.attachments.len(), 2);
    assert_eq!(m.attachments[0].file[0].media_type.as_deref(), Some("image/png"));
    assert!(m.attachments[1].file[0].media_type.is_none());
}
