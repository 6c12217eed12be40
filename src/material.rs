use vstd::prelude::*;
use vstd::string::*;
use crate::content::{copy_bytes, is_plain_text, opt_text, plain_text, FileVariant, TextVariant, VariantAttribute};
use crate::order::{ascending, sort_ids};
use crate::score::{merged, ranges_of, AwardKey, Score, ScoreRange, Scorable};
use crate::text::{decimal, decimal_string, str_eq};

verus! {

/// A subtask of a judge's task: its id, its maximum score and the ids of
/// its testcases, in no particular order.
#[derive(Debug)]
pub struct JudgeSubtask {
    pub id: u32,
    pub max_score: Score,
    pub testcases: Vec<u32>,
}

/// A judge's task description: a title and subtasks, in no particular order.
#[derive(Debug)]
pub struct JudgeTask {
    pub title: String,
    pub subtasks: Vec<JudgeSubtask>,
}

/// A file found beside a task: its name (without directories) and bytes.
#[derive(Debug)]
pub struct TaskFile {
    pub name: String,
    pub content: Vec<u8>,
}

/// A file type accepted by a submission field.
#[derive(Debug)]
pub struct FileType {
    pub id: String,
    pub title: Vec<TextVariant>,
    pub extensions: Vec<String>,
    pub primary_extension: String,
}

/// A field of a submission form.
#[derive(Debug)]
pub struct Field {
    pub id: String,
    pub title: Vec<TextVariant>,
    pub types: Vec<FileType>,
}

/// The form a submission fills in.
#[derive(Debug)]
pub struct Form {
    pub fields: Vec<Field>,
}

/// A file handed to contestants with the statement.
#[derive(Debug)]
pub struct Attachment {
    pub title: Vec<TextVariant>,
    pub file: Vec<FileVariant>,
}

/// What a feedback column shows.
#[derive(Clone, Copy, Debug, PartialEq, Eq, Structural)]
pub enum ColContent {
    RowNumber,
    Score(ScoreRange),
}

/// A column of a feedback table.
#[derive(Debug)]
pub struct Col {
    pub title: Vec<TextVariant>,
    pub content: ColContent,
}

/// A cell of a feedback table: a row number, or the score awarded under a key.
#[derive(Clone, Copy, Debug, PartialEq, Eq, Structural)]
pub enum Cell {
    RowNumber(u32),
    Score { range: ScoreRange, key: AwardKey },
}

/// A row of a feedback table.
#[derive(Debug)]
pub struct Row {
    pub cells: Vec<Cell>,
}

/// A titled group of rows.
#[derive(Debug)]
pub struct RowGroup {
    pub title: Vec<TextVariant>,
    pub rows: Vec<Row>,
}

/// A feedback table.
#[derive(Debug)]
pub struct TableSection {
    pub caption: Vec<TextVariant>,
    pub cols: Vec<Col>,
    pub row_groups: Vec<RowGroup>,
}

/// A section of the feedback shown for a submission.
#[derive(Debug)]
pub enum Section {
    Table(TableSection),
}

/// The renderable description of a problem.
#[derive(Debug)]
pub struct Material {
    pub title: Vec<TextVariant>,
    pub statement: Vec<FileVariant>,
    pub attachments: Vec<Attachment>,
    pub submission_form: Form,
    pub scorables: Vec<Scorable>,
    pub feedback: Vec<Section>,
}

/// The ids of the subtasks, in the order given.
pub open spec fn ids_of(subs: Seq<JudgeSubtask>) -> Seq<u32> {
    subs.map_values(|s: JudgeSubtask| s.id)
}

/// The first subtask with the given id.
pub open spec fn first_with_id(subs: Seq<JudgeSubtask>, id: u32) -> JudgeSubtask
    decreases subs.len(),
{
    if subs.len() <= 1 || subs[0].id == id {
        subs[0]
    } else {
        first_with_id(subs.drop_first(), id)
    }
}

/// The subtasks of a task, by ascending id.
pub open spec fn ordered_subtasks(t: JudgeTask) -> Seq<JudgeSubtask> {
    ascending(ids_of(t.subtasks@)).map_values(|id: u32| first_with_id(t.subtasks@, id))
}

/// Whether a subtask is worth any points.
pub open spec fn is_scored(s: JudgeSubtask) -> bool {
    s.max_score.0 > 0
}

/// The subtasks among `subs` that are worth points, in the order given.
pub open spec fn keep_scored(subs: Seq<JudgeSubtask>) -> Seq<JudgeSubtask> {
    subs.filter(|s: JudgeSubtask| is_scored(s))
}

/// The subtasks that are worth points, by ascending id.
pub open spec fn scored_subtasks(t: JudgeTask) -> Seq<JudgeSubtask> {
    keep_scored(ordered_subtasks(t))
}

/// The title of a subtask's scorable and row group: `Subtask <id>`.
pub open spec fn subtask_title(id: u32) -> Seq<char> {
    "Subtask "@ + decimal(id as nat)
}

/// The range of a testcase's score cell: two decimals, at most one point.
pub open spec fn cell_range() -> ScoreRange {
    ScoreRange { precision: 2, max: Score(100) }
}

/// `sc` is the scorable of subtask `s`.
pub open spec fn is_scorable_of(sc: Scorable, s: JudgeSubtask) -> bool {
    &&& sc.name == AwardKey::Subtask(s.id)
    &&& is_plain_text(sc.title@, subtask_title(s.id))
    &&& sc.range == (ScoreRange { precision: 0, max: s.max_score })
}

/// `r` is the feedback row of testcase `t` of subtask `s`.
pub open spec fn is_row_of(r: Row, s: u32, t: u32) -> bool {
    &&& r.cells@.len() == 2
    &&& r.cells@[0] == Cell::RowNumber(t)
    &&& r.cells@[1] == (Cell::Score { range: cell_range(), key: AwardKey::Testcase(s, t) })
}

/// `g` is the row group of subtask `s`: one row per testcase, by ascending id.
pub open spec fn is_row_group_of(g: RowGroup, s: JudgeSubtask) -> bool {
    let order = ascending(s.testcases@);
    &&& is_plain_text(g.title@, subtask_title(s.id))
    &&& g.rows@.len() == order.len()
    &&& forall|k: int| 0 <= k < order.len() ==> is_row_of(#[trigger] g.rows@[k], s.id, order[k])
}

/// The two feedback columns: the case number, and its score.
pub open spec fn are_feedback_cols(cols: Seq<Col>) -> bool {
    &&& cols.len() == 2
    &&& is_plain_text(cols[0].title@, "Case"@)
    &&& cols[0].content == ColContent::RowNumber
    &&& is_plain_text(cols[1].title@, "Score"@)
    &&& cols[1].content == ColContent::Score(cell_range())
}

/// `t` is the feedback table of `task`: the fixed caption and columns, and
/// one row group per subtask, by ascending id, whatever its score.
pub open spec fn is_feedback_table_of(t: TableSection, task: JudgeTask) -> bool {
    let subs = ordered_subtasks(task);
    &&& is_plain_text(t.caption@, "Test case results"@)
    &&& are_feedback_cols(t.cols@)
    &&& t.row_groups@.len() == subs.len()
    &&& forall|k: int| 0 <= k < subs.len() ==> is_row_group_of(#[trigger] t.row_groups@[k], subs[k])
}

/// `sc` lists one scorable per subtask worth points, by ascending id.
pub open spec fn are_scorables_of(sc: Seq<Scorable>, task: JudgeTask) -> bool {
    let subs = scored_subtasks(task);
    &&& sc.len() == subs.len()
    &&& forall|k: int| 0 <= k < subs.len() ==> is_scorable_of(#[trigger] sc[k], subs[k])
}

/// The single-field form: a `solution` field taking a C++ file.
pub open spec fn is_solution_form(f: Form) -> bool {
    &&& f.fields@.len() == 1
    &&& f.fields@[0].id@ == "solution"@
    &&& is_plain_text(f.fields@[0].title@, "Solution"@)
    &&& f.fields@[0].types@.len() == 1
    &&& f.fields@[0].types@[0].id@ == "cpp"@
    &&& is_plain_text(f.fields@[0].types@[0].title@, "C++"@)
    &&& f.fields@[0].types@[0].extensions@.len() == 2
    &&& f.fields@[0].types@[0].extensions@[0]@ == ".cpp"@
    &&& f.fields@[0].types@[0].extensions@[1]@ == ".cc"@
    &&& f.fields@[0].types@[0].primary_extension@ == ".cpp"@
}

/// The fixed submission form.
pub fn submission_form() -> (r: Form)
    ensures
        is_solution_form(r),
{
    let cpp = FileType {
        id: String::from_str("cpp"),
        title: plain_text(String::from_str("C++")),
        extensions: vec![String::from_str(".cpp"), String::from_str(".cc")],
        primary_extension: String::from_str(".cpp"),
    };
    let field = Field {
        id: String::from_str("solution"),
        title: plain_text(String::from_str("Solution")),
        types: vec![cpp],
    };
    Form { fields: vec![field] }
}

fn subtask_title_text(id: u32) -> (r: Vec<TextVariant>)
    ensures
        is_plain_text(r@, subtask_title(id)),
{
    let mut s = String::from_str("Subtask ");
    s.append(decimal_string(id).as_str());
    plain_text(s)
}

/// The scorable of a subtask.
pub fn scorable_of(subtask: &JudgeSubtask) -> (r: Scorable)
    ensures
        is_scorable_of(r, *subtask),
{
    Scorable {
        name: AwardKey::Subtask(subtask.id),
        title: subtask_title_text(subtask.id),
        range: ScoreRange { precision: 0, max: subtask.max_score },
    }
}

/// The two feedback columns.
pub fn cols() -> (r: Vec<Col>)
    ensures
        are_feedback_cols(r@),
{
    vec![
        Col { title: plain_text(String::from_str("Case")), content: ColContent::RowNumber },
        Col {
            title: plain_text(String::from_str("Score")),
            content: ColContent::Score(ScoreRange { precision: 2, max: Score(100) }),
        },
    ]
}

/// The caption of the feedback table.
pub fn caption() -> (r: Vec<TextVariant>)
    ensures
        is_plain_text(r@, "Test case results"@),
{
    plain_text(String::from_str("Test case results"))
}

/// The feedback row of a testcase.
pub fn row_of(subtask_id: u32, testcase_id: u32) -> (r: Row)
    ensures
        is_row_of(r, subtask_id, testcase_id),
{
    Row {
        cells: vec![
            Cell::RowNumber(testcase_id),
            Cell::Score {
                range: ScoreRange { precision: 2, max: Score(100) },
                key: AwardKey::Testcase(subtask_id, testcase_id),
            },
        ],
    }
}

/// The row group of a subtask: one row per testcase, by ascending id.
pub fn row_group_of(subtask: &JudgeSubtask) -> (r: RowGroup)
    ensures
        is_row_group_of(r, *subtask),
{
    let order = sort_ids(&subtask.testcases);
    let mut rows: Vec<Row> = Vec::new();
    let mut i: usize = 0;
    while i < order.len()
        invariant
            i <= order.len(),
            order@ == ascending(subtask.testcases@),
            rows@.len() == i,
            forall|k: int| 0 <= k < i ==> is_row_of(#[trigger] rows@[k], subtask.id, order@[k]),
        decreases order.len() - i,
    {
        rows.push(row_of(subtask.id, order[i]));
        i = i + 1;
    }
    RowGroup { title: subtask_title_text(subtask.id), rows }
}

} // verus!

verus! {

fn find_subtask(subs: &Vec<JudgeSubtask>, id: u32) -> (r: usize)
    requires
        subs@.len() > 0,
    ensures
        r < subs@.len(),
        subs@[r as int] == first_with_id(subs@, id),
{
    let mut i: usize = 0;
    assert(subs@.skip(0) =~= subs@);
    loop
        invariant
            i < subs@.len(),
            first_with_id(subs@, id) == first_with_id(subs@.skip(i as int), id),
        decreases subs@.len() - i,
    {
        assert(subs@.skip(i as int).drop_first() =~= subs@.skip(i as int + 1));
        if subs[i].id == id || i == subs.len() - 1 {
            return i;
        }
        i = i + 1;
    }
}

fn subtask_ids(subs: &Vec<JudgeSubtask>) -> (r: Vec<u32>)
    ensures
        r@ == ids_of(subs@),
{
    let mut r: Vec<u32> = Vec::new();
    let mut i: usize = 0;
    while i < subs.len()
        invariant
            i <= subs.len(),
            r@.len() == i,
            forall|k: int| 0 <= k < i ==> r@[k] == #[trigger] subs@[k].id,
        decreases subs.len() - i,
    {
        r.push(subs[i].id);
        i = i + 1;
    }
    assert(r@ =~= ids_of(subs@));
    r
}

/// Builds the scorables and the feedback row groups of a task, both by
/// ascending subtask id.
fn scoring_of(task: &JudgeTask) -> (r: (Vec<Scorable>, Vec<RowGroup>))
    ensures
        are_scorables_of(r.0@, *task),
        r.1@.len() == ordered_subtasks(*task).len(),
        forall|k: int|
            0 <= k < r.1@.len() ==> is_row_group_of(
                #[trigger] r.1@[k],
                ordered_subtasks(*task)[k],
            ),
{
    let ids = subtask_ids(&task.subtasks);
    let order = sort_ids(&ids);
    let ghost subs = ordered_subtasks(*task);
    proof {
        ids@.lemma_sort_by_ensures(|a: u32, b: u32| crate::order::id_leq(a, b));
    }
    let mut scorables: Vec<Scorable> = Vec::new();
    let mut groups: Vec<RowGroup> = Vec::new();
    let mut k: usize = 0;
    while k < order.len()
        invariant
            k <= order.len(),
            order@ == ascending(ids@),
            ids@ == ids_of(task.subtasks@),
            subs == ordered_subtasks(*task),
            subs.len() == order@.len(),
            forall|x: u32| !ids@.contains(x) ==> !(#[trigger] order@.contains(x)),
            groups@.len() == k,
            forall|j: int| 0 <= j < k ==> is_row_group_of(#[trigger] groups@[j], subs[j]),
            scorables@.len() == keep_scored(subs.take(k as int)).len(),
            forall|j: int|
                0 <= j < scorables@.len() ==> is_scorable_of(
                    #[trigger] scorables@[j],
                    keep_scored(subs.take(k as int))[j],
                ),
        decreases order.len() - k,
    {
        let id = order[k];
        proof {
            assert(order@.contains(id));
            assert(ids@.contains(id));
        }
        let j = find_subtask(&task.subtasks, id);
        let s = &task.subtasks[j];
        assert(*s == subs[k as int]);
        groups.push(row_group_of(s));
        proof {
            let pre = subs.take(k as int);
            let post = subs.take(k as int + 1);
            assert(post.drop_last() =~= pre);
            assert(post.last() == subs[k as int]);
            assert(post.len() > 0);
            reveal_with_fuel(Seq::filter, 2);
            assert(keep_scored(post) == if is_scored(subs[k as int]) {
                keep_scored(pre).push(subs[k as int])
            } else {
                keep_scored(pre)
            });
        }
        if s.max_score.0 > 0 {
            scorables.push(scorable_of(s));
        }
        k = k + 1;
    }
    proof {
        assert(subs.take(k as int) =~= subs);
    }
    (scorables, groups)
}

} // verus!

verus! {

/// The position of the last `.` in a file name, or -1 when there is none.
pub open spec fn last_dot(name: Seq<char>) -> int
    decreases name.len(),
{
    if name.len() == 0 {
        -1
    } else if name.last() == '.' {
        name.len() - 1
    } else {
        last_dot(name.drop_last())
    }
}

/// The extension of a file name: what follows its last `.`, when that `.`
/// is not the name's first character.
pub open spec fn extension_of(name: Seq<char>) -> Option<Seq<char>> {
    let d = last_dot(name);
    if d > 0 {
        Some(name.skip(d + 1))
    } else {
        None
    }
}

/// The stem of a file name: the name without its extension and dot.
pub open spec fn stem_of(name: Seq<char>) -> Seq<char> {
    let d = last_dot(name);
    if d > 0 {
        name.take(d)
    } else {
        name
    }
}

/// The media type of a statement with the given extension, if it is one of
/// the recognised statement formats.
pub open spec fn statement_media(ext: Seq<char>) -> Option<Seq<char>> {
    if ext == "pdf"@ {
        Some("application/pdf"@)
    } else if ext == "html"@ {
        Some("text/html"@)
    } else if ext == "md"@ {
        Some("application/markdown"@)
    } else {
        None
    }
}

/// The media type of a statement file with the given name, if it is one.
pub open spec fn statement_media_of(name: Seq<char>) -> Option<Seq<char>> {
    match extension_of(name) {
        Some(e) => statement_media(e),
        None => None,
    }
}

/// Whether a file is a statement.
pub open spec fn is_statement_file(f: TaskFile) -> bool {
    statement_media_of(f.name@) is Some
}

/// The statement files among `files`, in the order given.
pub open spec fn statement_files(files: Seq<TaskFile>) -> Seq<TaskFile> {
    files.filter(|f: TaskFile| is_statement_file(f))
}

/// `v` is the statement variant of file `f`: its language is the file's
/// stem, its media type the one of its extension.
pub open spec fn is_statement_of(v: FileVariant, f: TaskFile) -> bool {
    &&& v.attributes@.len() == 1
    &&& v.attributes@[0].key@ == "language_name"@
    &&& v.attributes@[0].value@ == stem_of(f.name@)
    &&& opt_text(v.name) == Some(f.name@)
    &&& opt_text(v.media_type) == statement_media_of(f.name@)
    &&& v.content@ == f.content@
}

/// `a` is the attachment of file `f`, with the media type guessed from its name.
pub open spec fn is_attachment_of(a: Attachment, f: TaskFile) -> bool {
    &&& is_plain_text(a.title@, f.name@)
    &&& a.file@.len() == 1
    &&& a.file@[0].attributes@.len() == 0
    &&& opt_text(a.file@[0].name) == Some(f.name@)
    &&& opt_text(a.file@[0].media_type) == guessed_media_type(f.name@)
    &&& a.file@[0].content@ == f.content@
}

/// The media type that the extension of a file name is known to have.
pub uninterp spec fn guessed_media_type(name: Seq<char>) -> Option<Seq<char>>;

/// Relies on `mime_guess::from_path(..).first_raw()`: the first media type
/// that mime_guess's table lists for the name's extension, if any.
#[verifier::external_body]
fn guess_media_type(name: &str) -> (r: Option<String>)
    ensures
        opt_text(r) == guessed_media_type(name@),
{
    mime_guess::from_path(name).first_raw().map(String::from)
}

fn last_dot_index(name: &str) -> (r: Option<usize>)
    ensures
        match r {
            Some(d) => d as int == last_dot(name@) && d < name@.len(),
            None => last_dot(name@) == -1,
        },
{
    let n = name.unicode_len();
    let mut i: usize = n;
    assert(name@.take(n as int) =~= name@);
    while i > 0
        invariant
            i <= n,
            n == name@.len(),
            last_dot(name@) == last_dot(name@.take(i as int)),
        decreases i,
    {
        assert(name@.take(i as int).drop_last() =~= name@.take(i as int - 1));
        if name.get_char(i - 1) == '.' {
            return Some(i - 1);
        }
        i = i - 1;
    }
    None
}

fn statement_media_type(ext: &str) -> (r: Option<String>)
    ensures
        opt_text(r) == statement_media(ext@),
{
    if str_eq(ext, "pdf") {
        Some(String::from_str("application/pdf"))
    } else if str_eq(ext, "html") {
        Some(String::from_str("text/html"))
    } else if str_eq(ext, "md") {
        Some(String::from_str("application/markdown"))
    } else {
        None
    }
}

/// The statement variant of a file, when its extension is a statement
/// format; `None` for any other file.
pub fn match_statement(file: &TaskFile) -> (r: Option<FileVariant>)
    ensures
        r is Some <==> is_statement_file(*file),
        r is Some ==> is_statement_of(r->0, *file),
{
    let name = file.name.as_str();
    let d = match last_dot_index(name) {
        Some(d) => d,
        None => return None,
    };
    if d == 0 {
        return None;
    }
    let n = name.unicode_len();
    let ext = name.substring_char(d + 1, n);
    let media = statement_media_type(ext);
    match media {
        None => None,
        Some(m) => {
            let stem = name.substring_char(0, d);
            let attribute = VariantAttribute {
                key: String::from_str("language_name"),
                value: String::from_str(stem),
            };
            Some(
                FileVariant {
                    attributes: vec![attribute],
                    name: Some(file.name.clone()),
                    media_type: Some(m),
                    content: copy_bytes(&file.content),
                },
            )
        },
    }
}

/// The statement variants of the files that are statements, in the order given.
pub fn statements_of(files: &Vec<TaskFile>) -> (r: Vec<FileVariant>)
    ensures
        r@.len() == statement_files(files@).len(),
        forall|k: int|
            0 <= k < r@.len() ==> is_statement_of(#[trigger] r@[k], statement_files(files@)[k]),
{
    let mut r: Vec<FileVariant> = Vec::new();
    let mut i: usize = 0;
    while i < files.len()
        invariant
            i <= files.len(),
            r@.len() == statement_files(files@.take(i as int)).len(),
            forall|k: int|
                0 <= k < r@.len() ==> is_statement_of(
                    #[trigger] r@[k],
                    statement_files(files@.take(i as int))[k],
                ),
        decreases files.len() - i,
    {
        proof {
            let post = files@.take(i as int + 1);
            assert(post.drop_last() =~= files@.take(i as int));
            assert(post.len() > 0);
            reveal_with_fuel(Seq::filter, 2);
            assert(statement_files(post) == if is_statement_file(files@[i as int]) {
                statement_files(files@.take(i as int)).push(files@[i as int])
            } else {
                statement_files(files@.take(i as int))
            });
        }
        match match_statement(&files[i]) {
            Some(v) => r.push(v),
            None => {},
        }
        i = i + 1;
    }
    assert(files@.take(i as int) =~= files@);
    r
}

/// The attachment of a file: titled with its name, with the media type
/// guessed from it (none when unknown).
pub fn attachment_at(file: &TaskFile) -> (r: Attachment)
    ensures
        is_attachment_of(r, *file),
{
    let variant = FileVariant {
        attributes: Vec::new(),
        name: Some(file.name.clone()),
        media_type: guess_media_type(file.name.as_str()),
        content: copy_bytes(&file.content),
    };
    Attachment { title: plain_text(file.name.clone()), file: vec![variant] }
}

/// The attachments of the files, in the order given.
pub fn attachments_of(files: &Vec<TaskFile>) -> (r: Vec<Attachment>)
    ensures
        r@.len() == files@.len(),
        forall|k: int| 0 <= k < r@.len() ==> is_attachment_of(#[trigger] r@[k], files@[k]),
{
    let mut r: Vec<Attachment> = Vec::new();
    let mut i: usize = 0;
    while i < files.len()
        invariant
            i <= files.len(),
            r@.len() == i,
            forall|k: int| 0 <= k < i ==> is_attachment_of(#[trigger] r@[k], files@[k]),
        decreases files.len() - i,
    {
        r.push(attachment_at(&files[i]));
        i = i + 1;
    }
    r
}

/// `m` is the material of `task`, with the given statement and attachment files.
pub open spec fn is_material_of(
    m: Material,
    task: JudgeTask,
    statement_dir: Seq<TaskFile>,
    attachment_dir: Seq<TaskFile>,
) -> bool {
    let statements = statement_files(statement_dir);
    &&& is_plain_text(m.title@, task.title@)
    &&& m.statement@.len() == statements.len()
    &&& forall|k: int|
        0 <= k < statements.len() ==> is_statement_of(#[trigger] m.statement@[k], statements[k])
    &&& m.attachments@.len() == attachment_dir.len()
    &&& forall|k: int|
        0 <= k < attachment_dir.len() ==> is_attachment_of(
            #[trigger] m.attachments@[k],
            attachment_dir[k],
        )
    &&& is_solution_form(m.submission_form)
    &&& are_scorables_of(m.scorables@, task)
    &&& m.feedback@.len() == 1
    &&& match m.feedback@[0] {
        Section::Table(t) => is_feedback_table_of(t, task),
    }
}

/// Builds the material of a task from the judge's task tree, the files of
/// its statement directory and those of its attachment directory.
pub fn gen_material(
    task: &JudgeTask,
    statement_dir: &Vec<TaskFile>,
    attachment_dir: &Vec<TaskFile>,
) -> (r: Material)
    ensures
        is_material_of(r, *task, statement_dir@, attachment_dir@),
{
    let (scorables, row_groups) = scoring_of(task);
    let table = TableSection { caption: caption(), cols: cols(), row_groups };
    Material {
        title: plain_text(task.title.clone()),
        statement: statements_of(statement_dir),
        attachments: attachments_of(attachment_dir),
        submission_form: submission_form(),
        scorables,
        feedback: vec![Section::Table(table)],
    }
}

/// The ranges of the scorables of a material, in order.
fn scorable_ranges(scorables: &Vec<Scorable>) -> (r: Vec<ScoreRange>)
    ensures
        r@ == ranges_of(scorables@),
{
    let mut r: Vec<ScoreRange> = Vec::new();
    let mut i: usize = 0;
    while i < scorables.len()
        invariant
            i <= scorables.len(),
            r@.len() == i,
            forall|k: int| 0 <= k < i ==> r@[k] == #[trigger] scorables@[k].range,
        decreases scorables.len() - i,
    {
        r.push(scorables[i].range);
        i = i + 1;
    }
    assert(r@ =~= ranges_of(scorables@));
    r
}

impl Material {
    /// The range of a problem's total score: the merge of the ranges of its
    /// scorables.
    pub fn total_score_range(&self) -> (r: ScoreRange)
        ensures
            r == merged(ranges_of(self.scorables@)),
    {
        ScoreRange::merge(&scorable_ranges(&self.scorables))
    }
}

} // verus!
