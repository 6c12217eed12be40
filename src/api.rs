use vstd::prelude::*;
use vstd::string::*;
use crate::auth::{
    admin_authorization, check_admin, check_user, target_of, user_authorization, ApiConfig,
    JwtData, UserId,
};
use crate::error::ApiError;
use crate::evaluation::{dispatch_step, record_step, Evaluation, EvaluationStatus, Event};
use crate::store::{put_post, unpack_post, ArtifactStore, UnpackPlan};
use crate::text::str_eq;

verus! {

#[verifier::external_type_specification]
#[verifier::external_body]
pub struct ExDecodeError(base64::DecodeError);

/// The bytes that a text decodes to in standard base64, if it is valid.
pub uninterp spec fn base64_decoded(text: Seq<char>) -> Option<Seq<u8>>;

/// Relies on base64's `decode` (standard alphabet): the decoded bytes, or
/// an error when the text is not valid base64.
#[verifier::external_body]
fn base64_decode(text: &str) -> (r: Result<Vec<u8>, base64::DecodeError>)
    ensures
        match r {
            Ok(b) => base64_decoded(text@) == Some(b@),
            Err(_) => base64_decoded(text@) is None,
        },
{
    base64::decode(text)
}

/// Relies on uuid's `Uuid::new_v4`, written out by its `Display`: a fresh
/// random identifier.
#[verifier::external_body]
fn new_submission_id() -> (r: String) {
    uuid::Uuid::new_v4().to_string()
}

/// Relies on chrono's `Local::now` and `DateTime::to_rfc3339`: the current
/// local time as an RFC 3339 date.
#[verifier::external_body]
fn now_rfc3339() -> (r: String) {
    chrono::Local::now().to_rfc3339()
}

/// A file of a submission, as uploaded: its content is base64 text.
#[derive(Debug)]
pub struct FileInput {
    pub type_id: String,
    pub field_id: String,
    pub name: String,
    pub content_base64: String,
}

/// A file of a stored submission.
#[derive(Debug)]
pub struct SubmissionFile {
    pub field_id: String,
    pub type_id: String,
    pub name: String,
    pub content: Vec<u8>,
}

/// A problem to add: its name and the bytes of its archive.
#[derive(Debug)]
pub struct ProblemInput {
    pub name: String,
    pub archive_content: Vec<u8>,
}

/// An update of a problem: its name and, optionally, the bytes of a new archive.
#[derive(Debug)]
pub struct ProblemUpdateInput {
    pub name: String,
    pub archive_content: Option<Vec<u8>>,
}

/// A problem of the contest: its name and the integrity of its archive.
#[derive(Debug)]
pub struct Problem {
    pub name: String,
    pub archive_integrity: String,
}

/// A submitted file, as the judge takes it.
#[derive(Debug)]
pub struct FieldValue {
    pub field: String,
    pub name: String,
    pub content: Vec<u8>,
}

impl SubmissionFile {
    /// The file as the judge takes it.
    pub fn into_field_value(self) -> (r: FieldValue)
        ensures
            r.field@ == self.field_id@,
            r.name@ == self.name@,
            r.content@ == self.content@,
    {
        FieldValue { field: self.field_id, name: self.name, content: self.content }
    }

    /// The id of the field.
    pub fn field_id(&self) -> (r: &String)
        ensures
            r@ == self.field_id@,
    {
        &self.field_id
    }

    /// The id of the file type.
    pub fn type_id(&self) -> (r: &String)
        ensures
            r@ == self.type_id@,
    {
        &self.type_id
    }

    /// The file name.
    pub fn name(&self) -> (r: &String)
        ensures
            r@ == self.name@,
    {
        &self.name
    }

    /// The file content.
    pub fn content(&self) -> (r: &Vec<u8>)
        ensures
            r@ == self.content@,
    {
        &self.content
    }
}

impl Submission {
    /// The id of the submission.
    pub fn id(&self) -> (r: &String)
        ensures
            r@ == self.id@,
    {
        &self.id
    }

    /// The user who submitted.
    pub fn user_id(&self) -> (r: &String)
        ensures
            r@ == self.user_id@,
    {
        &self.user_id
    }

    /// The problem submitted to.
    pub fn problem_name(&self) -> (r: &String)
        ensures
            r@ == self.problem_name@,
    {
        &self.problem_name
    }

    /// When the submission was made, as an RFC 3339 date.
    pub fn created_at(&self) -> (r: &String)
        ensures
            r@ == self.created_at@,
    {
        &self.created_at
    }

    /// The files of the submission.
    pub fn files(&self) -> (r: &Vec<SubmissionFile>)
        ensures
            r@ == self.files@,
    {
        &self.files
    }
}

/// A stored submission.
#[derive(Debug)]
pub struct Submission {
    pub id: String,
    pub user_id: String,
    pub problem_name: String,
    pub created_at: String,
    pub files: Vec<SubmissionFile>,
}

/// `f` is the stored form of the uploaded file `input`.
pub open spec fn is_file_of(f: SubmissionFile, input: FileInput) -> bool {
    &&& f.field_id@ == input.field_id@
    &&& f.type_id@ == input.type_id@
    &&& f.name@ == input.name@
    &&& base64_decoded(input.content_base64@) == Some(f.content@)
}

/// Every uploaded file holds valid base64.
pub open spec fn all_decodable(files: Seq<FileInput>) -> bool {
    forall|i: int| 0 <= i < files.len() ==> (#[trigger] base64_decoded(files[i].content_base64@)) is Some
}

/// `s` is the submission with the given id, user, problem, time and files.
pub open spec fn is_submission(
    s: Submission,
    id: Seq<char>,
    user: Seq<char>,
    problem: Seq<char>,
    created_at: Seq<char>,
    files: Seq<FileInput>,
) -> bool {
    &&& s.id@ == id
    &&& s.user_id@ == user
    &&& s.problem_name@ == problem
    &&& s.created_at@ == created_at
    &&& s.files@.len() == files.len()
    &&& forall|k: int| 0 <= k < files.len() ==> is_file_of(#[trigger] s.files@[k], files[k])
}

/// The position of the latest submission with the given id.
pub open spec fn latest_submission(subs: Seq<Submission>, id: Seq<char>) -> Option<int>
    decreases subs.len(),
{
    if subs.len() == 0 {
        None
    } else if subs.last().id@ == id {
        Some(subs.len() - 1)
    } else {
        latest_submission(subs.drop_last(), id)
    }
}

/// The position of the latest evaluation of the given submission.
pub open spec fn latest_evaluation(evals: Seq<Evaluation>, id: Seq<char>) -> Option<int>
    decreases evals.len(),
{
    if evals.len() == 0 {
        None
    } else if evals.last().submission() == id {
        Some(evals.len() - 1)
    } else {
        latest_evaluation(evals.drop_last(), id)
    }
}

proof fn lemma_latest_submission_in_range(subs: Seq<Submission>, id: Seq<char>)
    ensures
        match latest_submission(subs, id) {
            Some(i) => 0 <= i < subs.len() && subs[i].id@ == id,
            None => forall|i: int| 0 <= i < subs.len() ==> (#[trigger] subs[i]).id@ != id,
        },
    decreases subs.len(),
{
    if subs.len() > 0 {
        lemma_latest_submission_in_range(subs.drop_last(), id);
        if latest_submission(subs, id) is None {
            assert forall|i: int| 0 <= i < subs.len() implies (#[trigger] subs[i]).id@ != id by {
                if i < subs.len() - 1 {
                    assert(subs.drop_last()[i] == subs[i]);
                }
            }
        }
    }
}

proof fn lemma_latest_evaluation_in_range(evals: Seq<Evaluation>, id: Seq<char>)
    ensures
        match latest_evaluation(evals, id) {
            Some(i) => 0 <= i < evals.len() && evals[i].submission() == id,
            None => true,
        },
    decreases evals.len(),
{
    if evals.len() > 0 {
        lemma_latest_evaluation_in_range(evals.drop_last(), id);
    }
}

fn find_submission(subs: &Vec<Submission>, id: &str) -> (r: Option<usize>)
    ensures
        match r {
            Some(i) => latest_submission(subs@, id@) == Some(i as int),
            None => latest_submission(subs@, id@) is None,
        },
{
    let mut i: usize = subs.len();
    assert(subs@.take(i as int) =~= subs@);
    while i > 0
        invariant
            i <= subs@.len(),
            latest_submission(subs@, id@) == latest_submission(subs@.take(i as int), id@),
        decreases i,
    {
        assert(subs@.take(i as int).drop_last() =~= subs@.take(i as int - 1));
        if str_eq(subs[i - 1].id.as_str(), id) {
            return Some(i - 1);
        }
        i = i - 1;
    }
    None
}

fn find_evaluation(evals: &Vec<Evaluation>, id: &str) -> (r: Option<usize>)
    ensures
        match r {
            Some(i) => latest_evaluation(evals@, id@) == Some(i as int),
            None => latest_evaluation(evals@, id@) is None,
        },
{
    let mut i: usize = evals.len();
    assert(evals@.take(i as int) =~= evals@);
    while i > 0
        invariant
            i <= evals@.len(),
            latest_evaluation(evals@, id@) == latest_evaluation(evals@.take(i as int), id@),
        decreases i,
    {
        assert(evals@.take(i as int).drop_last() =~= evals@.take(i as int - 1));
        if evals[i - 1].is_of(id) {
            return Some(i - 1);
        }
        i = i - 1;
    }
    None
}

/// Decodes uploaded files, failing with `InvalidFileContent` when one of
/// them is not valid base64.
pub fn decode_files(files: &Vec<FileInput>) -> (r: Result<Vec<SubmissionFile>, ApiError>)
    ensures
        r is Ok <==> all_decodable(files@),
        r is Err ==> r == Err::<Vec<SubmissionFile>, ApiError>(ApiError::InvalidFileContent),
        r is Ok ==> r->Ok_0@.len() == files@.len() && forall|k: int|
            0 <= k < files@.len() ==> is_file_of(#[trigger] r->Ok_0@[k], files@[k]),
{
    let mut out: Vec<SubmissionFile> = Vec::new();
    let mut i: usize = 0;
    while i < files.len()
        invariant
            i <= files@.len(),
            out@.len() == i,
            forall|k: int| 0 <= k < i ==> is_file_of(#[trigger] out@[k], files@[k]),
        decreases files.len() - i,
    {
        let f = &files[i];
        match base64_decode(f.content_base64.as_str()) {
            Ok(content) => {
                out.push(
                    SubmissionFile {
                        field_id: f.field_id.clone(),
                        type_id: f.type_id.clone(),
                        name: f.name.clone(),
                        content,
                    },
                );
            },
            Err(_) => {
                assert(!all_decodable(files@)) by {
                    assert(base64_decoded(files@[i as int].content_base64@) is None);
                }
                return Err(ApiError::InvalidFileContent);
            },
        }
        i = i + 1;
    }
    assert(all_decodable(files@)) by {
        assert forall|k: int| 0 <= k < files@.len() implies (#[trigger] base64_decoded(
            files@[k].content_base64@,
        )) is Some by {
            assert(is_file_of(out@[k], files@[k]));
        }
    }
    Ok(out)
}

/// The state behind the contest API: configuration, the verified identity
/// of the caller, the artifact store, submissions and evaluations.
#[derive(Debug)]
pub struct ApiContext {
    config: ApiConfig,
    jwt_data: Option<JwtData>,
    store: ArtifactStore,
    problems: Vec<Problem>,
    submissions: Vec<Submission>,
    evaluations: Vec<Evaluation>,
}

impl ApiConfig {
    /// A context for one request, by the caller whose token carried
    /// `jwt_data`, unpacking archives under `workspace_path`.
    pub fn create_context(self, jwt_data: Option<JwtData>, workspace_path: String) -> (r:
        ApiContext)
        ensures
            r.wf(),
            r.cfg() == self,
            r.token() == jwt_data,
            r.store().workspace() == workspace_path@,
            r.store().blob_count() == 0,
            r.store().unpacked() == Set::<Seq<char>>::empty(),
            r.problems().len() == 0,
            r.submissions().len() == 0,
            r.evaluations().len() == 0,
    {
        ApiContext {
            config: self,
            jwt_data,
            store: ArtifactStore::new(workspace_path),
            problems: Vec::new(),
            submissions: Vec::new(),
            evaluations: Vec::new(),
        }
    }
}

impl ApiContext {
    /// The configuration.
    pub closed spec fn cfg(&self) -> ApiConfig {
        self.config
    }

    /// What the caller's verified token says, if it sent one.
    pub closed spec fn token(&self) -> Option<JwtData> {
        self.jwt_data
    }

    /// The artifact store.
    pub closed spec fn store(&self) -> ArtifactStore {
        self.store
    }

    /// The problems, in order of addition.
    pub closed spec fn problems(&self) -> Seq<Problem> {
        self.problems@
    }

    /// The submissions, in order of arrival.
    pub closed spec fn submissions(&self) -> Seq<Submission> {
        self.submissions@
    }

    /// The evaluations, in order of start.
    pub closed spec fn evaluations(&self) -> Seq<Evaluation> {
        self.evaluations@
    }

    /// The store is well formed.
    pub closed spec fn wf(&self) -> bool {
        self.store.wf()
    }

    /// The same context, on behalf of the caller whose token carried `jwt_data`.
    pub fn with_jwt_data(self, jwt_data: Option<JwtData>) -> (r: ApiContext)
        ensures
            r.token() == jwt_data,
            r.cfg() == self.cfg(),
            r.store() == self.store(),
            r.wf() == self.wf(),
            r.problems() == self.problems(),
            r.submissions() == self.submissions(),
            r.evaluations() == self.evaluations(),
    {
        ApiContext { jwt_data, ..self }
    }

    /// The artifact store.
    pub fn artifacts(&self) -> (r: &ArtifactStore)
        ensures
            *r == self.store(),
    {
        &self.store
    }

    /// The directory archives are unpacked under.
    pub fn workspace_path(&self) -> (r: &str)
        ensures
            r@ == self.store().workspace(),
    {
        self.store.workspace_path()
    }

    /// Authorizes an admin operation: only when authentication is skipped.
    pub fn authorize_admin(&self) -> (r: Result<(), ApiError>)
        ensures
            r == admin_authorization(self.cfg()),
    {
        check_admin(&self.config)
    }

    /// Authorizes an operation on behalf of a user.
    pub fn authorize_user(&self, user_id: &Option<UserId>) -> (r: Result<(), ApiError>)
        ensures
            r == user_authorization(self.cfg(), self.token(), target_of(*user_id)),
    {
        let target: Option<&str> = match user_id {
            Some(u) => Some(u.0.as_str()),
            None => None,
        };
        check_user(&self.config, &self.jwt_data, target)
    }

    /// Stores a blob and returns its integrity; storing content that is
    /// already there changes nothing.
    pub fn create_blob(&mut self, content: &[u8]) -> (r: String)
        requires
            old(self).wf(),
        ensures
            final(self).wf(),
            put_post(old(self).store(), content@, r@, final(self).store()),
            final(self).cfg() == old(self).cfg(),
            final(self).token() == old(self).token(),
            final(self).submissions() == old(self).submissions(),
            final(self).evaluations() == old(self).evaluations(),
    {
        self.store.put(content)
    }

    /// Resolves the directory an archive unpacks into; see
    /// [`ArtifactStore::unpack`].
    pub fn unpack_archive(&mut self, integrity: &str, prefix: &str) -> (r: Result<
        UnpackPlan,
        ApiError,
    >)
        requires
            old(self).wf(),
        ensures
            final(self).wf(),
            unpack_post(old(self).store(), integrity@, prefix@, r, final(self).store()),
            final(self).cfg() == old(self).cfg(),
            final(self).token() == old(self).token(),
            final(self).submissions() == old(self).submissions(),
            final(self).evaluations() == old(self).evaluations(),
    {
        self.store.unpack(integrity, prefix)
    }

    /// Stores a submission with the given id and creation time, decoding
    /// its files; fails with `InvalidFileContent`, storing nothing, when a
    /// file is not valid base64.
    pub fn insert_submission(
        &mut self,
        id: String,
        created_at: String,
        user_id: &str,
        problem_name: &str,
        files: &Vec<FileInput>,
    ) -> (r: Result<(), ApiError>)
        ensures
            final(self).wf() == old(self).wf(),
            r is Ok <==> all_decodable(files@),
            r is Err ==> r == Err::<(), ApiError>(ApiError::InvalidFileContent),
            r is Err ==> final(self).submissions() == old(self).submissions(),
            r is Ok ==> final(self).submissions().len() == old(self).submissions().len() + 1
                && final(self).submissions().drop_last() == old(self).submissions()
                && is_submission(
                final(self).submissions().last(),
                id@,
                user_id@,
                problem_name@,
                created_at@,
                files@,
            ),
            final(self).store() == old(self).store(),
            final(self).cfg() == old(self).cfg(),
            final(self).token() == old(self).token(),
            final(self).evaluations() == old(self).evaluations(),
    {
        let decoded = decode_files(files);
        match decoded {
            Ok(decoded) => {
                let ghost before = self.submissions@;
                self.submissions.push(
                    Submission {
                        id,
                        user_id: String::from_str(user_id),
                        problem_name: String::from_str(problem_name),
                        created_at,
                        files: decoded,
                    },
                );
                assert(self.submissions@.drop_last() =~= before);
                Ok(())
            },
            Err(e) => Err(e),
        }
    }

    /// Starts a new, pending evaluation of a submission; it supersedes the
    /// earlier ones.
    pub fn start_evaluation(&mut self, submission_id: &str)
        ensures
            final(self).wf() == old(self).wf(),
            final(self).evaluations().len() == old(self).evaluations().len() + 1,
            final(self).evaluations().drop_last() == old(self).evaluations(),
            final(self).evaluations().last().submission() == submission_id@,
            final(self).evaluations().last().state() == EvaluationStatus::Pending,
            final(self).evaluations().last().log().len() == 0,
            final(self).store() == old(self).store(),
            final(self).cfg() == old(self).cfg(),
            final(self).token() == old(self).token(),
            final(self).submissions() == old(self).submissions(),
    {
        let ghost before = self.evaluations@;
        self.evaluations.push(Evaluation::new(String::from_str(submission_id)));
        assert(self.evaluations@.drop_last() =~= before);
    }
}

} // verus!

verus! {

/// Every id names a stored submission.
pub open spec fn all_known(subs: Seq<Submission>, ids: Seq<String>) -> bool {
    forall|k: int| 0 <= k < ids.len() ==> (#[trigger] latest_submission(subs, ids[k]@)) is Some
}

/// `evals` lists one fresh, pending evaluation per id, in order.
pub open spec fn fresh_evaluations(evals: Seq<Evaluation>, ids: Seq<String>) -> bool {
    &&& evals.len() == ids.len()
    &&& forall|k: int|
        0 <= k < ids.len() ==> {
            &&& (#[trigger] evals[k]).submission() == ids[k]@
            &&& evals[k].state() == EvaluationStatus::Pending
            &&& evals[k].log().len() == 0
        }
}

impl ApiContext {
    /// Submits files for a problem on behalf of a user: checks that the
    /// caller may act for the user, stores the submission under a fresh
    /// random id with the current time, starts its evaluation and returns
    /// the id. On failure nothing is stored.
    pub fn submit(&mut self, user_id: &UserId, problem_name: &str, files: &Vec<FileInput>) -> (r:
        Result<String, ApiError>)
        ensures
            final(self).wf() == old(self).wf(),
            r is Ok <==> (user_authorization(old(self).cfg(), old(self).token(), Some(user_id.0@)) is Ok
                && all_decodable(files@)),
            user_authorization(old(self).cfg(), old(self).token(), Some(user_id.0@)) is Err ==> r
                == Err::<String, ApiError>(
                user_authorization(old(self).cfg(), old(self).token(), Some(user_id.0@))->Err_0,
            ),
            user_authorization(old(self).cfg(), old(self).token(), Some(user_id.0@)) is Ok && !all_decodable(
                files@,
            ) ==> r == Err::<String, ApiError>(ApiError::InvalidFileContent),
            r is Err ==> final(self).submissions() == old(self).submissions()
                && final(self).evaluations() == old(self).evaluations(),
            r is Ok ==> {
                &&& final(self).submissions().drop_last() == old(self).submissions()
                &&& final(self).submissions().len() == old(self).submissions().len() + 1
                &&& final(self).submissions().last().id@ == r->Ok_0@
                &&& final(self).submissions().last().user_id@ == user_id.0@
                &&& final(self).submissions().last().problem_name@ == problem_name@
                &&& final(self).submissions().last().files@.len() == files@.len()
                &&& forall|k: int|
                    0 <= k < files@.len() ==> is_file_of(
                        #[trigger] final(self).submissions().last().files@[k],
                        files@[k],
                    )
                &&& final(self).evaluations().drop_last() == old(self).evaluations()
                &&& final(self).evaluations().len() == old(self).evaluations().len() + 1
                &&& final(self).evaluations().last().submission() == r->Ok_0@
                &&& final(self).evaluations().last().state() == EvaluationStatus::Pending
                &&& final(self).evaluations().last().log().len() == 0
            },
            final(self).store() == old(self).store(),
            final(self).cfg() == old(self).cfg(),
            final(self).token() == old(self).token(),
    {
        check_user(&self.config, &self.jwt_data, Some(user_id.0.as_str()))?;
        let id = new_submission_id();
        let created_at = now_rfc3339();
        let copy = String::from_str(id.as_str());
        self.insert_submission(copy, created_at, user_id.0.as_str(), problem_name, files)?;
        self.start_evaluation(id.as_str());
        Ok(id)
    }

    /// Starts a new evaluation of each of the given submissions, in order.
    /// Admins only: fails with `Forbidden` otherwise. Fails with `NotFound`,
    /// starting nothing, when an id names no submission.
    pub fn evaluate(&mut self, submission_ids: &Vec<String>) -> (r: Result<(), ApiError>)
        ensures
            final(self).wf() == old(self).wf(),
            admin_authorization(old(self).cfg()) is Err ==> r == Err::<(), ApiError>(
                ApiError::Forbidden,
            ),
            admin_authorization(old(self).cfg()) is Ok && !all_known(
                old(self).submissions(),
                submission_ids@,
            ) ==> r == Err::<(), ApiError>(ApiError::NotFound),
            r is Ok <==> admin_authorization(old(self).cfg()) is Ok && all_known(
                old(self).submissions(),
                submission_ids@,
            ),
            r is Err ==> final(self).evaluations() == old(self).evaluations(),
            r is Ok ==> final(self).evaluations().take(old(self).evaluations().len() as int)
                == old(self).evaluations() && fresh_evaluations(
                final(self).evaluations().skip(old(self).evaluations().len() as int),
                submission_ids@,
            ),
            final(self).submissions() == old(self).submissions(),
            final(self).store() == old(self).store(),
            final(self).cfg() == old(self).cfg(),
            final(self).token() == old(self).token(),
    {
        check_admin(&self.config)?;
        let mut i: usize = 0;
        while i < submission_ids.len()
            invariant
                i <= submission_ids@.len(),
                admin_authorization(self.config) is Ok,
                self.config == old(self).config,
                self.submissions@ == old(self).submissions@,
                self.evaluations@ == old(self).evaluations@,
                forall|k: int|
                    0 <= k < i ==> (#[trigger] latest_submission(
                        self.submissions@,
                        submission_ids@[k]@,
                    )) is Some,
            decreases submission_ids.len() - i,
        {
            if find_submission(&self.submissions, submission_ids[i].as_str()).is_none() {
                return Err(ApiError::NotFound);
            }
            i = i + 1;
        }
        let ghost before = self.evaluations@;
        let mut j: usize = 0;
        while j < submission_ids.len()
            invariant
                j <= submission_ids@.len(),
                self.evaluations@.len() == before.len() + j,
                self.evaluations@.take(before.len() as int) == before,
                fresh_evaluations(
                    self.evaluations@.skip(before.len() as int),
                    submission_ids@.take(j as int),
                ),
                self.submissions@ == old(self).submissions@,
                self.store == old(self).store,
                self.config == old(self).config,
                self.jwt_data == old(self).jwt_data,
            decreases submission_ids.len() - j,
        {
            let ghost prev = self.evaluations@;
            self.start_evaluation(submission_ids[j].as_str());
            proof {
                assert(self.evaluations@.take(before.len() as int) =~= before);
                let fresh = self.evaluations@.skip(before.len() as int);
                assert(fresh =~= prev.skip(before.len() as int).push(self.evaluations@.last()));
                let ids = submission_ids@.take(j as int + 1);
                assert(ids =~= submission_ids@.take(j as int).push(submission_ids@[j as int]));
                assert forall|k: int| 0 <= k < ids.len() implies {
                    &&& (#[trigger] fresh[k]).submission() == ids[k]@
                    &&& fresh[k].state() == EvaluationStatus::Pending
                    &&& fresh[k].log().len() == 0
                } by {
                    if k < j {
                        assert(fresh[k] == prev.skip(before.len() as int)[k]);
                    }
                }
            }
            j = j + 1;
        }
        assert(submission_ids@.take(j as int) =~= submission_ids@);
        Ok(())
    }

    /// Records whether the judge could be started on the latest evaluation
    /// of a submission; fails with `NotFound` when it has none.
    pub fn dispatched(&mut self, submission_id: &str, outcome: Result<(), String>) -> (r: Result<
        (),
        ApiError,
    >)
        ensures
            final(self).wf() == old(self).wf(),
            match latest_evaluation(old(self).evaluations(), submission_id@) {
                None => r == Err::<(), ApiError>(ApiError::NotFound) && final(self).evaluations()
                    == old(self).evaluations(),
                Some(i) => {
                    &&& r is Ok
                    &&& final(self).evaluations().len() == old(self).evaluations().len()
                    &&& forall|j: int|
                        0 <= j < old(self).evaluations().len() && j != i ==> final(self).evaluations()[j] == old(self).evaluations()[j]
                    &&& final(self).evaluations()[i].submission() == submission_id@
                    &&& (final(self).evaluations()[i].state(), final(self).evaluations()[i].log())
                        == dispatch_step(
                        old(self).evaluations()[i].state(),
                        old(self).evaluations()[i].log(),
                        outcome,
                    )
                },
            },
            final(self).submissions() == old(self).submissions(),
            final(self).store() == old(self).store(),
            final(self).cfg() == old(self).cfg(),
            final(self).token() == old(self).token(),
    {
        match find_evaluation(&self.evaluations, submission_id) {
            None => Err(ApiError::NotFound),
            Some(i) => {
                proof {
                    lemma_latest_evaluation_in_range(self.evaluations@, submission_id@);
                }
                let mut e = self.evaluations.remove(i);
                e.dispatched(outcome);
                self.evaluations.insert(i, e);
                Ok(())
            },
        }
    }

    /// Records an event that the judge reported for the latest evaluation
    /// of a submission; fails with `NotFound` when it has none.
    pub fn record_event(&mut self, submission_id: &str, event: Event) -> (r: Result<(), ApiError>)
        ensures
            final(self).wf() == old(self).wf(),
            match latest_evaluation(old(self).evaluations(), submission_id@) {
                None => r == Err::<(), ApiError>(ApiError::NotFound) && final(self).evaluations()
                    == old(self).evaluations(),
                Some(i) => {
                    &&& r is Ok
                    &&& final(self).evaluations().len() == old(self).evaluations().len()
                    &&& forall|j: int|
                        0 <= j < old(self).evaluations().len() && j != i ==> final(self).evaluations()[j] == old(self).evaluations()[j]
                    &&& final(self).evaluations()[i].submission() == submission_id@
                    &&& (final(self).evaluations()[i].state(), final(self).evaluations()[i].log())
                        == record_step(
                        old(self).evaluations()[i].state(),
                        old(self).evaluations()[i].log(),
                        event,
                    )
                },
            },
            final(self).submissions() == old(self).submissions(),
            final(self).store() == old(self).store(),
            final(self).cfg() == old(self).cfg(),
            final(self).token() == old(self).token(),
    {
        match find_evaluation(&self.evaluations, submission_id) {
            None => Err(ApiError::NotFound),
            Some(i) => {
                proof {
                    lemma_latest_evaluation_in_range(self.evaluations@, submission_id@);
                }
                let mut e = self.evaluations.remove(i);
                e.record(event);
                self.evaluations.insert(i, e);
                Ok(())
            },
        }
    }

    /// The submission with the given id, if the caller may see it: fails
    /// with `NotFound` for an unknown id, and as the user check does for
    /// the submission's user.
    pub fn submission(&self, submission_id: &str) -> (r: Result<&Submission, ApiError>)
        ensures
            match latest_submission(self.submissions(), submission_id@) {
                None => r == Err::<&Submission, ApiError>(ApiError::NotFound),
                Some(i) => match user_authorization(
                    self.cfg(),
                    self.token(),
                    Some(self.submissions()[i].user_id@),
                ) {
                    Err(e) => r == Err::<&Submission, ApiError>(e),
                    Ok(_) => r is Ok && *r->Ok_0 == self.submissions()[i],
                },
            },
    {
        match find_submission(&self.submissions, submission_id) {
            None => Err(ApiError::NotFound),
            Some(i) => {
                proof {
                    lemma_latest_submission_in_range(self.submissions@, submission_id@);
                }
                let s = &self.submissions[i];
                check_user(&self.config, &self.jwt_data, Some(s.user_id.as_str()))?;
                Ok(s)
            },
        }
    }

    /// The latest evaluation of a submission, if the caller may see the
    /// submission: fails with `NotFound` for an unknown submission or one
    /// never evaluated, and as the user check does for its user.
    pub fn evaluation(&self, submission_id: &str) -> (r: Result<&Evaluation, ApiError>)
        ensures
            match latest_submission(self.submissions(), submission_id@) {
                None => r == Err::<&Evaluation, ApiError>(ApiError::NotFound),
                Some(i) => match user_authorization(
                    self.cfg(),
                    self.token(),
                    Some(self.submissions()[i].user_id@),
                ) {
                    Err(e) => r == Err::<&Evaluation, ApiError>(e),
                    Ok(_) => match latest_evaluation(self.evaluations(), submission_id@) {
                        None => r == Err::<&Evaluation, ApiError>(ApiError::NotFound),
                        Some(j) => r is Ok && *r->Ok_0 == self.evaluations()[j],
                    },
                },
            },
    {
        self.submission(submission_id)?;
        match find_evaluation(&self.evaluations, submission_id) {
            None => Err(ApiError::NotFound),
            Some(j) => {
                proof {
                    lemma_latest_evaluation_in_range(self.evaluations@, submission_id@);
                }
                Ok(&self.evaluations[j])
            },
        }
    }
}

} // verus!

verus! {

/// Whether no name in `names` is the problem's.
pub open spec fn kept(p: Problem, names: Seq<String>) -> bool {
    forall|i: int| 0 <= i < names.len() ==> (#[trigger] names[i])@ != p.name@
}

/// The problems that deleting `names` leaves, in order.
pub open spec fn remaining(problems: Seq<Problem>, names: Seq<String>) -> Seq<Problem> {
    problems.filter(|p: Problem| kept(p, names))
}

/// The position of the first problem with the given name.
pub open spec fn problem_named(problems: Seq<Problem>, name: Seq<char>) -> Option<int>
    decreases problems.len(),
{
    if problems.len() == 0 {
        None
    } else {
        match problem_named(problems.drop_last(), name) {
            Some(i) => Some(i),
            None => if problems.last().name@ == name {
                Some(problems.len() - 1)
            } else {
                None
            },
        }
    }
}

fn is_listed(names: &Vec<String>, name: &str) -> (r: bool)
    ensures
        r == exists|i: int| 0 <= i < names@.len() && (#[trigger] names@[i])@ == name@,
{
    let mut i: usize = 0;
    while i < names.len()
        invariant
            i <= names@.len(),
            forall|j: int| 0 <= j < i ==> (#[trigger] names@[j])@ != name@,
        decreases names.len() - i,
    {
        if str_eq(names[i].as_str(), name) {
            return true;
        }
        i = i + 1;
    }
    false
}

impl ApiContext {
    /// Adds problems, storing each archive as a blob. Admins only: fails
    /// with `Forbidden`, changing nothing, otherwise.
    pub fn add_problems(&mut self, inputs: &Vec<ProblemInput>) -> (r: Result<(), ApiError>)
        requires
            old(self).wf(),
        ensures
            final(self).wf(),
            r is Ok <==> admin_authorization(old(self).cfg()) is Ok,
            r is Err ==> r == Err::<(), ApiError>(ApiError::Forbidden) && final(self).problems()
                == old(self).problems() && final(self).store() == old(self).store(),
            r is Ok ==> {
                &&& final(self).problems().len() == old(self).problems().len() + inputs@.len()
                &&& final(self).problems().take(old(self).problems().len() as int) == old(self).problems()
                &&& forall|k: int|
                    0 <= k < inputs@.len() ==> {
                        let p = #[trigger] final(self).problems()[old(self).problems().len() + k];
                        &&& p.name@ == inputs@[k].name@
                        &&& p.archive_integrity@ == crate::store::integrity_of(
                            inputs@[k].archive_content@,
                        )
                        &&& final(self).store().blobs().contains_key(p.archive_integrity@)
                    }
                &&& final(self).store().unpacked() == old(self).store().unpacked()
            },
            final(self).submissions() == old(self).submissions(),
            final(self).evaluations() == old(self).evaluations(),
            final(self).cfg() == old(self).cfg(),
            final(self).token() == old(self).token(),
    {
        check_admin(&self.config)?;
        let n0 = self.problems.len();
        let mut i: usize = 0;
        while i < inputs.len()
            invariant
                i <= inputs@.len(),
                n0 == old(self).problems@.len(),
                self.store.wf(),
                self.problems@.len() == n0 + i,
                self.problems@.take(n0 as int) == old(self).problems@,
                forall|k: int|
                    0 <= k < i ==> {
                        let p = #[trigger] self.problems@[n0 + k];
                        &&& p.name@ == inputs@[k].name@
                        &&& p.archive_integrity@ == crate::store::integrity_of(
                            inputs@[k].archive_content@,
                        )
                        &&& self.store.blobs().contains_key(p.archive_integrity@)
                    },
                self.store.unpacked() == old(self).store.unpacked(),
                self.store.workspace() == old(self).store.workspace(),
                self.submissions@ == old(self).submissions@,
                self.evaluations@ == old(self).evaluations@,
                self.config == old(self).config,
                self.jwt_data == old(self).jwt_data,
            decreases inputs.len() - i,
        {
            let input = &inputs[i];
            let integrity = self.store.put(input.archive_content.as_slice());
            let ghost before = self.problems@;
            self.problems.push(
                Problem { name: input.name.clone(), archive_integrity: integrity },
            );
            assert(self.problems@.take(n0 as int) =~= before.take(n0 as int));
            i = i + 1;
        }
        Ok(())
    }

    /// Deletes the problems with the given names. Admins only: fails with
    /// `Forbidden`, changing nothing, otherwise.
    pub fn delete_problems(&mut self, names: &Vec<String>) -> (r: Result<(), ApiError>)
        ensures
            final(self).wf() == old(self).wf(),
            r is Ok <==> admin_authorization(old(self).cfg()) is Ok,
            r is Err ==> r == Err::<(), ApiError>(ApiError::Forbidden) && final(self).problems()
                == old(self).problems(),
            r is Ok ==> final(self).problems().len() == remaining(
                old(self).problems(),
                names@,
            ).len() && forall|k: int|
                0 <= k < final(self).problems().len() ==> (#[trigger] final(self).problems()[k]).name@
                    == remaining(old(self).problems(), names@)[k].name@ && final(self).problems()[k].archive_integrity@ == remaining(
                    old(self).problems(),
                    names@,
                )[k].archive_integrity@,
            final(self).store() == old(self).store(),
            final(self).submissions() == old(self).submissions(),
            final(self).evaluations() == old(self).evaluations(),
            final(self).cfg() == old(self).cfg(),
            final(self).token() == old(self).token(),
    {
        check_admin(&self.config)?;
        let mut kept_problems: Vec<Problem> = Vec::new();
        let mut i: usize = 0;
        while i < self.problems.len()
            invariant
                i <= self.problems@.len(),
                self.problems@ == old(self).problems@,
                self.store == old(self).store,
                self.submissions@ == old(self).submissions@,
                self.evaluations@ == old(self).evaluations@,
                self.config == old(self).config,
                self.jwt_data == old(self).jwt_data,
                kept_problems@.len() == remaining(self.problems@.take(i as int), names@).len(),
                forall|k: int|
                    0 <= k < kept_problems@.len() ==> (#[trigger] kept_problems@[k]).name@
                        == remaining(self.problems@.take(i as int), names@)[k].name@
                        && kept_problems@[k].archive_integrity@ == remaining(
                        self.problems@.take(i as int),
                        names@,
                    )[k].archive_integrity@,
            decreases self.problems.len() - i,
        {
            let p = &self.problems[i];
            proof {
                let post = self.problems@.take(i as int + 1);
                assert(post.drop_last() =~= self.problems@.take(i as int));
                assert(post.len() > 0);
                reveal_with_fuel(Seq::filter, 2);
                assert(remaining(post, names@) == if kept(self.problems@[i as int], names@) {
                    remaining(self.problems@.take(i as int), names@).push(self.problems@[i as int])
                } else {
                    remaining(self.problems@.take(i as int), names@)
                });
            }
            if !is_listed(names, p.name.as_str()) {
                kept_problems.push(
                    Problem { name: p.name.clone(), archive_integrity: p.archive_integrity.clone() },
                );
            }
            i = i + 1;
        }
        assert(self.problems@.take(i as int) =~= self.problems@);
        self.problems = kept_problems;
        Ok(())
    }

    /// The first problem with the given name; fails with `NotFound` when
    /// there is none.
    pub fn problem(&self, name: &str) -> (r: Result<&Problem, ApiError>)
        ensures
            match problem_named(self.problems(), name@) {
                None => r == Err::<&Problem, ApiError>(ApiError::NotFound),
                Some(i) => r is Ok && *r->Ok_0 == self.problems()[i],
            },
    {
        let mut i: usize = 0;
        while i < self.problems.len()
            invariant
                i <= self.problems@.len(),
                problem_named(self.problems@.take(i as int), name@) is None,
            decreases self.problems.len() - i,
        {
            assert(self.problems@.take(i as int + 1).drop_last() =~= self.problems@.take(i as int));
            if str_eq(self.problems[i].name.as_str(), name) {
                proof {
                    lemma_problem_named_prefix(self.problems@, i as int + 1, name@, i as int);
                }
                return Ok(&self.problems[i]);
            }
            i = i + 1;
        }
        assert(self.problems@.take(i as int) =~= self.problems@);
        Err(ApiError::NotFound)
    }

    /// Resolves the directory the archive of a problem unpacks into, with
    /// prefix `problem`; fails with `NotFound` for an unknown problem.
    pub fn unpack_problem(&mut self, name: &str) -> (r: Result<UnpackPlan, ApiError>)
        requires
            old(self).wf(),
        ensures
            final(self).wf(),
            match problem_named(old(self).problems(), name@) {
                None => r == Err::<UnpackPlan, ApiError>(ApiError::NotFound) && final(self).store()
                    == old(self).store(),
                Some(i) => unpack_post(
                    old(self).store(),
                    old(self).problems()[i].archive_integrity@,
                    "problem"@,
                    r,
                    final(self).store(),
                ),
            },
            final(self).problems() == old(self).problems(),
            final(self).submissions() == old(self).submissions(),
            final(self).evaluations() == old(self).evaluations(),
            final(self).cfg() == old(self).cfg(),
            final(self).token() == old(self).token(),
    {
        let integrity = match self.problem(name) {
            Ok(p) => String::from_str(p.archive_integrity.as_str()),
            Err(e) => return Err(e),
        };
        self.store.unpack(integrity.as_str(), "problem")
    }
}

proof fn lemma_problem_named_prefix(problems: Seq<Problem>, n: int, name: Seq<char>, j: int)
    requires
        0 < n <= problems.len(),
        problem_named(problems.take(n), name) == Some(j),
    ensures
        problem_named(problems, name) == Some(j),
    decreases problems.len() - n,
{
    if n < problems.len() {
        assert(problems.take(n + 1).drop_last() =~= problems.take(n));
        lemma_problem_named_prefix(problems, n + 1, name, j);
    } else {
        assert(problems.take(n) =~= problems);
    }
}

/// Whether a submission is by the given user for the given problem.
pub open spec fn is_by(s: Submission, user: Seq<char>, problem: Seq<char>) -> bool {
    s.user_id@ == user && s.problem_name@ == problem
}

/// The submissions by the given user for the given problem, in order.
pub open spec fn submissions_by(subs: Seq<Submission>, user: Seq<char>, problem: Seq<char>) -> Seq<
    Submission,
> {
    subs.filter(|s: Submission| is_by(s, user, problem))
}

impl ApiContext {
    /// The submissions by a user for a problem, in order of arrival.
    pub fn by_user_and_problem(&self, user_id: &str, problem_name: &str) -> (r: Vec<&Submission>)
        ensures
            r@.len() == submissions_by(self.submissions(), user_id@, problem_name@).len(),
            forall|k: int|
                0 <= k < r@.len() ==> *(#[trigger] r@[k]) == submissions_by(
                    self.submissions(),
                    user_id@,
                    problem_name@,
                )[k],
    {
        let mut r: Vec<&Submission> = Vec::new();
        let mut i: usize = 0;
        while i < self.submissions.len()
            invariant
                i <= self.submissions@.len(),
                r@.len() == submissions_by(self.submissions@.take(i as int), user_id@, problem_name@).len(),
                forall|k: int|
                    0 <= k < r@.len() ==> *(#[trigger] r@[k]) == submissions_by(
                        self.submissions@.take(i as int),
                        user_id@,
                        problem_name@,
                    )[k],
            decreases self.submissions.len() - i,
        {
            proof {
                let post = self.submissions@.take(i as int + 1);
                assert(post.drop_last() =~= self.submissions@.take(i as int));
                assert(post.len() > 0);
                reveal_with_fuel(Seq::filter, 2);
            }
            let s = &self.submissions[i];
            if str_eq(s.user_id.as_str(), user_id) && str_eq(s.problem_name.as_str(), problem_name) {
                r.push(s);
            }
            i = i + 1;
        }
        assert(self.submissions@.take(i as int) =~= self.submissions@);
        r
    }
}

/// The archive integrity of a problem after the updates: that of the last
/// update naming it with an archive, else the one it had.
pub open spec fn updated_integrity(
    name: Seq<char>,
    current: Seq<char>,
    inputs: Seq<ProblemUpdateInput>,
) -> Seq<char>
    decreases inputs.len(),
{
    if inputs.len() == 0 {
        current
    } else if inputs.last().name@ == name && inputs.last().archive_content is Some {
        crate::store::integrity_of(inputs.last().archive_content->0@)
    } else {
        updated_integrity(name, current, inputs.drop_last())
    }
}

impl ApiContext {
    /// Replaces the archives of the named problems, storing each new archive
    /// as a blob; updates without an archive change nothing. Admins only:
    /// fails with `Forbidden`, changing nothing, otherwise.
    pub fn update_problems(&mut self, inputs: &Vec<ProblemUpdateInput>) -> (r: Result<(), ApiError>)
        requires
            old(self).wf(),
        ensures
            final(self).wf(),
            r is Ok <==> admin_authorization(old(self).cfg()) is Ok,
            r is Err ==> r == Err::<(), ApiError>(ApiError::Forbidden) && final(self).problems()
                == old(self).problems() && final(self).store() == old(self).store(),
            final(self).problems().len() == old(self).problems().len(),
            forall|j: int|
                0 <= j < old(self).problems().len() ==> {
                    let p = #[trigger] final(self).problems()[j];
                    let q = old(self).problems()[j];
                    &&& p.name@ == q.name@
                    &&& r is Ok ==> p.archive_integrity@ == updated_integrity(
                        q.name@,
                        q.archive_integrity@,
                        inputs@,
                    )
                },
            final(self).store().unpacked() == old(self).store().unpacked(),
            final(self).submissions() == old(self).submissions(),
            final(self).evaluations() == old(self).evaluations(),
            final(self).cfg() == old(self).cfg(),
            final(self).token() == old(self).token(),
    {
        check_admin(&self.config)?;
        let n = self.problems.len();
        let mut i: usize = 0;
        while i < inputs.len()
            invariant
                i <= inputs@.len(),
                n == old(self).problems@.len(),
                self.store.wf(),
                self.problems@.len() == n,
                forall|j: int|
                    0 <= j < n ==> {
                        let p = #[trigger] self.problems@[j];
                        let q = old(self).problems@[j];
                        &&& p.name@ == q.name@
                        &&& p.archive_integrity@ == updated_integrity(
                            q.name@,
                            q.archive_integrity@,
                            inputs@.take(i as int),
                        )
                    },
                self.store.unpacked() == old(self).store.unpacked(),
                self.store.workspace() == old(self).store.workspace(),
                self.submissions@ == old(self).submissions@,
                self.evaluations@ == old(self).evaluations@,
                self.config == old(self).config,
                self.jwt_data == old(self).jwt_data,
            decreases inputs.len() - i,
        {
            let input = &inputs[i];
            proof {
                assert(inputs@.take(i as int + 1).drop_last() =~= inputs@.take(i as int));
            }
            match &input.archive_content {
                None => {},
                Some(content) => {
                    let integrity = self.store.put(content.as_slice());
                    let mut next: Vec<Problem> = Vec::new();
                    let mut j: usize = 0;
                    while j < self.problems.len()
                        invariant
                            j <= n,
                            self.problems@.len() == n,
                            next@.len() == j,
                            integrity@ == crate::store::integrity_of(content@),
                            forall|k: int|
                                0 <= k < j ==> {
                                    let p = #[trigger] next@[k];
                                    let q = self.problems@[k];
                                    &&& p.name@ == q.name@
                                    &&& p.archive_integrity@ == if q.name@ == input.name@ {
                                        integrity@
                                    } else {
                                        q.archive_integrity@
                                    }
                                },
                        decreases n - j,
                    {
                        let q = &self.problems[j];
                        let archive_integrity = if str_eq(q.name.as_str(), input.name.as_str()) {
                            integrity.clone()
                        } else {
                            q.archive_integrity.clone()
                        };
                        next.push(Problem { name: q.name.clone(), archive_integrity });
                        j = j + 1;
                    }
                    self.problems = next;
                },
            }
            i = i + 1;
        }
        assert(inputs@.take(i as int) =~= inputs@);
        Ok(())
    }
}

} // verus!
