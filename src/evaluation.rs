use vstd::prelude::*;
use crate::score::{capped, AwardKey, AwardOutcome, Score};
use crate::text::str_eq;

verus! {

/// Where an evaluation stands.
#[derive(Clone, Copy, Debug, PartialEq, Eq, Structural)]
pub enum EvaluationStatus {
    /// Accepted; the judge has not been started yet.
    Pending,
    /// The judge runs and reports events.
    Running,
    /// The judge finished.
    Succeeded,
    /// The judge could not be started, or reported an error.
    Failed,
}

/// An event of an evaluation, as the judge reports it.
#[derive(Debug)]
pub enum Event {
    /// The score of one testcase of one subtask.
    Score { subtask: u32, testcase: u32, score: Score },
    /// A message for the log.
    Message(String),
    /// The judge finished.
    Done,
    /// The judge failed, with a description.
    Error(String),
}

/// Whether no further event changes an evaluation in this state.
pub open spec fn is_terminal(s: EvaluationStatus) -> bool {
    s == EvaluationStatus::Succeeded || s == EvaluationStatus::Failed
}

/// The state an evaluation is in after the judge reported `e` while it ran.
pub open spec fn status_after(e: Event) -> EvaluationStatus {
    match e {
        Event::Done => EvaluationStatus::Succeeded,
        Event::Error(_) => EvaluationStatus::Failed,
        _ => EvaluationStatus::Running,
    }
}

/// Status and log after the judge reports `e`: a running evaluation logs the
/// event and moves on; in any other state the event is ignored.
pub open spec fn record_step(status: EvaluationStatus, log: Seq<Event>, e: Event) -> (
    EvaluationStatus,
    Seq<Event>,
) {
    if status == EvaluationStatus::Running {
        (status_after(e), log.push(e))
    } else {
        (status, log)
    }
}

/// Status and log after dispatching the judge: a pending evaluation runs
/// on success, and fails with the description logged on failure; in any
/// other state nothing changes.
pub open spec fn dispatch_step(
    status: EvaluationStatus,
    log: Seq<Event>,
    outcome: Result<(), String>,
) -> (EvaluationStatus, Seq<Event>) {
    if status == EvaluationStatus::Pending {
        match outcome {
            Ok(()) => (EvaluationStatus::Running, log),
            Err(m) => (EvaluationStatus::Failed, log.push(Event::Error(m))),
        }
    } else {
        (status, log)
    }
}

/// The summed scores that the log reports for testcases of a subtask.
pub open spec fn subtask_sum(log: Seq<Event>, subtask: u32) -> int
    decreases log.len(),
{
    if log.len() == 0 {
        0
    } else {
        subtask_sum(log.drop_last(), subtask) + match log.last() {
            Event::Score { subtask: s, score, .. } => if s == subtask {
                score.0 as int
            } else {
                0
            },
            _ => 0,
        }
    }
}

/// The subtasks that the log reports scores for, in order of first report.
pub open spec fn scored_subtask_ids(log: Seq<Event>) -> Seq<u32>
    decreases log.len(),
{
    if log.len() == 0 {
        Seq::empty()
    } else {
        let seen = scored_subtask_ids(log.drop_last());
        match log.last() {
            Event::Score { subtask, .. } => if seen.contains(subtask) {
                seen
            } else {
                seen.push(subtask)
            },
            _ => seen,
        }
    }
}

/// The testcase outcomes that the log reports, in order.
pub open spec fn testcase_outcomes(log: Seq<Event>) -> Seq<AwardOutcome>
    decreases log.len(),
{
    if log.len() == 0 {
        Seq::empty()
    } else {
        let rest = testcase_outcomes(log.drop_last());
        match log.last() {
            Event::Score { subtask, testcase, score } => rest.push(
                AwardOutcome { key: AwardKey::Testcase(subtask, testcase), score },
            ),
            _ => rest,
        }
    }
}

/// The outcome of a subtask: the sum of its testcases' scores.
pub open spec fn subtask_outcome(log: Seq<Event>, subtask: u32) -> AwardOutcome {
    AwardOutcome {
        key: AwardKey::Subtask(subtask),
        score: Score(capped(subtask_sum(log, subtask)) as u64),
    }
}

/// The outcomes of a log: one per subtask with a reported testcase, in order
/// of first report, then the outcome of every reported testcase, in order.
pub open spec fn outcomes_of(log: Seq<Event>) -> Seq<AwardOutcome> {
    scored_subtask_ids(log).map_values(|s: u32| subtask_outcome(log, s)) + testcase_outcomes(log)
}

/// The sum of the testcase outcomes of a subtask.
pub open spec fn testcase_total(outcomes: Seq<AwardOutcome>, subtask: u32) -> int
    decreases outcomes.len(),
{
    if outcomes.len() == 0 {
        0
    } else {
        testcase_total(outcomes.drop_last(), subtask) + match outcomes.last().key {
            AwardKey::Testcase(s, _) => if s == subtask {
                outcomes.last().score.0 as int
            } else {
                0
            },
            _ => 0,
        }
    }
}

/// A run of the judge on one submission.
#[derive(Debug)]
pub struct Evaluation {
    submission_id: String,
    status: EvaluationStatus,
    events: Vec<Event>,
}

impl Evaluation {
    /// The submission evaluated.
    pub closed spec fn submission(&self) -> Seq<char> {
        self.submission_id@
    }

    /// The current status.
    pub closed spec fn state(&self) -> EvaluationStatus {
        self.status
    }

    /// The events logged so far.
    pub closed spec fn log(&self) -> Seq<Event> {
        self.events@
    }

    /// A pending evaluation of a submission, with an empty log.
    pub fn new(submission_id: String) -> (r: Evaluation)
        ensures
            r.submission() == submission_id@,
            r.state() == EvaluationStatus::Pending,
            r.log().len() == 0,
    {
        Evaluation { submission_id, status: EvaluationStatus::Pending, events: Vec::new() }
    }

    /// Whether this evaluates the given submission.
    pub fn is_of(&self, submission_id: &str) -> (r: bool)
        ensures
            r == (self.submission() == submission_id@),
    {
        str_eq(self.submission_id.as_str(), submission_id)
    }

    /// The current status.
    pub fn status(&self) -> (r: EvaluationStatus)
        ensures
            r == self.state(),
    {
        self.status
    }

    /// The events logged so far, in order.
    pub fn events(&self) -> (r: &Vec<Event>)
        ensures
            r@ == self.log(),
    {
        &self.events
    }

    /// Records whether the judge could be started.
    pub fn dispatched(&mut self, outcome: Result<(), String>)
        ensures
            (final(self).state(), final(self).log()) == dispatch_step(
                old(self).state(),
                old(self).log(),
                outcome,
            ),
            final(self).submission() == old(self).submission(),
    {
        if self.status == EvaluationStatus::Pending {
            match outcome {
                Ok(()) => {
                    self.status = EvaluationStatus::Running;
                },
                Err(m) => {
                    self.status = EvaluationStatus::Failed;
                    self.events.push(Event::Error(m));
                },
            }
        }
    }

    /// Records an event reported by the judge.
    pub fn record(&mut self, event: Event)
        ensures
            (final(self).state(), final(self).log()) == record_step(
                old(self).state(),
                old(self).log(),
                event,
            ),
            final(self).submission() == old(self).submission(),
    {
        if self.status == EvaluationStatus::Running {
            let next = match &event {
                Event::Done => EvaluationStatus::Succeeded,
                Event::Error(_) => EvaluationStatus::Failed,
                _ => EvaluationStatus::Running,
            };
            self.events.push(event);
            self.status = next;
        }
    }

    /// The award outcomes so far: one per subtask with a reported testcase,
    /// holding the sum of its testcases' scores, in order of first report;
    /// then one per reported testcase, in order.
    pub fn awards(&self) -> (r: Vec<AwardOutcome>)
        ensures
            r@ == outcomes_of(self.log()),
    {
        let log = &self.events;
        let mut ids: Vec<u32> = Vec::new();
        let mut tests: Vec<AwardOutcome> = Vec::new();
        let mut i: usize = 0;
        while i < log.len()
            invariant
                i <= log@.len(),
                ids@ == scored_subtask_ids(log@.take(i as int)),
                tests@ == testcase_outcomes(log@.take(i as int)),
            decreases log.len() - i,
        {
            proof {
                assert(log@.take(i as int + 1).drop_last() =~= log@.take(i as int));
            }
            match &log[i] {
                Event::Score { subtask, testcase, score } => {
                    if !contains_id(&ids, *subtask) {
                        ids.push(*subtask);
                    }
                    tests.push(
                        AwardOutcome { key: AwardKey::Testcase(*subtask, *testcase), score: *score },
                    );
                },
                _ => {},
            }
            i = i + 1;
        }
        proof {
            assert(log@.take(i as int) =~= log@);
        }
        let mut r: Vec<AwardOutcome> = Vec::new();
        let mut k: usize = 0;
        while k < ids.len()
            invariant
                k <= ids@.len(),
                ids@ == scored_subtask_ids(log@),
                r@ == ids@.take(k as int).map_values(|s: u32| subtask_outcome(log@, s)),
            decreases ids.len() - k,
        {
            let total = subtask_total(log, ids[k]);
            r.push(AwardOutcome { key: AwardKey::Subtask(ids[k]), score: total });
            k = k + 1;
            assert(r@ =~= ids@.take(k as int).map_values(|s: u32| subtask_outcome(log@, s)));
        }
        assert(ids@.take(k as int) =~= ids@);
        let mut j: usize = 0;
        let ghost head = r@;
        while j < tests.len()
            invariant
                j <= tests@.len(),
                r@ == head + tests@.take(j as int),
            decreases tests.len() - j,
        {
            r.push(tests[j]);
            j = j + 1;
            assert(r@ =~= head + tests@.take(j as int));
        }
        assert(tests@.take(j as int) =~= tests@);
        r
    }
}

fn contains_id(ids: &Vec<u32>, id: u32) -> (r: bool)
    ensures
        r == ids@.contains(id),
{
    let mut i: usize = 0;
    while i < ids.len()
        invariant
            i <= ids@.len(),
            forall|j: int| 0 <= j < i ==> ids@[j] != id,
        decreases ids.len() - i,
    {
        if ids[i] == id {
            return true;
        }
        i = i + 1;
    }
    false
}

fn subtask_total(log: &Vec<Event>, subtask: u32) -> (r: Score)
    ensures
        r.0 == capped(subtask_sum(log@, subtask)),
{
    let mut total: u64 = 0;
    let mut i: usize = 0;
    while i < log.len()
        invariant
            i <= log@.len(),
            total == capped(subtask_sum(log@.take(i as int), subtask)),
            subtask_sum(log@.take(i as int), subtask) >= 0,
        decreases log.len() - i,
    {
        proof {
            assert(log@.take(i as int + 1).drop_last() =~= log@.take(i as int));
        }
        match &log[i] {
            Event::Score { subtask: s, score, .. } => {
                if *s == subtask {
                    total = total.saturating_add(score.0);
                }
            },
            _ => {},
        }
        i = i + 1;
    }
    proof {
        assert(log@.take(i as int) =~= log@);
    }
    Score(total)
}

/// Once an evaluation has succeeded or failed, no report of the judge and
/// no dispatch changes its status or its log.
pub proof fn lemma_terminal_is_final(
    status: EvaluationStatus,
    log: Seq<Event>,
    e: Event,
    outcome: Result<(), String>,
)
    requires
        is_terminal(status),
    ensures
        record_step(status, log, e) == (status, log),
        dispatch_step(status, log, outcome) == (status, log),
{
}

/// An evaluation leaves `Pending` only by dispatch, to `Running` or
/// `Failed`; a running one ends in exactly one of `Succeeded` and `Failed`
/// when the judge reports completion or an error, and runs on otherwise.
pub proof fn lemma_lifecycle(
    status: EvaluationStatus,
    log: Seq<Event>,
    e: Event,
    outcome: Result<(), String>,
)
    ensures
        status == EvaluationStatus::Pending ==> record_step(status, log, e).0
            == EvaluationStatus::Pending,
        status == EvaluationStatus::Pending ==> (dispatch_step(status, log, outcome).0
            == EvaluationStatus::Running <==> outcome is Ok),
        status == EvaluationStatus::Pending ==> (dispatch_step(status, log, outcome).0
            == EvaluationStatus::Failed <==> outcome is Err),
        status == EvaluationStatus::Running ==> record_step(status, log, e).0 == match e {
            Event::Done => EvaluationStatus::Succeeded,
            Event::Error(_) => EvaluationStatus::Failed,
            _ => EvaluationStatus::Running,
        },
        status == EvaluationStatus::Running ==> record_step(status, log, e).1 == log.push(e),
{
}

/// The outcome of each subtask holds the sum of the outcomes of its
/// testcases that the same awards list.
pub proof fn lemma_subtask_outcome_is_sum(log: Seq<Event>, subtask: u32)
    ensures
        subtask_sum(log, subtask) == testcase_total(testcase_outcomes(log), subtask),
    decreases log.len(),
{
    if log.len() > 0 {
        lemma_subtask_outcome_is_sum(log.drop_last(), subtask);
        let rest = testcase_outcomes(log.drop_last());
        match log.last() {
            Event::Score { subtask: s, testcase, score } => {
                let full = testcase_outcomes(log);
                assert(full.drop_last() == rest);
            },
            _ => {},
        }
    }
}

} // verus!
