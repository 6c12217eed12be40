use vstd::prelude::*;
use vstd::string::*;
use crate::content::TextVariant;
use crate::text::{decimal, decimal_string};

verus! {

/// A score, counted in hundredths of a point.
#[derive(Clone, Copy, Debug, PartialEq, Eq, Structural)]
pub struct Score(pub u64);

/// The largest value a score can hold.
pub open spec fn score_limit() -> int {
    u64::MAX as int
}

/// An unbounded sum, cut down to what a score can hold.
pub open spec fn capped(n: int) -> int {
    if n > score_limit() {
        score_limit()
    } else {
        n
    }
}

impl Score {
    /// A whole number of points.
    pub fn points(n: u32) -> (r: Score)
        ensures
            r.0 == n as int * 100,
    {
        Score(n as u64 * 100)
    }
}

/// The range of a score: the number of decimal digits it is shown with,
/// and its ceiling.
#[derive(Clone, Copy, Debug, PartialEq, Eq, Structural)]
pub struct ScoreRange {
    pub precision: u32,
    pub max: Score,
}

/// The largest precision among `ranges`, or 0 when there is none.
pub open spec fn max_precision(ranges: Seq<ScoreRange>) -> u32
    decreases ranges.len(),
{
    if ranges.len() == 0 {
        0
    } else {
        let rest = max_precision(ranges.drop_last());
        if ranges.last().precision > rest {
            ranges.last().precision
        } else {
            rest
        }
    }
}

/// The sum of the ceilings of `ranges`.
pub open spec fn sum_max(ranges: Seq<ScoreRange>) -> int
    decreases ranges.len(),
{
    if ranges.len() == 0 {
        0
    } else {
        sum_max(ranges.drop_last()) + ranges.last().max.0
    }
}

/// What merging `ranges` gives: the largest precision and the summed ceiling.
pub open spec fn merged(ranges: Seq<ScoreRange>) -> ScoreRange {
    ScoreRange { precision: max_precision(ranges), max: Score(capped(sum_max(ranges)) as u64) }
}

impl ScoreRange {
    /// Combines ranges into the range of their total: the largest precision,
    /// and the sum of the ceilings (held at the largest score on overflow).
    pub fn merge(ranges: &Vec<ScoreRange>) -> (r: ScoreRange)
        ensures
            r == merged(ranges@),
    {
        let mut precision: u32 = 0;
        let mut max: u64 = 0;
        let mut i: usize = 0;
        while i < ranges.len()
            invariant
                i <= ranges.len(),
                precision == max_precision(ranges@.take(i as int)),
                max == capped(sum_max(ranges@.take(i as int))),
            decreases ranges.len() - i,
        {
            proof {
                assert(ranges@.take(i as int + 1).drop_last() =~= ranges@.take(i as int));
                lemma_sum_max_nonneg(ranges@.take(i as int));
            }
            let r = ranges[i];
            if r.precision > precision {
                precision = r.precision;
            }
            max = max.saturating_add(r.max.0);
            i = i + 1;
        }
        proof {
            assert(ranges@.take(i as int) =~= ranges@);
        }
        ScoreRange { precision, max: Score(max) }
    }
}

/// A sum of ceilings is never negative.
pub proof fn lemma_sum_max_nonneg(ranges: Seq<ScoreRange>)
    ensures
        sum_max(ranges) >= 0,
    decreases ranges.len(),
{
    if ranges.len() > 0 {
        lemma_sum_max_nonneg(ranges.drop_last());
    }
}

} // verus!

verus! {

/// Where a score is awarded: a whole subtask, or one testcase of a subtask.
#[derive(Clone, Copy, Debug, PartialEq, Eq, Structural)]
pub enum AwardKey {
    Subtask(u32),
    Testcase(u32, u32),
}

/// The text form of a key, as feedback cells and scorables name it.
pub open spec fn key_text(k: AwardKey) -> Seq<char> {
    match k {
        AwardKey::Subtask(s) => "subtask."@ + decimal(s as nat),
        AwardKey::Testcase(s, t) => "subtask."@ + decimal(s as nat) + ".testcase."@ + decimal(
            t as nat,
        ) + ".score"@,
    }
}

impl AwardKey {
    /// The text form of this key: `subtask.<id>` or
    /// `subtask.<id>.testcase.<id>.score`.
    pub fn text(&self) -> (r: String)
        ensures
            r@ == key_text(*self),
    {
        match *self {
            AwardKey::Subtask(s) => {
                let mut r = String::from_str("subtask.");
                r.append(decimal_string(s).as_str());
                r
            },
            AwardKey::Testcase(s, t) => {
                let mut r = String::from_str("subtask.");
                r.append(decimal_string(s).as_str());
                r.append(".testcase.");
                r.append(decimal_string(t).as_str());
                r.append(".score");
                r
            },
        }
    }
}

/// A score awarded under a key.
#[derive(Clone, Copy, Debug, PartialEq, Eq, Structural)]
pub struct AwardOutcome {
    pub key: AwardKey,
    pub score: Score,
}

/// A named scoring dimension, bounded by its range.
#[derive(Debug)]
pub struct Scorable {
    pub name: AwardKey,
    pub title: Vec<TextVariant>,
    pub range: ScoreRange,
}

/// The score of the first outcome under `key`, or 0 when there is none.
pub open spec fn score_for(awards: Seq<AwardOutcome>, key: AwardKey) -> int
    decreases awards.len(),
{
    if awards.len() == 0 {
        0
    } else if awards[0].key == key {
        awards[0].score.0 as int
    } else {
        score_for(awards.drop_first(), key)
    }
}

/// What a scorable contributes: its outcome's score, held within its range.
pub open spec fn clamped_score(awards: Seq<AwardOutcome>, s: Scorable) -> int {
    let v = score_for(awards, s.name);
    if v > s.range.max.0 {
        s.range.max.0 as int
    } else {
        v
    }
}

/// The sum, over the scorables, of what each contributes.
pub open spec fn total_of(awards: Seq<AwardOutcome>, scorables: Seq<Scorable>) -> int
    decreases scorables.len(),
{
    if scorables.len() == 0 {
        0
    } else {
        total_of(awards, scorables.drop_last()) + clamped_score(awards, scorables.last())
    }
}

/// The ranges of the scorables, in order.
pub open spec fn ranges_of(scorables: Seq<Scorable>) -> Seq<ScoreRange> {
    scorables.map_values(|s: Scorable| s.range)
}

/// Looks up the score of the first outcome under `key`.
pub fn score_of_key(awards: &Vec<AwardOutcome>, key: AwardKey) -> (r: Score)
    ensures
        r.0 == score_for(awards@, key),
{
    let mut i: usize = 0;
    assert(awards@.skip(0) =~= awards@);
    while i < awards.len()
        invariant
            i <= awards.len(),
            score_for(awards@, key) == score_for(awards@.skip(i as int), key),
        decreases awards.len() - i,
    {
        assert(awards@.skip(i as int).drop_first() =~= awards@.skip(i as int + 1));
        if awards[i].key == key {
            return awards[i].score;
        }
        i = i + 1;
    }
    Score(0)
}

/// The total score of a set of outcomes: for each scorable, the score of
/// the outcome under its name, held within its range. Outcomes under no
/// scorable's name count for nothing.
pub fn total_score(awards: &Vec<AwardOutcome>, scorables: &Vec<Scorable>) -> (r: Score)
    ensures
        r.0 == capped(total_of(awards@, scorables@)),
{
    let mut total: u64 = 0;
    let mut i: usize = 0;
    while i < scorables.len()
        invariant
            i <= scorables.len(),
            total == capped(total_of(awards@, scorables@.take(i as int))),
        decreases scorables.len() - i,
    {
        proof {
            assert(scorables@.take(i as int + 1).drop_last() =~= scorables@.take(i as int));
            lemma_total_nonneg(awards@, scorables@.take(i as int));
            lemma_score_for_nonneg(awards@, scorables@[i as int].name);
        }
        let s = &scorables[i];
        let v = score_of_key(awards, s.name);
        let c = if v.0 > s.range.max.0 {
            s.range.max.0
        } else {
            v.0
        };
        total = total.saturating_add(c);
        i = i + 1;
    }
    proof {
        assert(scorables@.take(i as int) =~= scorables@);
    }
    Score(total)
}

/// A looked-up score is never negative.
pub proof fn lemma_score_for_nonneg(awards: Seq<AwardOutcome>, key: AwardKey)
    ensures
        score_for(awards, key) >= 0,
    decreases awards.len(),
{
    if awards.len() > 0 {
        lemma_score_for_nonneg(awards.drop_first(), key);
    }
}

/// A total is never negative.
pub proof fn lemma_total_nonneg(awards: Seq<AwardOutcome>, scorables: Seq<Scorable>)
    ensures
        total_of(awards, scorables) >= 0,
    decreases scorables.len(),
{
    if scorables.len() > 0 {
        lemma_total_nonneg(awards, scorables.drop_last());
        lemma_score_for_nonneg(awards, scorables.last().name);
    }
}

/// The total score of any set of outcomes lies within the range obtained by
/// merging the ranges of the scorables.
pub proof fn lemma_total_within_range(awards: Seq<AwardOutcome>, scorables: Seq<Scorable>)
    ensures
        capped(total_of(awards, scorables)) <= merged(ranges_of(scorables)).max.0,
    decreases scorables.len(),
{
    lemma_total_bounded(awards, scorables);
}

proof fn lemma_total_bounded(awards: Seq<AwardOutcome>, scorables: Seq<Scorable>)
    ensures
        total_of(awards, scorables) <= sum_max(ranges_of(scorables)),
    decreases scorables.len(),
{
    if scorables.len() > 0 {
        lemma_total_bounded(awards, scorables.drop_last());
        assert(ranges_of(scorables).drop_last() =~= ranges_of(scorables.drop_last()));
    }
}

} // verus!
