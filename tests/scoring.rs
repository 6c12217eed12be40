use turingarena_core::score::{total_score, AwardKey, AwardOutcome, Score, ScoreRange, Scorable};
use turingarena_core::content::plain_text;
use turingarena_core::order::sort_ids;
use turingarena_core::text::{decimal_string, str_eq};

fn range(precision: u32, points: u32) -> ScoreRange {
    ScoreRange { precision, max: Score::points(points) }
}

fn scorable(id: u32, points: u32) -> Scorable {
    Scorable { name: AwardKey::Subtask(id), title: plain_text("t".to_string()), range: range(0, points) }
}

#[test]
fn merge_sums_ceilings() {
    let merged = ScoreRange::merge(&vec![range(0, 40), range(0, 60)]);
    assert_eq!(merged, range(0, 100));
}

#[test]
fn merge_of_nothing_is_zero() {
    assert_eq!(ScoreRange::merge(&vec![]), ScoreRange { precision: 0, max: Score(0) });
}

#[test]
fn merge_keeps_largest_precision() {
    let merged = ScoreRange::merge(&vec![range(2, 1), range(0, 3), range(1, 0)]);
    assert_eq!(merged.precision, 2);
    assert_eq!(merged.max, Score(400));
}

#[test]
fn merge_holds_at_largest_score() {
    let merged = ScoreRange::merge(&vec![
        ScoreRange { precision: 0, max: Score(u64::MAX) },
        range(0, 1),
    ]);
    assert_eq!(merged.max, Score(u64::MAX));
}

#[test]
fn points_are_hundredths() {
    assert_eq!(Score::points(7), Score(700));
}

#[test]
fn key_text_forms() {
    assert_eq!(AwardKey::Subtask(3).text(), "subtask.3");
    assert_eq!(AwardKey::Testcase(2, 15).text(), "subtask.2.testcase.15.score");
}

#[test]
fn decimal_forms() {
    assert_eq!(decimal_string(0), "0");
    assert_eq!(decimal_string(9), "9");
    assert_eq!(decimal_string(10), "10");
    assert_eq!(decimal_string(4294967295), "4294967295");
}

#[test]
fn string_comparison() {
    assert!(str_eq("abc", "abc"));
    assert!(!str_eq("abc", "abd"));
    assert!(!str_eq("abc", "ab"));
    assert!(str_eq("", ""));
}

#[test]
fn ids_sorted_ascending() {
    assert_eq!(sort_ids(&vec![5, 1, 4, 1, 3]), vec![1, 1, 3, 4, 5]);
    assert_eq!(sort_ids(&vec![]), Vec::<u32>::new());
}

#[test]
fn total_counts_subtask_outcomes_within_range() {
    let scorables = vec![scorable(1, 40), scorable(2, 60)];
    let awards = vec![
        AwardOutcome { key: AwardKey::Subtask(1), score: Score(2500) },
        AwardOutcome { key: AwardKey::Subtask(2), score: Score(9000) },
        AwardOutcome { key: AwardKey::Testcase(1, 1), score: Score(100) },
        AwardOutcome { key: AwardKey::Subtask(7), score: Score(5000) },
    ];
    assert_eq!(total_score(&awards, &scorables), Score(2500 + 6000));
}

#[test]
fn total_of_nothing_is_zero() {
    assert_eq!(total_score(&vec![], &vec![scorable(1, 10)]), Score(0));
    let awards = vec![AwardOutcome { key: AwardKey::Subtask(1), score: Score(5) }];
    assert_eq!(total_score(&awards, &vec![]), Score(0));
}
