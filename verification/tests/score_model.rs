//! The score model on concrete values: the monotonic merge's commutativity,
//! idempotence and monotonicity on sample rows, the per-slot update, and the
//! lamp code conversions.

use score_websites::scores::LampType;
use score_websites::scores::ScoreRow;
use score_websites::scores::Scores;
use score_websites::scores::merge_slot;

fn row(score: u32, lamp: LampType, time_played: Option<u64>) -> ScoreRow {
    ScoreRow { score, lamp, time_played }
}

#[test]
fn maximize_takes_each_metric_independently() {
    let a = row(890_000, LampType::GreatCombo, Some(1_640_995_200));
    let b = row(950_000, LampType::NoCombo, None);
    let m = a.maximize(b);
    assert_eq!(m, row(950_000, LampType::GreatCombo, Some(1_640_995_200)));
}

#[test]
fn merge_commutative_on_samples() {
    let cases = [
        (None, None),
        (Some(row(1, LampType::Fail, None)), None),
        (
            Some(row(700_000, LampType::GoodCombo, Some(5))),
            Some(row(800_000, LampType::Fail, Some(9))),
        ),
        (
            Some(row(999_990, LampType::MarvelousCombo, None)),
            Some(row(1, LampType::Unknown, Some(3))),
        ),
    ];
    for (a, b) in cases {
        assert_eq!(merge_slot(a, b), merge_slot(b, a));
    }
}

#[test]
fn merge_idempotent_on_samples() {
    let a = Some(row(700_000, LampType::GoodCombo, Some(5)));
    let b = Some(row(800_000, LampType::Fail, Some(9)));
    let ab = merge_slot(a, b);
    assert_eq!(merge_slot(ab, b), ab);
    assert_eq!(merge_slot(a, a), a);
    assert_eq!(merge_slot(None, None), None);
}

#[test]
fn merge_monotone_on_samples() {
    let a = row(700_000, LampType::GoodCombo, Some(5));
    let b = row(800_000, LampType::Fail, Some(9));
    let m = merge_slot(Some(a), Some(b)).unwrap();
    assert!(m.score >= a.score && m.score >= b.score);
    assert!(m.lamp >= a.lamp && m.lamp >= b.lamp);
}

#[test]
fn table_update_counts_changed_slots() {
    let mut ours = Scores::default();
    ours.expert_score = Some(row(700_000, LampType::GoodCombo, None));
    let mut theirs = Scores::default();
    theirs.expert_score = Some(row(800_000, LampType::Fail, None));
    theirs.basic_score = Some(row(500_000, LampType::NoCombo, None));
    let n = ours.update(&theirs);
    assert_eq!(n, 2);
    assert_eq!(
        ours.expert_score,
        Some(row(800_000, LampType::GoodCombo, None))
    );
    assert_eq!(ours.basic_score, Some(row(500_000, LampType::NoCombo, None)));
    // replaying the same observations changes nothing
    let again = ours.update(&theirs);
    assert_eq!(again, 0);
}

#[test]
fn lamp_conversions() {
    assert_eq!(LampType::from_skill_attack_index(0), Some(LampType::Unknown));
    assert_eq!(
        LampType::from_skill_attack_index(1),
        Some(LampType::GoodGreatCombo)
    );
    assert_eq!(
        LampType::from_skill_attack_index(2),
        Some(LampType::PerfectCombo)
    );
    assert_eq!(
        LampType::from_skill_attack_index(3),
        Some(LampType::MarvelousCombo)
    );
    assert_eq!(LampType::from_skill_attack_index(4), None);
    assert_eq!(LampType::from_sanbai_lamp_index(0), Some(LampType::Fail));
    assert_eq!(
        LampType::from_sanbai_lamp_index(6),
        Some(LampType::MarvelousCombo)
    );
    assert_eq!(LampType::from_sanbai_lamp_index(7), None);
}
