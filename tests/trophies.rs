use reaction::trophy::{standard_trophies, update_trophy_colors, Trophy, TrophyText};

#[test]
fn standard_trophies_are_locked() {
    let ts = standard_trophies();
    let thresholds: Vec<i32> = ts.iter().map(|t| t.threshold).collect();
    assert_eq!(thresholds, vec![10, 50, 110]);
    assert!(ts.iter().all(|t| !t.unlocked));
}

#[test]
fn trophy_below_threshold_stays_locked() {
    let mut ts = standard_trophies();
    let newly = update_trophy_colors(&mut ts, 9);
    assert!(newly.is_empty());
    assert!(ts.iter().all(|t| !t.unlocked));
}

#[test]
fn trophy_unlocks_at_threshold_once() {
    let mut ts = standard_trophies();
    assert_eq!(update_trophy_colors(&mut ts, 10), vec![0]);
    assert!(ts[0].unlocked && !ts[1].unlocked && !ts[2].unlocked);
    // A second check at the same score, or later, changes nothing more.
    assert!(update_trophy_colors(&mut ts, 10).is_empty());
    assert!(update_trophy_colors(&mut ts, 49).is_empty());
    assert!(ts[0].unlocked);
}

#[test]
fn trophy_stays_unlocked_when_score_is_lower() {
    let mut ts = vec![Trophy { threshold: 5, unlocked: true }];
    assert!(update_trophy_colors(&mut ts, 0).is_empty());
    assert!(ts[0].unlocked);
}

#[test]
fn trophy_jump_unlocks_several_in_order() {
    let mut ts = standard_trophies();
    assert_eq!(update_trophy_colors(&mut ts, 200), vec![0, 1, 2]);
    assert!(ts.iter().all(|t| t.unlocked));
}

#[test]
fn trophy_countdown_label() {
    let label = TrophyText { score: 50 };
    assert_eq!(label.countdown(0), Some(50));
    assert_eq!(label.countdown(49), Some(1));
    assert_eq!(label.countdown(50), None);
    assert_eq!(label.countdown(120), None);
    assert_eq!(TrophyText { score: i32::MAX }.countdown(i32::MIN), Some(u32::MAX));
}
