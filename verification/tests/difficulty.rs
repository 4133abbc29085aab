use cave_runner::difficulty::{
    difficulty_label, goal_timer_needs_tick, next_difficulty, reaches_goal, resolve_contacts, Advance,
    ContactEvent, Difficulty, FrameOutcome, HARD_LEVEL, NORMAL_LEVEL,
};

fn goal() -> ContactEvent {
    ContactEvent::Started { sensor: true, removed: false }
}

#[test]
fn next_difficulty_follows_the_progression() {
    assert_eq!(next_difficulty(Difficulty::Normal(200)), Advance::To(Difficulty::Normal(300)));
    assert_eq!(next_difficulty(Difficulty::Normal(300)), Advance::To(Difficulty::Hardest));
    assert_eq!(next_difficulty(Difficulty::Hardest), Advance::Won);
    assert_eq!(next_difficulty(Difficulty::Normal(7)), Advance::To(Difficulty::Normal(200)));
    assert_eq!(next_difficulty(Difficulty::Normal(0)), Advance::To(Difficulty::Normal(NORMAL_LEVEL)));
}

#[test]
fn labels_of_each_difficulty() {
    assert_eq!(difficulty_label(Difficulty::Normal(200)), "Difficulty: Normal");
    assert_eq!(difficulty_label(Difficulty::Normal(300)), "Difficulty: Hard");
    assert_eq!(difficulty_label(Difficulty::Hardest), "Difficulty: Very Hard");
    assert_eq!(difficulty_label(Difficulty::Normal(250)), "Bug!");
}

#[test]
fn a_game_starts_at_normal() {
    assert_eq!(Difficulty::default(), Difficulty::Normal(NORMAL_LEVEL));
}

#[test]
fn only_a_starting_sensor_contact_reaches_the_goal() {
    assert!(reaches_goal(&goal()));
    assert!(!reaches_goal(&ContactEvent::Started { sensor: false, removed: false }));
    assert!(!reaches_goal(&ContactEvent::Started { sensor: true, removed: true }));
    assert!(!reaches_goal(&ContactEvent::Stopped { sensor: true, removed: false }));
}

#[test]
fn timer_ticks_unless_it_just_finished() {
    assert!(goal_timer_needs_tick(false));
    assert!(!goal_timer_needs_tick(true));
}

#[test]
fn frame_without_goal_changes_nothing() {
    let events = [
        ContactEvent::Started { sensor: false, removed: false },
        ContactEvent::Stopped { sensor: true, removed: false },
    ];
    let out = resolve_contacts(Difficulty::Normal(200), true, &events);
    assert_eq!(
        out,
        FrameOutcome { difficulty: Difficulty::Normal(200), timer_reset: false, won: false, relabel: false }
    );
    let out = resolve_contacts(Difficulty::Hardest, true, &[]);
    assert_eq!(out, FrameOutcome { difficulty: Difficulty::Hardest, timer_reset: false, won: false, relabel: false });
}

#[test]
fn goal_during_cool_down_does_not_count() {
    let out = resolve_contacts(Difficulty::Normal(200), false, &[goal(), goal()]);
    assert_eq!(
        out,
        FrameOutcome { difficulty: Difficulty::Normal(200), timer_reset: false, won: false, relabel: false }
    );
}

#[test]
fn goal_advances_once_per_frame() {
    let events = [ContactEvent::Started { sensor: false, removed: false }, goal(), goal(), goal()];
    let out = resolve_contacts(Difficulty::Normal(200), true, &events);
    assert_eq!(
        out,
        FrameOutcome { difficulty: Difficulty::Normal(HARD_LEVEL), timer_reset: true, won: false, relabel: true }
    );
    let out = resolve_contacts(Difficulty::Normal(300), true, &events);
    assert_eq!(out, FrameOutcome { difficulty: Difficulty::Hardest, timer_reset: true, won: false, relabel: true });
    let out = resolve_contacts(Difficulty::Normal(42), true, &[goal()]);
    assert_eq!(
        out,
        FrameOutcome { difficulty: Difficulty::Normal(200), timer_reset: true, won: false, relabel: true }
    );
}

#[test]
fn goal_at_hardest_wins() {
    let out = resolve_contacts(Difficulty::Hardest, true, &[goal()]);
    assert_eq!(out, FrameOutcome { difficulty: Difficulty::Hardest, timer_reset: true, won: true, relabel: false });
}

#[test]
fn three_goals_from_normal_win_the_game() {
    let mut d = Difficulty::default();
    let mut goals = 0;
    loop {
        let out = resolve_contacts(d, true, &[goal()]);
        goals += 1;
        if out.won {
            break;
        }
        assert_ne!(difficulty_label(out.difficulty), "Bug!");
        d = out.difficulty;
    }
    assert_eq!(goals, 3);
}
