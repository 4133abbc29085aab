use vstd::prelude::*;

verus! {

/// The difficulty of the game. A `Normal` difficulty carries its level.
#[derive(Clone, Copy, Debug, PartialEq, Eq, Structural)]
pub enum Difficulty {
    Normal(u32),
    Hardest,
}

/// The level of the first normal difficulty.
pub const NORMAL_LEVEL: u32 = 200;

/// The level of the second normal difficulty, shown as "Hard".
pub const HARD_LEVEL: u32 = 300;

/// What reaching the goal does to a difficulty: it moves on to another
/// difficulty, or the game is won.
#[derive(Clone, Copy, Debug, PartialEq, Eq, Structural)]
pub enum Advance {
    To(Difficulty),
    Won,
}

/// The difficulty that follows `d` when the goal is reached.
pub open spec fn spec_next_difficulty(d: Difficulty) -> Advance {
    match d {
        Difficulty::Normal(level) => if level == NORMAL_LEVEL {
            Advance::To(Difficulty::Normal(HARD_LEVEL))
        } else if level == HARD_LEVEL {
            Advance::To(Difficulty::Hardest)
        } else {
            Advance::To(Difficulty::Normal(NORMAL_LEVEL))
        },
        Difficulty::Hardest => Advance::Won,
    }
}

/// Normal goes to Hard, Hard goes to the hardest difficulty, from which the
/// next goal wins the game; a normal difficulty of any other level starts over
/// at Normal.
pub fn next_difficulty(d: Difficulty) -> (r: Advance)
    ensures
        r == spec_next_difficulty(d),
{
    match d {
        Difficulty::Normal(level) => if level == NORMAL_LEVEL {
            Advance::To(Difficulty::Normal(HARD_LEVEL))
        } else if level == HARD_LEVEL {
            Advance::To(Difficulty::Hardest)
        } else {
            Advance::To(Difficulty::Normal(NORMAL_LEVEL))
        },
        Difficulty::Hardest => Advance::Won,
    }
}

/// The text shown for a difficulty.
pub open spec fn label_text(d: Difficulty) -> Seq<char> {
    match d {
        Difficulty::Normal(level) => if level == NORMAL_LEVEL {
            "Difficulty: Normal"@
        } else if level == HARD_LEVEL {
            "Difficulty: Hard"@
        } else {
            "Bug!"@
        },
        Difficulty::Hardest => "Difficulty: Very Hard"@,
    }
}

/// The text that the difficulty display shows for `d`.
pub fn difficulty_label(d: Difficulty) -> (s: &'static str)
    ensures
        s@ == label_text(d),
{
    match d {
        Difficulty::Normal(level) => if level == NORMAL_LEVEL {
            "Difficulty: Normal"
        } else if level == HARD_LEVEL {
            "Difficulty: Hard"
        } else {
            "Bug!"
        },
        Difficulty::Hardest => "Difficulty: Very Hard",
    }
}


impl Default for Difficulty {
    /// A game starts at the Normal difficulty.
    fn default() -> (d: Self)
        ensures
            d == Difficulty::Normal(NORMAL_LEVEL),
    {
        Difficulty::Normal(NORMAL_LEVEL)
    }
}

/// A contact event of the physics engine, with the flags that it carried.
#[derive(Clone, Copy, Debug, PartialEq, Eq, Structural)]
pub enum ContactEvent {
    /// Two colliders started to touch.
    Started { sensor: bool, removed: bool },
    /// Two colliders stopped touching.
    Stopped { sensor: bool, removed: bool },
}

/// The player reaches the goal when a contact starts whose only flag is the
/// sensor flag.
pub open spec fn is_goal_contact(e: ContactEvent) -> bool {
    e matches ContactEvent::Started { sensor, removed } && sensor && !removed
}

/// Whether the contact `e` is the player reaching the goal.
pub fn reaches_goal(e: &ContactEvent) -> (r: bool)
    ensures
        r == is_goal_contact(*e),
        r == (*e == (ContactEvent::Started { sensor: true, removed: false })),
{
    match e {
        ContactEvent::Started { sensor, removed } => *sensor && !*removed,
        ContactEvent::Stopped { .. } => false,
    }
}

/// Whether some contact of `events` reaches the goal.
pub open spec fn has_goal_contact(events: Seq<ContactEvent>) -> bool {
    exists|i: int| 0 <= i < events.len() && is_goal_contact(#[trigger] events[i])
}

/// The cool-down timer of the goal is advanced in a frame unless it finished
/// in the frame before.
pub fn goal_timer_needs_tick(just_finished: bool) -> (r: bool)
    ensures
        r == !just_finished,
{
    !just_finished
}

/// What a frame of contacts does to the game.
#[derive(Clone, Copy, Debug, PartialEq, Eq, Structural)]
pub struct FrameOutcome {
    /// The difficulty after the frame.
    pub difficulty: Difficulty,
    /// Whether the cool-down timer was reset.
    pub timer_reset: bool,
    /// Whether the game was won (the game then ends).
    pub won: bool,
    /// Whether the difficulty display is to show the new difficulty.
    pub relabel: bool,
}

/// The outcome of a frame with difficulty `d`, whose cool-down timer has
/// `timer_finished`, and whose contact events are `events`.
pub open spec fn spec_frame_outcome(d: Difficulty, timer_finished: bool, events: Seq<ContactEvent>) -> FrameOutcome {
    if timer_finished && has_goal_contact(events) {
        match spec_next_difficulty(d) {
            Advance::To(n) => FrameOutcome { difficulty: n, timer_reset: true, won: false, relabel: true },
            Advance::Won => FrameOutcome { difficulty: d, timer_reset: true, won: true, relabel: false },
        }
    } else {
        FrameOutcome { difficulty: d, timer_reset: false, won: false, relabel: false }
    }
}

/// Goes through a frame's contact events. The first one that reaches the goal
/// while the cool-down timer has finished resets the timer and advances the
/// difficulty, or wins the game from the hardest difficulty; the reset timer
/// keeps the later contacts of the frame from counting.
pub fn resolve_contacts(d: Difficulty, timer_finished: bool, events: &[ContactEvent]) -> (out: FrameOutcome)
    ensures
        out == spec_frame_outcome(d, timer_finished, events@),
        !timer_finished ==> out == (FrameOutcome { difficulty: d, timer_reset: false, won: false, relabel: false }),
        (forall|i: int| 0 <= i < events@.len() ==> #[trigger] events@[i] != (ContactEvent::Started { sensor: true, removed: false }))
            ==> out == (FrameOutcome { difficulty: d, timer_reset: false, won: false, relabel: false }),
        timer_finished && (exists|i: int| 0 <= i < events@.len() && #[trigger] events@[i] == (ContactEvent::Started { sensor: true, removed: false }))
            ==> out.timer_reset && (out.won <==> d == Difficulty::Hardest),
{
    proof {
        lemma_cool_down_blocks_goals(d, events@);
        if forall|i: int| 0 <= i < events@.len() ==> #[trigger] events@[i] != (ContactEvent::Started { sensor: true, removed: false }) {
            lemma_frame_without_goal(d, timer_finished, events@);
        }
        if timer_finished && (exists|i: int| 0 <= i < events@.len() && #[trigger] events@[i] == (ContactEvent::Started { sensor: true, removed: false })) {
            let i = choose|i: int| 0 <= i < events@.len() && #[trigger] events@[i] == (ContactEvent::Started { sensor: true, removed: false });
            lemma_goal_anywhere_counts(d, events@, i);
        }
    }
    let mut finished = timer_finished;
    let mut out = FrameOutcome { difficulty: d, timer_reset: false, won: false, relabel: false };
    let mut i: usize = 0;
    while i < events.len()
        invariant
            0 <= i <= events.len(),
            finished == (timer_finished && !has_goal_contact(events@.take(i as int))),
            !timer_finished || !has_goal_contact(events@.take(i as int)) ==> out == spec_frame_outcome(d, false, events@),
            timer_finished && has_goal_contact(events@.take(i as int)) ==> out == spec_frame_outcome(d, true, events@) && !out.won,
        decreases events.len() - i,
    {
        let ghost prefix = events@.take(i as int);
        assert(events@.take(i as int + 1) =~= prefix.push(events@[i as int]));
        if reaches_goal(&events[i]) && finished {
            assert(has_goal_contact(events@)) by {
                assert(is_goal_contact(events@[i as int]));
            }
            finished = false;
            match next_difficulty(d) {
                Advance::To(n) => {
                    out = FrameOutcome { difficulty: n, timer_reset: true, won: false, relabel: true };
                },
                Advance::Won => {
                    return FrameOutcome { difficulty: d, timer_reset: true, won: true, relabel: false };
                },
            }
        }
        assert(has_goal_contact(events@.take(i as int + 1)) == (has_goal_contact(prefix) || is_goal_contact(events@[i as int]))) by {
            if has_goal_contact(prefix) {
                let j = choose|j: int| 0 <= j < prefix.len() && is_goal_contact(#[trigger] prefix[j]);
                assert(events@.take(i as int + 1)[j] == prefix[j]);
            }
            if is_goal_contact(events@[i as int]) {
                assert(events@.take(i as int + 1)[i as int] == events@[i as int]);
            }
            if has_goal_contact(events@.take(i as int + 1)) {
                let j = choose|j: int| 0 <= j < i + 1 && is_goal_contact(#[trigger] events@.take(i as int + 1)[j]);
                if j < i {
                    assert(prefix[j] == events@.take(i as int + 1)[j]);
                }
            }
        }
        i = i + 1;
    }
    assert(events@.take(i as int) =~= events@);
    out
}


/// The three difficulties that the progression goes through.
pub open spec fn is_listed_difficulty(d: Difficulty) -> bool {
    ||| d == Difficulty::Normal(NORMAL_LEVEL)
    ||| d == Difficulty::Normal(HARD_LEVEL)
    ||| d == Difficulty::Hardest
}

/// How many more goals win the game from difficulty `d`.
pub open spec fn goals_to_win(d: Difficulty) -> nat {
    match d {
        Difficulty::Normal(level) => if level == NORMAL_LEVEL {
            3
        } else if level == HARD_LEVEL {
            2
        } else {
            4
        },
        Difficulty::Hardest => 1,
    }
}

/// Where `k` goals take a game that is at difficulty `d`.
pub open spec fn after_goals(d: Difficulty, k: nat) -> Advance
    decreases k,
{
    if k == 0 {
        Advance::To(d)
    } else {
        match after_goals(d, (k - 1) as nat) {
            Advance::To(x) => spec_next_difficulty(x),
            Advance::Won => Advance::Won,
        }
    }
}

/// Every difficulty that a goal leads to is one of the three listed ones, and
/// the display never shows "Bug!" for it.
pub proof fn lemma_advance_is_listed(d: Difficulty)
    ensures
        spec_next_difficulty(d) matches Advance::To(n) ==> is_listed_difficulty(n) && label_text(n) != "Bug!"@,
{
    reveal_strlit("Bug!");
    reveal_strlit("Difficulty: Normal");
    reveal_strlit("Difficulty: Hard");
    reveal_strlit("Difficulty: Very Hard");
    assert("Bug!"@.len() == 4);
    assert("Difficulty: Normal"@.len() == 18);
    assert("Difficulty: Hard"@.len() == 16);
    assert("Difficulty: Very Hard"@.len() == 21);
}

/// Each goal brings the game one goal closer to the win: a goal that does not
/// win leads to a difficulty with one goal fewer to go, and a goal wins
/// exactly when one goal was left.
pub proof fn lemma_advance_progress(d: Difficulty)
    ensures
        goals_to_win(d) >= 1,
        spec_next_difficulty(d) == Advance::Won <==> goals_to_win(d) == 1,
        spec_next_difficulty(d) matches Advance::To(n) ==> goals_to_win(n) + 1 == goals_to_win(d),
{
}

/// From any difficulty the game is won after exactly `goals_to_win(d)` goals,
/// at most four, and not before.
pub proof fn lemma_game_is_won(d: Difficulty)
    ensures
        goals_to_win(d) <= 4,
        after_goals(d, goals_to_win(d)) == Advance::Won,
        forall|k: nat| k < goals_to_win(d) ==> (#[trigger] after_goals(d, k)) is To,
{
    reveal_with_fuel(after_goals, 5);
    assert forall|k: nat| k < goals_to_win(d) implies (#[trigger] after_goals(d, k)) is To by {
        reveal_with_fuel(after_goals, 5);
    }
}


/// A contact reaches the goal exactly when it starts with the sensor flag and
/// without the removed flag: a contact that stops never does, nor one without
/// the sensor flag, nor a removed one.
pub proof fn lemma_goal_contact_flags(e: ContactEvent)
    ensures
        is_goal_contact(e) <==> e == (ContactEvent::Started { sensor: true, removed: false }),
        e is Stopped ==> !is_goal_contact(e),
        (e matches ContactEvent::Started { sensor, .. } && !sensor) ==> !is_goal_contact(e),
        (e matches ContactEvent::Stopped { sensor, .. } && !sensor) ==> !is_goal_contact(e),
        (e matches ContactEvent::Started { removed, .. } && removed) ==> !is_goal_contact(e),
{
}

/// While the cool-down timer runs, no contact counts, whatever the
/// difficulty: the frame changes nothing and wins nothing.
pub proof fn lemma_cool_down_blocks_goals(d: Difficulty, events: Seq<ContactEvent>)
    ensures
        spec_frame_outcome(d, false, events) == (FrameOutcome { difficulty: d, timer_reset: false, won: false, relabel: false }),
{
}

/// A frame none of whose contacts starts with the sensor flag alone changes
/// nothing, whether or not the cool-down has finished.
pub proof fn lemma_frame_without_goal(d: Difficulty, timer_finished: bool, events: Seq<ContactEvent>)
    requires
        forall|i: int| 0 <= i < events.len() ==> #[trigger] events[i] != (ContactEvent::Started { sensor: true, removed: false }),
    ensures
        spec_frame_outcome(d, timer_finished, events) == (FrameOutcome { difficulty: d, timer_reset: false, won: false, relabel: false }),
{
    if has_goal_contact(events) {
        let j = choose|j: int| 0 <= j < events.len() && is_goal_contact(#[trigger] events[j]);
        lemma_goal_contact_flags(events[j]);
        assert(events[j] != (ContactEvent::Started { sensor: true, removed: false }));
    }
}

/// Once the cool-down has finished, a contact that starts with the sensor
/// flag alone, at any place among the frame's events, resets the timer and
/// moves the game on: Normal to Hard, Hard to Very Hard, Very Hard to the
/// win, any other normal level back to Normal.
pub proof fn lemma_goal_anywhere_counts(d: Difficulty, events: Seq<ContactEvent>, i: int)
    requires
        0 <= i < events.len(),
        events[i] == (ContactEvent::Started { sensor: true, removed: false }),
    ensures
        ({
            let out = spec_frame_outcome(d, true, events);
            &&& out.timer_reset
            &&& d == Difficulty::Hardest ==> out == (FrameOutcome { difficulty: d, timer_reset: true, won: true, relabel: false })
            &&& d == Difficulty::Normal(NORMAL_LEVEL) ==> out == (FrameOutcome { difficulty: Difficulty::Normal(HARD_LEVEL), timer_reset: true, won: false, relabel: true })
            &&& d == Difficulty::Normal(HARD_LEVEL) ==> out == (FrameOutcome { difficulty: Difficulty::Hardest, timer_reset: true, won: false, relabel: true })
            &&& (d matches Difficulty::Normal(l) && l != NORMAL_LEVEL && l != HARD_LEVEL) ==> out == (FrameOutcome { difficulty: Difficulty::Normal(NORMAL_LEVEL), timer_reset: true, won: false, relabel: true })
        }),
{
    assert(is_goal_contact(events[i]));
    assert(has_goal_contact(events));
}

} // verus!
