use drysua::tools::{
    probe_game_count, validate_output, OutputError, ProfileError, ProfileRequest,
    TacticalEvaluation, TacticalGame,
};

fn game(effective_overrides: u32, sampled_decisions: u32) -> TacticalGame {
    TacticalGame { effective_overrides, sampled_decisions }
}

#[test]
fn probe_game_count_includes_both_mixed_opponent_cohorts() {
    let cohort = |overrides: u32| vec![game(overrides, 30), game(overrides, 30)];
    let mut games = cohort(0);
    games.extend(cohort(1));
    let evaluations = vec![TacticalEvaluation { games }];

    assert_eq!(probe_game_count(&evaluations), 4);
    assert_eq!(evaluations.len(), 1);
}

#[test]
fn decisions_are_summed_over_games() {
    let evaluation = TacticalEvaluation { games: vec![game(2, 10), game(3, 20)] };

    assert_eq!(evaluation.decision_totals(), (5, 30));
}

#[test]
fn profiles_are_bounded() {
    let good = ProfileRequest { arenas: 1, ticks: 1, training_updates: 0, rollout_decisions: 64 };
    let bounds = Err(ProfileError::Bounds);

    assert_eq!(good.validate(), Ok(()));
    assert_eq!(ProfileRequest { arenas: 0, ..good }.validate(), bounds);
    assert_eq!(ProfileRequest { arenas: 17, ..good }.validate(), bounds);
    assert_eq!(ProfileRequest { ticks: 20_001, ..good }.validate(), bounds);
    assert_eq!(ProfileRequest { training_updates: 3, ..good }.validate(), bounds);
    assert_eq!(
        ProfileRequest { rollout_decisions: 65, ..good }.validate(),
        Err(ProfileError::RolloutDecisions)
    );
    assert_eq!(
        ProfileError::Bounds.message(),
        "profile bounds are arenas=1..16, ticks=1..20000, updates=0..2"
    );
    assert_eq!(
        ProfileError::RolloutDecisions.message(),
        "profile rollout decisions are outside 1..=64"
    );
}

#[test]
fn outputs_are_new_directories_below_the_root() {
    assert_eq!(validate_output(true, true, false), Ok(()));
    assert_eq!(validate_output(false, true, false), Err(OutputError::Outside));
    assert_eq!(validate_output(true, false, false), Err(OutputError::Outside));
    assert_eq!(validate_output(true, true, true), Err(OutputError::Exists));
    assert_eq!(
        OutputError::Outside.message(),
        "tactical output must be a new directory below artifacts/temp"
    );
    assert_eq!(OutputError::Exists.message(), "tactical output directory already exists");
}
