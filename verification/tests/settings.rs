use drysua::mastery::MasteryConfig;
use drysua::settings::{
    default_parallel_worlds_for, embedded_commit, is_below_artifacts, resolve_play_deployment,
    validate_checkpoint_directory, AnnealedOpponent, AnnealedRequest, DefaultDeployment,
    LearnerDevice, MasteryOpponent, OpponentSchedule, OpponentWinPercent,
    PathComponent, PlayPolicy, PolicyDevice, PpoConfig, PpoSampleBudget, ResumeProvenance, RolloutContract,
    SettingsError, TrainingRequest, WeightsSource,
};
use drysua::world::MapId;

fn base() -> PpoConfig {
    PpoConfig {
        sample_budget: PpoSampleBudget::Standard,
        decision_interval_ticks: 1,
        rollout_decisions: 2,
        environments: 3,
        epochs: 4,
        minibatch: 5,
        clip_epsilon: 6,
        value_coefficient: 7,
        entropy_coefficient: 8,
        learning_rate: 9,
        adam_beta1: 10,
        adam_beta2: 11,
        adam_epsilon: 12,
        gradient_clip: 13,
        gamma_tick: 14,
        gae_lambda: 15,
        target_kl: 16,
    }
}

const CONTRACT: RolloutContract = RolloutContract { decision_interval_ticks: 3, retained_decisions: 1_163 };

#[test]
fn teachers_play_without_weights() {
    assert_eq!(
        resolve_play_deployment(None, false),
        Ok((PlayPolicy::Teacher, WeightsSource::Absent))
    );
    assert_eq!(
        resolve_play_deployment(None, true),
        Ok((PlayPolicy::Hybrid, WeightsSource::Given))
    );
    assert_eq!(
        resolve_play_deployment(Some(PlayPolicy::Neural), false),
        Ok((PlayPolicy::Neural, WeightsSource::Absent))
    );
    assert_eq!(
        resolve_play_deployment(Some(PlayPolicy::Teacher), true),
        Err(SettingsError::InvalidInput("teacher forbids --weights-directory"))
    );
}

#[test]
fn default_weights_lie_below_artifacts() {
    let resolve = |policy, weights_directory| {
        DefaultDeployment { policy, weights_directory }.resolve()
    };
    let unpaired = SettingsError::InvalidInput(
        "default Teacher must be weights-free; default neural policies must specify weights",
    );

    assert_eq!(
        resolve(PlayPolicy::Neural, Some("artifacts/best")),
        Ok((PlayPolicy::Neural, WeightsSource::Repository("artifacts/best".to_owned())))
    );
    assert_eq!(resolve(PlayPolicy::Teacher, Some("artifacts/best")), Err(unpaired.clone()));
    assert_eq!(resolve(PlayPolicy::Hybrid, None), Err(unpaired));
    for bad in [
        "artifacts",
        "artifacts/.",
        "other/best",
        "/artifacts/best",
        "./artifacts/best",
        "artifacts/../best",
        "",
    ] {
        assert_eq!(
            resolve(PlayPolicy::Tactical, Some(bad)),
            Err(SettingsError::InvalidInput(
                "default deployment weights must be a repository-relative directory below artifacts"
            )),
            "{bad}"
        );
    }
    assert!(resolve(PlayPolicy::Tactical, Some("artifacts//a/./b/")).is_ok());
    let name = |text: &str| PathComponent::Normal(text.to_owned());
    assert!(is_below_artifacts(&vec![name("artifacts"), name("a")]));
    assert!(!is_below_artifacts(&vec![name("artifacts"), name("a"), PathComponent::Other]));
    assert!(!is_below_artifacts(&vec![PathComponent::Other, name("artifacts")]));
    assert!(DefaultDeployment::maintained().resolve().is_ok());
}

#[test]
fn parallel_worlds_divide_the_games() {
    assert_eq!(default_parallel_worlds_for(24, 36, 8), 6);
    assert_eq!(default_parallel_worlds_for(24, 36, 5), 4);
    assert_eq!(default_parallel_worlds_for(0, 0, 0), 1);
    assert_eq!(default_parallel_worlds_for(26, 52, 100), 26);
    assert_eq!(default_parallel_worlds_for(7, 9, 16), 1);
}

fn annealed() -> AnnealedRequest {
    AnnealedRequest {
        updates: 11,
        games: 24,
        parallel: None,
        generation_games: 36,
        zero_updates: None,
        opponent: AnnealedOpponent::Teacher,
        opponent_weights_given: false,
        learning_rate: 100,
        epochs: 2,
        minibatch: 64,
        gae_lambda: 101,
        entropy_coefficient: 102,
        checkpoint_seconds: 300,
        seed: 9_001,
    }
}

#[test]
fn annealed_runs_fill_in_their_defaults() {
    let settings = annealed()
        .annealed_settings(base(), CONTRACT, 8, "a".to_owned(), "b".to_owned())
        .expect("settings");

    assert_eq!((settings.parallel_worlds, settings.zero_updates), (6, 3));
    assert_eq!(settings.games_per_update, 24);
    assert_eq!(
        settings.ppo,
        PpoConfig {
            decision_interval_ticks: 3,
            environments: 24,
            rollout_decisions: 1_163,
            epochs: 2,
            minibatch: 64,
            learning_rate: 100,
            gamma_tick: 1.0f32.to_bits(),
            gae_lambda: 101,
            entropy_coefficient: 102,
            ..base()
        }
    );
    assert_eq!((settings.git_commit.as_str(), settings.simulator_commit.as_str()), ("a", "b"));
}

#[test]
fn annealed_runs_are_checked() {
    let refuse = |request: AnnealedRequest| {
        request
            .annealed_settings(base(), CONTRACT, 8, "a".to_owned(), "b".to_owned())
            .unwrap_err()
            .message()
    };

    assert_eq!(
        refuse(AnnealedRequest { updates: 0, ..annealed() }),
        "annealed updates must be positive"
    );
    assert_eq!(
        refuse(AnnealedRequest { games: 3, ..annealed() }),
        "annealed games per update must be even so sides split exactly"
    );
    assert_eq!(
        refuse(AnnealedRequest { generation_games: 0, ..annealed() }),
        "annealed generation games must be positive"
    );
    assert_eq!(
        refuse(AnnealedRequest { opponent: AnnealedOpponent::Weights, ..annealed() }),
        "weights opponent requires --opponent-weights"
    );
    assert_eq!(
        refuse(AnnealedRequest { opponent_weights_given: true, ..annealed() }),
        "teacher opponent forbids --opponent-weights"
    );
}

fn training() -> TrainingRequest {
    TrainingRequest {
        episode_time_cost: 0,
        terminal_only: false,
        complete_episodes: true,
        pipeline_groups: 2,
        opponent_schedule: OpponentSchedule::Teacher,
        mastery_window: None,
        mastery_win_percent: None,
        opponent_win_percent: vec![],
        learning_rate: 100,
        gamma_per_tick: 1.0f32.to_bits(),
        gae_lambda: 101,
        entropy_coefficient: 102,
        updates: 5,
        environments: 6,
        rollout: 7,
        epochs: 8,
        minibatch: 9,
        checkpoint_seconds: 300,
        migrate_provenance: false,
        seed: 4,
        map: 2,
    }
}

#[test]
fn training_runs_take_their_options() {
    let request = training();
    let ppo = request.ppo_config(base(), CONTRACT);
    assert_eq!(
        ppo,
        PpoConfig {
            decision_interval_ticks: 3,
            environments: 6,
            rollout_decisions: 7,
            epochs: 8,
            minibatch: 9,
            learning_rate: 100,
            gamma_tick: 1.0f32.to_bits(),
            gae_lambda: 101,
            entropy_coefficient: 102,
            ..base()
        }
    );

    let settings =
        request
            .training_settings(Ok(ppo), "a".to_owned(), "b".to_owned(), |_| Ok(()))
            .expect("settings");

    assert_eq!(settings.mastery_config, None);
    assert_eq!(settings.ppo, ppo);
    assert_eq!(settings.map, MapId(2));
    assert_eq!(settings.pipeline_groups, 2);
    assert_eq!(settings.resume_provenance, ResumeProvenance::Strict);
    assert_eq!(
        request.training_settings(
            Err("bad".to_owned()),
            "a".to_owned(),
            "b".to_owned(),
            |_| panic!("refused settings are not checked")
        ),
        Err(SettingsError::Other("bad".to_owned()))
    );
    assert_eq!(
        request.training_settings(Ok(ppo), "a".to_owned(), "b".to_owned(), |settings| {
            assert_eq!(settings.ppo.environments, 6);
            Err("odd episodes".to_owned())
        }),
        Err(SettingsError::Other("odd episodes".to_owned()))
    );
    let migrating = TrainingRequest { migrate_provenance: true, ..training() };
    assert_eq!(
        migrating
            .training_settings(Ok(ppo), "a".to_owned(), "b".to_owned(), |_| Ok(()))
            .map(|settings| settings.resume_provenance),
        Ok(ResumeProvenance::MigrateGitCommit)
    );
}

#[test]
fn rewards_restrict_the_options() {
    let refuse = |request: TrainingRequest| request.validate_map2_reward().unwrap_err().message();

    assert_eq!(training().validate_map2_reward(), Ok(()));
    let signed = TrainingRequest { episode_time_cost: (-0.0f32).to_bits(), ..training() };
    assert_eq!(signed.validate_map2_reward(), Ok(()));
    assert_eq!(
        refuse(TrainingRequest { terminal_only: true, ..training() }),
        "Map2 comprehensive reward forbids --terminal-only"
    );
    assert_eq!(
        refuse(TrainingRequest { episode_time_cost: 1.0f32.to_bits(), ..training() }),
        "Map2 comprehensive reward requires --episode-time-cost 0"
    );
    assert_eq!(
        refuse(TrainingRequest { gamma_per_tick: 0.5f32.to_bits(), ..training() }),
        "Map2 comprehensive reward requires --gamma-per-tick 1"
    );
}

#[test]
fn mastery_options_need_their_schedule() {
    let percent = OpponentWinPercent { opponent: MasteryOpponent::Weak, percent: 70 };
    let mastery = TrainingRequest {
        opponent_schedule: OpponentSchedule::MasteryV1,
        opponent_win_percent: vec![percent],
        ..training()
    };

    assert_eq!(training().mastery_config(), Ok(None));
    assert_eq!(
        mastery.mastery_config(),
        Ok(Some(MasteryConfig { window: 50, weak: 70, teacher: 80 }))
    );
    let refuse = |request: TrainingRequest| request.mastery_config().unwrap_err().message();
    assert_eq!(
        refuse(TrainingRequest { mastery_window: Some(1_025), ..mastery.clone() }),
        "mastery window"
    );
    assert_eq!(
        refuse(TrainingRequest { mastery_win_percent: Some(101), ..mastery.clone() }),
        "mastery win percent"
    );
    assert_eq!(
        refuse(TrainingRequest { opponent_win_percent: vec![percent; 2], ..mastery.clone() }),
        "duplicate mastery opponent"
    );
    for misplaced in [
        TrainingRequest { mastery_window: Some(3), ..training() },
        TrainingRequest { mastery_win_percent: Some(3), ..training() },
        TrainingRequest { opponent_win_percent: vec![percent], ..training() },
    ] {
        assert_eq!(
            misplaced.mastery_config(),
            Err(SettingsError::InvalidInput(
                "mastery options require --opponent-schedule mastery-v1"
            ))
        );
    }
}

#[test]
fn thresholds_are_read_from_texts() {
    let threshold = |opponent, percent| Ok(OpponentWinPercent { opponent, percent });

    assert_eq!(OpponentWinPercent::parse("weak=90"), threshold(MasteryOpponent::Weak, 90));
    assert_eq!(OpponentWinPercent::parse("teacher=080"), threshold(MasteryOpponent::Teacher, 80));
    assert_eq!(OpponentWinPercent::parse("weak=255"), threshold(MasteryOpponent::Weak, 255));
    for bad in ["", "weak", "weak=", "weak=256", "weak=9x", "strong=9", "Weak=9", "weak=99999999999999999999999"] {
        assert_eq!(
            OpponentWinPercent::parse(bad),
            Err(SettingsError::InvalidInput("expected weak=PERCENT or teacher=PERCENT")),
            "{bad}"
        );
    }
}

#[test]
fn directories_commits_and_devices_are_checked() {
    assert_eq!(validate_checkpoint_directory(true, false, false), Ok(()));
    assert_eq!(validate_checkpoint_directory(true, true, true), Ok(()));
    assert_eq!(
        validate_checkpoint_directory(false, true, false).unwrap_err().message(),
        "checkpoint directory must already exist and be a directory"
    );
    assert_eq!(
        validate_checkpoint_directory(true, false, true).unwrap_err().message(),
        "fresh checkpoint directory must be empty; use --resume for an existing run"
    );
    assert_eq!(embedded_commit("BOTA_GIT_COMMIT", Some("abc")), Ok("abc".to_owned()));
    for absent in [None, Some("")] {
        assert_eq!(
            embedded_commit("BOTA_GIT_COMMIT", absent).unwrap_err().message(),
            "production training requires BOTA_GIT_COMMIT to be set when compiling"
        );
    }
    assert_eq!(LearnerDevice::Cpu.policy_device(3, false, false), Ok(PolicyDevice::Cpu));
    assert_eq!(
        LearnerDevice::Cuda.policy_device(3, true, false),
        Ok(PolicyDevice::Cuda { ordinal: 3 })
    );
    assert_eq!(
        LearnerDevice::Cuda.policy_device(3, false, true).unwrap_err().message(),
        "CUDA learner requires cargo feature `cuda` on Linux or Windows"
    );
    assert_eq!(
        LearnerDevice::Metal.policy_device(0, true, false).unwrap_err().message(),
        "Metal learner requires cargo feature `metal` on macOS"
    );
}
