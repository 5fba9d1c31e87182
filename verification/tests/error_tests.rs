use craft_solver::engine::{Action, Attrs, CastError, CraftState, LevelInfo, RecipeInfo};
use craft_solver::simulate::{new_status, simulate};

fn level_row() -> LevelInfo {
    LevelInfo {
        id: 1,
        class_job_level: 80,
        stars: 0,
        suggested_craftsmanship: 0,
        difficulty: 1000,
        quality: 5000,
        progress_divider: 100,
        quality_divider: 100,
        progress_modifier: 100,
        quality_modifier: 100,
        durability: 80,
        conditions_flag: 15,
    }
}

fn status_at_level(level: u8) -> CraftState {
    let attrs = Attrs { level, craftsmanship: 1000, control: 1000, craft_points: 500 };
    let recipe = RecipeInfo {
        rlv: level_row(),
        job_level: 80,
        difficulty: 1000,
        quality: 5000,
        durability: 80,
        conditions_flag: 15,
    };
    new_status(&attrs, &recipe, 0)
}

fn last_error(status: &CraftState, skills: Vec<Action>) -> CastError {
    let r = simulate(status, &skills);
    assert!(!r.errors.is_empty(), "expected a refusal");
    r.errors.last().unwrap().err
}

#[test]
fn durability_not_enough_is_reported() {
    let mut s = status_at_level(100);
    s.durability = 0;
    assert_eq!(last_error(&s, vec![Action::BasicSynthesis]), CastError::DurabilityNotEnough);
}

#[test]
fn condition_gated_touch_is_refused_on_normal() {
    let s = status_at_level(100);
    assert_eq!(last_error(&s, vec![Action::PreciseTouch]), CastError::RequireGoodOrExcellent);
}

#[test]
fn prudent_touch_refused_under_waste_not() {
    let s = status_at_level(100);
    assert_eq!(
        last_error(&s, vec![Action::WasteNot, Action::PrudentTouch]),
        CastError::NotAllowedInWastNotBuff
    );
}

#[test]
fn trained_eye_needs_ten_level_gap() {
    let s = status_at_level(85);
    assert_eq!(
        last_error(&s, vec![Action::TrainedEye]),
        CastError::LevelGapMustGreaterThanTen
    );
}

#[test]
fn byregots_blessing_needs_inner_quiet() {
    let s = status_at_level(100);
    assert_eq!(last_error(&s, vec![Action::ByregotsBlessing]), CastError::RequireInnerQuiet1);
}

#[test]
fn trained_finesse_needs_full_inner_quiet() {
    let s = status_at_level(100);
    assert_eq!(last_error(&s, vec![Action::TrainedFinesse]), CastError::RequireInnerQuiet10);
}

#[test]
fn careful_observation_is_limited_to_three() {
    let s = status_at_level(100);
    let four = vec![
        Action::CarefulObservation,
        Action::CarefulObservation,
        Action::CarefulObservation,
        Action::CarefulObservation,
    ];
    assert_eq!(last_error(&s, four), CastError::CarefulObservationUsed3);
}

#[test]
fn heart_and_soul_is_once_only() {
    let s = status_at_level(100);
    assert_eq!(
        last_error(&s, vec![Action::HeartAndSoul, Action::HeartAndSoul]),
        CastError::HeartAndSoulUsed
    );
}

#[test]
fn daring_touch_needs_a_hasty_success() {
    let s = status_at_level(100);
    assert_eq!(
        last_error(&s, vec![Action::DaringTouch]),
        CastError::RequireHastyTouchSuccessed
    );
}

#[test]
fn quick_innovation_is_once_only() {
    let s = status_at_level(100);
    assert_eq!(
        last_error(&s, vec![Action::QuickInnovation, Action::QuickInnovation]),
        CastError::QuickInnovationUsed
    );
}

#[test]
fn quick_innovation_refused_under_innovation() {
    let s = status_at_level(100);
    assert_eq!(
        last_error(&s, vec![Action::Innovation, Action::QuickInnovation]),
        CastError::NotAllowedInInnovationBuff
    );
}

#[test]
fn trained_perfection_is_once_only() {
    let s = status_at_level(100);
    assert_eq!(
        last_error(&s, vec![Action::TrainedPerfection, Action::TrainedPerfection]),
        CastError::TrainedPerfectionUsed
    );
}

#[test]
fn stellar_steady_hand_needs_a_charge() {
    let s = status_at_level(100);
    assert_eq!(
        last_error(&s, vec![Action::StellarSteadyHand]),
        CastError::StellarSteadyHandUsed
    );
}
