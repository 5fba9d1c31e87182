use craft_solver::engine::{Action, Attrs, CastError, CraftState, LevelInfo, RecipeInfo};
use craft_solver::simulate::{new_recipe, new_status, simulate};

fn level_row() -> LevelInfo {
    LevelInfo {
        id: 1,
        class_job_level: 80,
        stars: 0,
        suggested_craftsmanship: 0,
        difficulty: 1000,
        quality: 5000,
        progress_divider: 100,
        quality_divider: 100,
        progress_modifier: 100,
        quality_modifier: 100,
        durability: 80,
        conditions_flag: 15,
    }
}

fn plain_status(craft_points: i32) -> CraftState {
    let attrs = Attrs { level: 90, craftsmanship: 1000, control: 1000, craft_points };
    let recipe = RecipeInfo {
        rlv: level_row(),
        job_level: 80,
        difficulty: 1000,
        quality: 5000,
        durability: 80,
        conditions_flag: 15,
    };
    new_status(&attrs, &recipe, 0)
}

#[test]
fn empty_sequence_leaves_status_unchanged() {
    let status = plain_status(200);
    let r = simulate(&status, &vec![]);
    assert_eq!(r.status, status);
    assert!(r.errors.is_empty());
}

#[test]
fn legal_cast_advances_progress_and_consumes_resources() {
    let status = plain_status(200);
    let r = simulate(&status, &vec![Action::CarefulSynthesis]);
    assert!(r.errors.is_empty());
    // base progress 1000 * 10 / 100 + 2 = 102, times the 1.8 efficiency.
    assert_eq!(r.status.progress, 183);
    assert_eq!(r.status.craft_points, 193);
    assert_eq!(r.status.durability, 70);
    assert_eq!(r.status.step, 1);
}

#[test]
fn illegal_cast_is_recorded_and_skipped() {
    let status = plain_status(0);
    let r = simulate(&status, &vec![Action::BasicTouch, Action::BasicSynthesis]);
    assert_eq!(r.errors.len(), 1);
    assert_eq!(r.errors[0].pos, 0);
    assert_eq!(r.errors[0].err, CastError::CraftPointNotEnough);
    // the zero-cost synthesis still went through
    assert!(r.status.progress > 0);
}

#[test]
fn low_level_action_is_refused() {
    let mut status = plain_status(200);
    status.attributes.level = 5;
    let r = simulate(&status, &vec![Action::TrainedFinesse]);
    assert_eq!(r.errors.len(), 1);
    assert_eq!(r.errors[0].err, CastError::PlayerLevelTooLow);
}

#[test]
fn finished_craft_refuses_further_casts() {
    let mut status = plain_status(200);
    status.progress = status.recipe.difficulty;
    let r = simulate(&status, &vec![Action::BasicSynthesis]);
    assert_eq!(r.errors.len(), 1);
    assert_eq!(r.errors[0].err, CastError::CraftingAlreadyFinished);
}

#[test]
fn first_step_action_refused_later() {
    let status = plain_status(200);
    let r = simulate(&status, &vec![Action::BasicSynthesis, Action::MuscleMemory]);
    assert_eq!(r.errors.len(), 1);
    assert_eq!(r.errors[0].pos, 1);
    assert_eq!(r.errors[0].err, CastError::OnlyAllowedInFirstStep);
}

#[test]
fn recipe_factors_scale_the_level_row() {
    let rlv = level_row();
    let recipe = new_recipe(&rlv, 50, 120, 75);
    assert_eq!(recipe.difficulty, 500);
    assert_eq!(recipe.quality, 6000);
    assert_eq!(recipe.durability, 60);
    assert_eq!(recipe.job_level, 80);
}

#[test]
fn status_starts_with_full_resources() {
    let status = plain_status(200);
    assert_eq!(status.craft_points, 200);
    assert_eq!(status.durability, 80);
    assert_eq!(status.progress, 0);
    assert_eq!(status.quality, 0);
    assert_eq!(status.step, 0);
}

#[test]
fn waste_not_halves_durability_cost() {
    let status = plain_status(200);
    let r = simulate(&status, &vec![Action::WasteNot, Action::BasicSynthesis]);
    assert!(r.errors.is_empty());
    // ten durability halved to five under the waste not buff
    assert_eq!(r.status.durability, 75);
}
