use craft_solver::cache::{create_solver, read_solver, AppState, SolverError};
use craft_solver::engine::{Action, Attrs, CraftState, LevelInfo, RecipeInfo};
use craft_solver::simulate::new_status;

fn level_row() -> LevelInfo {
    LevelInfo {
        id: 1,
        class_job_level: 80,
        stars: 0,
        suggested_craftsmanship: 0,
        difficulty: 1000,
        quality: 5000,
        progress_divider: 100,
        quality_divider: 100,
        progress_modifier: 100,
        quality_modifier: 100,
        durability: 80,
        conditions_flag: 15,
    }
}

fn small_status() -> CraftState {
    let attrs = Attrs { level: 90, craftsmanship: 1000, control: 1000, craft_points: 30 };
    let recipe = RecipeInfo {
        rlv: level_row(),
        job_level: 80,
        difficulty: 100,
        quality: 500,
        durability: 20,
        conditions_flag: 15,
    };
    new_status(&attrs, &recipe, 0)
}

#[test]
fn create_succeeds_once_then_rejects_duplicate() {
    let mut st = AppState::new();
    let status = small_status();
    let synth = vec![Action::CarefulSynthesis];
    let touch: Vec<Action> = vec![];
    assert_eq!(create_solver(&mut st, &status, &synth, &touch), Ok(()));
    assert_eq!(
        create_solver(&mut st, &status, &synth, &touch),
        Err(SolverError::AlreadyExists)
    );
}

#[test]
fn read_before_create_reports_not_exists() {
    let st = AppState::new();
    let status = small_status();
    assert_eq!(read_solver(&st, &status), Err(SolverError::NotExists));
}

#[test]
fn read_after_create_succeeds() {
    let mut st = AppState::new();
    let status = small_status();
    let synth = vec![Action::CarefulSynthesis];
    let touch: Vec<Action> = vec![];
    assert_eq!(create_solver(&mut st, &status, &synth, &touch), Ok(()));
    let r = read_solver(&st, &status);
    assert!(r.is_ok());
    assert!(!r.unwrap().is_empty());
}

#[test]
fn distinct_problems_are_cached_separately() {
    let mut st = AppState::new();
    let a = small_status();
    let mut b = small_status();
    b.recipe.difficulty = 120;
    b.progress = 0;
    let synth = vec![Action::CarefulSynthesis];
    let touch: Vec<Action> = vec![];
    assert_eq!(create_solver(&mut st, &a, &synth, &touch), Ok(()));
    assert_eq!(create_solver(&mut st, &b, &synth, &touch), Ok(()));
    assert!(read_solver(&st, &a).is_ok());
    assert!(read_solver(&st, &b).is_ok());
}
