use craft_solver::cache::{create_solver, read_solver, AppState};
use craft_solver::driver::Driver;
use craft_solver::engine::{Action, Attrs, CraftState, LevelInfo, RecipeInfo};
use craft_solver::simulate::{new_status, simulate};

fn level_row() -> LevelInfo {
    LevelInfo {
        id: 1,
        class_job_level: 80,
        stars: 0,
        suggested_craftsmanship: 0,
        difficulty: 1000,
        quality: 5000,
        progress_divider: 100,
        quality_divider: 100,
        progress_modifier: 100,
        quality_modifier: 100,
        durability: 80,
        conditions_flag: 15,
    }
}

fn status_with(difficulty: u16, quality: u32, durability: u16, craft_points: i32) -> CraftState {
    let attrs = Attrs { level: 90, craftsmanship: 1000, control: 1000, craft_points };
    let recipe = RecipeInfo {
        rlv: level_row(),
        job_level: 80,
        difficulty,
        quality,
        durability,
        conditions_flag: 15,
    };
    new_status(&attrs, &recipe, 0)
}

#[test]
fn driver_best_progress_monotone_in_resources() {
    let status = status_with(300, 500, 20, 30);
    let mut driver = Driver::new(&status);
    driver.init(&vec![Action::BasicSynthesis, Action::CarefulSynthesis]);
    let mut probe = status;
    for cp in 0..=30 {
        let mut last: u16 = 0;
        for du in 1..=20u16 {
            probe.craft_points = cp;
            probe.durability = du;
            let (p, _st, _sk) = driver.read(&probe);
            assert!(p >= last, "progress fell as durability rose");
            last = p;
        }
    }
    for du in 1..=20u16 {
        let mut last: u16 = 0;
        for cp in 0..=30 {
            probe.craft_points = cp;
            probe.durability = du;
            let (p, _st, _sk) = driver.read(&probe);
            assert!(p >= last, "progress fell as craft points rose");
            last = p;
        }
    }
}

#[test]
fn driver_read_all_replays_to_reported_progress() {
    let status = status_with(300, 500, 30, 50);
    let mut driver = Driver::new(&status);
    driver.init(&vec![Action::BasicSynthesis, Action::CarefulSynthesis]);
    let (reported, list) = driver.read_all(&status);
    assert!(!list.is_empty());
    let replay = simulate(&status, &list);
    assert!(replay.errors.is_empty());
    assert_eq!(replay.status.progress, reported);
    assert_eq!(replay.status.step as usize, list.len());
    assert!(replay.status.durability <= status.durability);
    assert!(replay.status.craft_points <= status.craft_points);
}

#[test]
fn solver_sequence_finishes_the_craft_with_quality() {
    let mut st = AppState::new();
    let status = status_with(100, 1000, 40, 60);
    let synth = vec![Action::CarefulSynthesis];
    let touch = vec![Action::BasicTouch];
    assert!(create_solver(&mut st, &status, &synth, &touch).is_ok());
    let list = read_solver(&st, &status).unwrap();
    let replay = simulate(&status, &list);
    assert!(replay.errors.is_empty());
    assert_eq!(replay.status.progress, 100);
    assert!(replay.status.quality > 0);
    let touches: Vec<Action> =
        list.iter().copied().take_while(|a| *a == Action::BasicTouch).collect();
    let partial = simulate(&status, &touches);
    assert!(partial.errors.is_empty());
    assert_eq!(partial.status.progress, 0);
}

#[test]
fn full_scenario_reaches_exact_difficulty() {
    let mut st = AppState::new();
    let status = status_with(100, 1000, 40, 200);
    let synth = vec![Action::CarefulSynthesis];
    let touch: Vec<Action> = vec![];
    assert!(create_solver(&mut st, &status, &synth, &touch).is_ok());
    let list = read_solver(&st, &status).unwrap();
    assert!(!list.is_empty());
    let replay = simulate(&status, &list);
    assert!(replay.errors.is_empty());
    assert_eq!(replay.status.progress, 100);
}
