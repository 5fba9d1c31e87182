//! Host-facing construction and replay operations.
//!
//! A recipe is derived from a recipe level row and three percent factors; a
//! status is the engine's fresh state for attributes and recipe, with an
//! initial quality; and a replay walks an action sequence, applying each
//! legal action in order and recording each illegal one with its position
//! and reason, skipped rather than applied.

use vstd::prelude::*;
use crate::engine::action_code;
use crate::engine::apply_of;
use crate::engine::cast_margins;
use crate::engine::code_of;
use crate::engine::engine_cast;
use crate::engine::engine_check;
use crate::engine::err_of;
use crate::engine::legal_of;
use crate::engine::limits_ok;
use crate::engine::margins_wf;
use crate::engine::lemma_code_range;
use crate::engine::Action;
use crate::engine::Attrs;
use crate::engine::Buffs;
use crate::engine::CastError;
use crate::engine::Condition;
use crate::engine::CraftState;
use crate::engine::LevelInfo;
use crate::engine::Limits;
use crate::engine::RecipeInfo;

verus! {

/// One illegal action in a replay: where it stood and why it was refused.
#[derive(Clone, Copy, PartialEq, Eq, Structural, Debug)]
pub struct CastErrorPos {
    pub pos: usize,
    pub err: CastError,
}

/// A replay's outcome: the final state and every refusal in order.
pub struct SimulateResult {
    pub status: CraftState,
    pub errors: Vec<CastErrorPos>,
}

/// A recipe derived from a level row and percent factors, exactly as the
/// engine derives it.
pub open spec fn recipe_of(
    rlv: LevelInfo, difficulty_factor: u16, quality_factor: u16, durability_factor: u16,
) -> RecipeInfo {
    RecipeInfo {
        rlv: rlv,
        job_level: rlv.class_job_level,
        difficulty: (rlv.difficulty * difficulty_factor / 100) as u16,
        quality: (rlv.quality * quality_factor / 100) as u32,
        durability: (rlv.durability * durability_factor / 100) as u16,
        conditions_flag: rlv.conditions_flag,
    }
}

/// Builds a recipe from a level row: each requirement scaled by its percent
/// factor, rounded down.
pub fn new_recipe(
    rlv: &LevelInfo, difficulty_factor: u16, quality_factor: u16, durability_factor: u16,
) -> (r: RecipeInfo)
    requires
        rlv.quality * quality_factor <= u32::MAX,
        rlv.durability * durability_factor <= u16::MAX,
    ensures
        r == recipe_of(*rlv, difficulty_factor, quality_factor, durability_factor),
{
    proof {
        assert(rlv.difficulty * difficulty_factor <= 0xffff * 0xffff) by (nonlinear_arith)
            requires rlv.difficulty <= 0xffff && difficulty_factor <= 0xffff;
    }
    let scaled: u32 = rlv.difficulty as u32 * difficulty_factor as u32 / 100;
    RecipeInfo {
        rlv: *rlv,
        job_level: rlv.class_job_level,
        difficulty: #[verifier::truncate] (scaled as u16),
        quality: rlv.quality * quality_factor as u32 / 100,
        durability: rlv.durability * durability_factor / 100,
        conditions_flag: rlv.conditions_flag,
    }
}

/// The engine's fresh state for a crafting problem, with an initial quality.
pub open spec fn initial_status(attrs: Attrs, recipe: RecipeInfo, init_quality: u32) -> CraftState {
    CraftState {
        buffs: Buffs {
            muscle_memory: 0, great_strides: 0, veneration: 0, innovation: 0,
            inner_quiet: 0, final_appraisal: 0, manipulation: 0, wast_not: 0,
            wast_not_ii: 0, expedience: 0, heart_and_soul: 0, trained_perfection: 0,
            stellar_steady_hand: 0,
        },
        combo: None,
        limits: Limits {
            careful_observation_used: 0, quick_innovation_used: 0, heart_and_soul_used: 0,
            trained_perfection_used: 0, stellar_steady_hand_charged: 0,
        },
        attributes: attrs,
        recipe: recipe,
        durability: recipe.durability,
        craft_points: attrs.craft_points,
        progress: 0,
        quality: init_quality,
        step: 0,
        condition: Condition::Normal,
    }
}

/// Builds a status: full resources, no buffs, no progress, and the given
/// initial quality.
pub fn new_status(attrs: &Attrs, recipe: &RecipeInfo, init_quality: u32) -> (r: CraftState)
    ensures
        r == initial_status(*attrs, *recipe, init_quality),
{
    CraftState {
        buffs: Buffs {
            muscle_memory: 0, great_strides: 0, veneration: 0, innovation: 0,
            inner_quiet: 0, final_appraisal: 0, manipulation: 0, wast_not: 0,
            wast_not_ii: 0, expedience: 0, heart_and_soul: 0, trained_perfection: 0,
            stellar_steady_hand: 0,
        },
        combo: None,
        limits: Limits {
            careful_observation_used: 0, quick_innovation_used: 0, heart_and_soul_used: 0,
            trained_perfection_used: 0, stellar_steady_hand_charged: 0,
        },
        attributes: *attrs,
        recipe: *recipe,
        durability: recipe.durability,
        craft_points: attrs.craft_points,
        progress: 0,
        quality: init_quality,
        step: 0,
        condition: Condition::Normal,
    }
}

/// The replay from position `i` on: a legal action is applied, an illegal
/// one is recorded with its position and reason and skipped.
pub open spec fn sim_rec(s: CraftState, actions: Seq<Action>, i: int) -> (CraftState, Seq<CastErrorPos>)
    decreases actions.len() - i,
{
    if i < 0 || i >= actions.len() {
        (s, Seq::<CastErrorPos>::empty())
    } else {
        let c = code_of(actions[i]);
        if legal_of(s, c) {
            sim_rec(apply_of(s, c), actions, i + 1)
        } else {
            let rec = sim_rec(s, actions, i + 1);
            (rec.0, seq![CastErrorPos { pos: i as usize, err: err_of(s, c) }] + rec.1)
        }
    }
}

/// Replays an action sequence: legal actions are applied in order, illegal
/// ones are recorded with position and reason and skipped, not applied.
/// The margins of a well-formed state persist along legal casts, so every
/// legal action really is applied.
pub fn simulate(status: &CraftState, skills: &Vec<Action>) -> (r: SimulateResult)
    requires
        margins_wf(*status),
        skills@.len() <= 1000000,
    ensures
        r.status == sim_rec(*status, skills@, 0).0,
        r.errors@ == sim_rec(*status, skills@, 0).1,
{
    let ghost target = sim_rec(*status, skills@, 0);
    let mut cur: CraftState = *status;
    let mut errors: Vec<CastErrorPos> = Vec::new();
    let mut i: usize = 0;
    while i < skills.len()
        invariant
            i <= skills.len(),
            cur.attributes == status.attributes,
            cur.recipe == status.recipe,
            cur.progress <= cur.recipe.difficulty,
            cur.durability <= cur.recipe.durability,
            0 <= cur.craft_points <= cur.attributes.craft_points,
            cur.quality <= 0x80000000,
            cur.step == 0 ==> cur.quality <= 0x40000000,
            status.step <= cur.step <= status.step + i,
            limits_ok(cur.limits),
            ({
                let rem = sim_rec(cur, skills@, i as int);
                target.0 == rem.0 && target.1 == errors@ + rem.1
            }),
        decreases skills.len() - i,
    {
        let a = skills[i];
        let code = action_code(a);
        proof {
            lemma_code_range(a);
            assert(cast_margins(cur));
        }
        let ghost old_cur = cur;
        let ghost old_errors = errors@;
        match engine_check(&cur, code) {
            Ok(()) => {
                cur = engine_cast(&cur, code);
            },
            Err(e) => {
                errors.push(CastErrorPos { pos: i, err: e });
            },
        }
        i += 1;
        proof {
            let rem = sim_rec(cur, skills@, i as int);
            if !legal_of(old_cur, code_of(a)) {
                assert(sim_rec(old_cur, skills@, i as int - 1).1
                    == seq![CastErrorPos { pos: (i - 1) as usize, err: err_of(old_cur, code_of(a)) }]
                    + rem.1);
                assert(old_errors
                    + (seq![CastErrorPos { pos: (i - 1) as usize, err: err_of(old_cur, code_of(a)) }]
                    + rem.1) =~= errors@ + rem.1);
            }
        }
    }
    proof {
        assert(errors@ + sim_rec(cur, skills@, skills@.len() as int).1 =~= errors@);
    }
    SimulateResult { status: cur, errors: errors }
}

/// A replay of the empty sequence returns the input status unchanged and
/// records nothing.
pub proof fn lemma_simulate_empty(s: CraftState)
    ensures
        sim_rec(s, Seq::<Action>::empty(), 0).0 == s,
        sim_rec(s, Seq::<Action>::empty(), 0).1 == Seq::<CastErrorPos>::empty(),
{
}

} // verus!
