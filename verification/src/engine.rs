//! Plain-integer model of the crafting rules engine's entities, and the
//! trusted boundary to the `ffxiv_crafting` crate that owns the ruleset.
//!
//! The rules engine is a fixed black box: it decides which actions are legal
//! in a state and how an action mutates a state.  Both operations are
//! deterministic functions of the state and the action, so their results are
//! given names (`legal_of`, `apply_of`, `err_of`) that the rest of the
//! library reasons with.  What the engine's source plainly shows about the
//! results (which fields stay put, which bounds are preserved) is stated as
//! contracts on the wrappers.

use vstd::prelude::*;

verus! {

/// One discrete crafting action of the rules engine, mirrored one to one.
#[derive(Clone, Copy, PartialEq, Eq, Structural, Debug)]
pub enum Action {
    BasicSynthesis,
    BasicTouch,
    MastersMend,
    HastyTouch,
    RapidSynthesis,
    Observe,
    TricksOfTheTrade,
    WasteNot,
    Veneration,
    StandardTouch,
    GreatStrides,
    Innovation,
    FinalAppraisal,
    WasteNotII,
    ByregotsBlessing,
    PreciseTouch,
    MuscleMemory,
    CarefulSynthesis,
    Manipulation,
    PrudentTouch,
    AdvancedTouch,
    Reflect,
    PreparatoryTouch,
    Groundwork,
    DelicateSynthesis,
    IntensiveSynthesis,
    TrainedEye,
    PrudentSynthesis,
    TrainedFinesse,
    CarefulObservation,
    HeartAndSoul,
    RefinedTouch,
    DaringTouch,
    QuickInnovation,
    ImmaculateMend,
    TrainedPerfection,
    StellarSteadyHand,
    RapidSynthesisFail,
    HastyTouchFail,
    DaringTouchFail,
}

/// The engine's action codes: the discriminants of its `Actions` enum.
pub open spec fn code_of(a: Action) -> u8 {
    match a {
        Action::BasicSynthesis => 1u8,
        Action::BasicTouch => 2u8,
        Action::MastersMend => 3u8,
        Action::HastyTouch => 4u8,
        Action::RapidSynthesis => 5u8,
        Action::Observe => 6u8,
        Action::TricksOfTheTrade => 7u8,
        Action::WasteNot => 8u8,
        Action::Veneration => 9u8,
        Action::StandardTouch => 10u8,
        Action::GreatStrides => 11u8,
        Action::Innovation => 12u8,
        Action::FinalAppraisal => 13u8,
        Action::WasteNotII => 14u8,
        Action::ByregotsBlessing => 15u8,
        Action::PreciseTouch => 16u8,
        Action::MuscleMemory => 17u8,
        Action::CarefulSynthesis => 18u8,
        Action::Manipulation => 19u8,
        Action::PrudentTouch => 20u8,
        Action::AdvancedTouch => 21u8,
        Action::Reflect => 22u8,
        Action::PreparatoryTouch => 23u8,
        Action::Groundwork => 24u8,
        Action::DelicateSynthesis => 25u8,
        Action::IntensiveSynthesis => 26u8,
        Action::TrainedEye => 27u8,
        Action::PrudentSynthesis => 28u8,
        Action::TrainedFinesse => 29u8,
        Action::CarefulObservation => 30u8,
        Action::HeartAndSoul => 31u8,
        Action::RefinedTouch => 32u8,
        Action::DaringTouch => 33u8,
        Action::QuickInnovation => 34u8,
        Action::ImmaculateMend => 35u8,
        Action::TrainedPerfection => 36u8,
        Action::StellarSteadyHand => 37u8,
        Action::RapidSynthesisFail => 38u8,
        Action::HastyTouchFail => 39u8,
        Action::DaringTouchFail => 40u8,
    }
}

/// Executable twin of `code_of`.
pub fn action_code(a: Action) -> (r: u8)
    ensures
        r == code_of(a),
{
    match a {
        Action::BasicSynthesis => 1u8,
        Action::BasicTouch => 2u8,
        Action::MastersMend => 3u8,
        Action::HastyTouch => 4u8,
        Action::RapidSynthesis => 5u8,
        Action::Observe => 6u8,
        Action::TricksOfTheTrade => 7u8,
        Action::WasteNot => 8u8,
        Action::Veneration => 9u8,
        Action::StandardTouch => 10u8,
        Action::GreatStrides => 11u8,
        Action::Innovation => 12u8,
        Action::FinalAppraisal => 13u8,
        Action::WasteNotII => 14u8,
        Action::ByregotsBlessing => 15u8,
        Action::PreciseTouch => 16u8,
        Action::MuscleMemory => 17u8,
        Action::CarefulSynthesis => 18u8,
        Action::Manipulation => 19u8,
        Action::PrudentTouch => 20u8,
        Action::AdvancedTouch => 21u8,
        Action::Reflect => 22u8,
        Action::PreparatoryTouch => 23u8,
        Action::Groundwork => 24u8,
        Action::DelicateSynthesis => 25u8,
        Action::IntensiveSynthesis => 26u8,
        Action::TrainedEye => 27u8,
        Action::PrudentSynthesis => 28u8,
        Action::TrainedFinesse => 29u8,
        Action::CarefulObservation => 30u8,
        Action::HeartAndSoul => 31u8,
        Action::RefinedTouch => 32u8,
        Action::DaringTouch => 33u8,
        Action::QuickInnovation => 34u8,
        Action::ImmaculateMend => 35u8,
        Action::TrainedPerfection => 36u8,
        Action::StellarSteadyHand => 37u8,
        Action::RapidSynthesisFail => 38u8,
        Action::HastyTouchFail => 39u8,
        Action::DaringTouchFail => 40u8,
    }
}

/// Why an action may not be cast, mirroring the engine's error taxonomy.
#[derive(Clone, Copy, PartialEq, Eq, Structural, Debug)]
pub enum CastError {
    DurabilityNotEnough,
    CraftPointNotEnough,
    CraftingAlreadyFinished,
    PlayerLevelTooLow,
    RequireGoodOrExcellent,
    NotAllowedInWastNotBuff,
    OnlyAllowedInFirstStep,
    LevelGapMustGreaterThanTen,
    RequireInnerQuiet1,
    RequireInnerQuiet10,
    CarefulObservationUsed3,
    HeartAndSoulUsed,
    RequireHastyTouchSuccessed,
    QuickInnovationUsed,
    NotAllowedInInnovationBuff,
    TrainedPerfectionUsed,
    StellarSteadyHandUsed,
}

/// The crafting state's condition wheel, mirrored one to one.
#[derive(Clone, Copy, PartialEq, Eq, Structural, Debug)]
pub enum Condition {
    Normal,
    Good,
    Excellent,
    Poor,
    Centered,
    Sturdy,
    Pliant,
    Malleable,
    Primed,
    GoodOmen,
    Robust,
}

/// Touch-combo progress, mirrored one to one.
#[derive(Clone, Copy, PartialEq, Eq, Structural, Debug)]
pub enum Combo {
    Observed,
    BasicTouched,
    StandardTouched,
}

/// The status-effect timers and stacks of a crafting state.
#[derive(Clone, Copy, PartialEq, Eq, Structural, Debug)]
pub struct Buffs {
    pub muscle_memory: u8,
    pub great_strides: u8,
    pub veneration: u8,
    pub innovation: u8,
    pub inner_quiet: u8,
    pub final_appraisal: u8,
    pub manipulation: u8,
    pub wast_not: u8,
    pub wast_not_ii: u8,
    pub expedience: u8,
    pub heart_and_soul: u8,
    pub trained_perfection: u8,
    pub stellar_steady_hand: u8,
}

/// Per-craft usage counters for once-only actions.
#[derive(Clone, Copy, PartialEq, Eq, Structural, Debug)]
pub struct Limits {
    pub careful_observation_used: u8,
    pub quick_innovation_used: u8,
    pub heart_and_soul_used: u8,
    pub trained_perfection_used: u8,
    pub stellar_steady_hand_charged: u8,
}

/// The crafter's gear attributes.
#[derive(Clone, Copy, PartialEq, Eq, Structural, Debug, Hash)]
pub struct Attrs {
    pub level: u8,
    pub craftsmanship: i32,
    pub control: i32,
    pub craft_points: i32,
}

/// A recipe level table row.
#[derive(Clone, Copy, PartialEq, Eq, Structural, Debug, Hash)]
pub struct LevelInfo {
    pub id: i32,
    pub class_job_level: u8,
    pub stars: u8,
    pub suggested_craftsmanship: u16,
    pub difficulty: u16,
    pub quality: u32,
    pub progress_divider: u8,
    pub quality_divider: u8,
    pub progress_modifier: u8,
    pub quality_modifier: u8,
    pub durability: u16,
    pub conditions_flag: u16,
}

/// One crafting recipe.
#[derive(Clone, Copy, PartialEq, Eq, Structural, Debug, Hash)]
pub struct RecipeInfo {
    pub rlv: LevelInfo,
    pub job_level: u8,
    pub difficulty: u16,
    pub quality: u32,
    pub durability: u16,
    pub conditions_flag: u16,
}

/// One full crafting state, holding every field the rules engine reads or
/// writes except its cached base values, which are a fixed function of the
/// attributes and the recipe.
#[derive(Clone, Copy, PartialEq, Eq, Structural, Debug)]
pub struct CraftState {
    pub buffs: Buffs,
    pub combo: Option<Combo>,
    pub limits: Limits,
    pub attributes: Attrs,
    pub recipe: RecipeInfo,
    pub durability: u16,
    pub craft_points: i32,
    pub progress: u16,
    pub quality: u32,
    pub step: i32,
    pub condition: Condition,
}

/// The timer ceilings that the engine's own rules keep every buff under,
/// as long as the condition does not extend buff durations.
pub open spec fn buffs_bounded(b: Buffs) -> bool {
    &&& b.veneration <= 4
    &&& b.muscle_memory <= 5
    &&& b.inner_quiet <= 10
    &&& b.innovation <= 4
    &&& b.manipulation <= 8
    &&& b.wast_not <= 8
    &&& b.wast_not_ii <= 8
    &&& b.great_strides <= 3
    &&& b.final_appraisal <= 5
    &&& b.expedience <= 2
    &&& b.heart_and_soul <= 1
    &&& b.trained_perfection <= 1
    &&& b.stellar_steady_hand <= 3
}

/// The usage counters are clear of their machine ceiling, so that one more
/// cast cannot wrap them.
pub open spec fn limits_ok(l: Limits) -> bool {
    &&& l.careful_observation_used < 255
    &&& l.quick_innovation_used < 255
    &&& l.heart_and_soul_used < 255
    &&& l.trained_perfection_used < 255
}

/// A well-formed crafting state: resources within their budgets, counters
/// within the bounds the engine's tabulation relies on, and margins that keep
/// the engine's own arithmetic inside its machine types.
pub open spec fn status_wf(s: CraftState) -> bool {
    &&& margins_wf(s)
    &&& buffs_bounded(s.buffs)
}

/// The margin part of well-formedness: resources within their budgets and
/// every counter far enough from its machine ceiling that the engine's own
/// unchecked arithmetic, whose factors the vendored source bounds, cannot
/// wrap on any cast.  The coupled craftsmanship bound keeps the base
/// progress value small enough that even the strongest buff, modifier and
/// condition multipliers cannot carry the progress counter past its type.
/// The quality ceiling here is half the per-cast margin, since the one
/// first-step appraisal action can double the quality once.
pub open spec fn margins_wf(s: CraftState) -> bool {
    &&& 0 <= s.attributes.craft_points <= 1000000
    &&& 0 <= s.attributes.craftsmanship
    &&& 0 <= s.attributes.control <= 50000
    &&& s.attributes.craftsmanship * 10 <= 400 * s.recipe.rlv.progress_divider
    &&& s.recipe.rlv.progress_divider >= 1
    &&& s.recipe.rlv.quality_divider >= 1
    &&& s.recipe.rlv.progress_modifier <= 200
    &&& s.recipe.rlv.quality_modifier <= 200
    &&& 1 <= s.recipe.difficulty <= 50000
    &&& s.recipe.job_level <= 245
    &&& s.recipe.durability <= 60000
    &&& s.recipe.quality <= 0x40000000
    &&& s.quality <= 0x40000000
    &&& s.progress <= s.recipe.difficulty
    &&& s.durability <= s.recipe.durability
    &&& 0 <= s.craft_points <= s.attributes.craft_points
    &&& 0 <= s.step <= 1000000
    &&& limits_ok(s.limits)
}

/// Facts that the engine's legality check guarantees about a state in which
/// some action is legal, read off the final arms of `is_action_allowed`.
pub open spec fn legal_implies(s: CraftState, code: u8) -> bool {
    &&& s.durability >= 1
    &&& s.progress < s.recipe.difficulty
    &&& (code == 37 ==> s.limits.stellar_steady_hand_charged >= 1)
    &&& (code == 30 ==> s.limits.careful_observation_used < 3)
    &&& (code == 31 ==> s.limits.heart_and_soul_used == 0)
    &&& (code == 34 ==> s.limits.quick_innovation_used == 0)
    &&& (code == 36 ==> s.limits.trained_perfection_used == 0)
}

/// Inputs on which a single unchecked cast cannot wrap the engine's own
/// arithmetic: the margins plus no charge-consuming action without a charge.
pub open spec fn cast_ok(s: CraftState, code: u8) -> bool {
    &&& 1 <= code <= 40
    &&& cast_margins(s)
    &&& (code == 37 ==> s.limits.stellar_steady_hand_charged >= 1)
}

/// Whether the engine allows `code` in state `s`: the result of
/// `Status::is_action_allowed` being `Ok`, a function of the two arguments.
pub uninterp spec fn legal_of(s: CraftState, code: u8) -> bool;

/// The error that `Status::is_action_allowed` reports when `code` is not
/// allowed in `s`, a function of the two arguments.
pub uninterp spec fn err_of(s: CraftState, code: u8) -> CastError;

/// The state after `Status::cast_action` casts `code` in `s`, a function of
/// the two arguments: the engine's ruleset is fixed and deterministic.
pub uninterp spec fn apply_of(s: CraftState, code: u8) -> CraftState;

/// What the engine's source plainly shows of any single cast: attributes,
/// recipe and condition are never written; progress only grows and stays
/// capped at the difficulty; durability stays capped at the recipe's;
/// craft points cost at most 250, never exceed the budget, and never run
/// negative on a legal cast; quality grows by at most one recipe ceiling,
/// and only the one first-step appraisal action (code 27) can carry it past
/// the larger of its old value and the ceiling; the step counter grows by
/// at most one; all buff timers stay under their ceilings; and a legal cast
/// keeps the usage counters clear of wrapping.
pub open spec fn cast_frame(s: CraftState, code: u8, r: CraftState) -> bool {
    &&& r.attributes == s.attributes
    &&& r.recipe == s.recipe
    &&& r.condition == s.condition
    &&& (s.progress < s.recipe.difficulty ==> r.progress >= s.progress)
    &&& (s.progress <= s.recipe.difficulty ==> r.progress <= s.recipe.difficulty)
    &&& (s.durability <= s.recipe.durability ==> r.durability <= s.recipe.durability)
    &&& r.craft_points >= s.craft_points - 250
    &&& (s.craft_points <= s.attributes.craft_points ==> r.craft_points
        <= s.attributes.craft_points)
    &&& r.quality <= s.quality + s.recipe.quality
    &&& (s.quality <= s.recipe.quality ==> r.quality >= s.quality)
    &&& s.step <= r.step <= s.step + 1
    &&& (code != 27 ==> r.quality
        <= (if s.quality >= s.recipe.quality { s.quality as int } else { s.recipe.quality as int }))
    &&& (code == 27 && legal_of(s, code) ==> s.step == 0 && r.step == s.step + 1)
    &&& (s.condition != Condition::Primed && buffs_bounded(s.buffs) ==> buffs_bounded(r.buffs))
    &&& (legal_of(s, code) && limits_ok(s.limits) ==> limits_ok(r.limits))
    &&& (legal_of(s, code) ==> r.craft_points >= 0)
}

/// Margins under which one call into the engine cannot wrap its arithmetic.
/// The coupled craftsmanship bound keeps the base progress value at most
/// 402, at most 804 after the level modifier; the strongest buff and
/// condition multipliers the source holds are 12.5 and 1.5, so one progress
/// gain stays under 15100 and difficulty plus one gain under the u16
/// ceiling.  The touch base stays under 1.1 million, its strongest
/// multipliers (2.5 buff, 26.5 stacks, 3.0 efficiency, 4.0 condition) keep
/// one quality gain under 0.8 billion, and quality plus one gain under the
/// u32 ceiling.  The craft point budget caps the one gain the engine
/// grants.
pub open spec fn cast_margins(s: CraftState) -> bool {
    &&& 1 <= s.recipe.difficulty <= 50000
    &&& s.recipe.job_level <= 245
    &&& 0 <= s.attributes.craftsmanship
    &&& 0 <= s.attributes.control <= 50000
    &&& s.attributes.craftsmanship * 10 <= 400 * s.recipe.rlv.progress_divider
    &&& s.recipe.rlv.progress_divider >= 1
    &&& s.recipe.rlv.quality_divider >= 1
    &&& s.recipe.rlv.progress_modifier <= 200
    &&& s.recipe.rlv.quality_modifier <= 200
    &&& s.progress <= s.recipe.difficulty
    &&& s.durability <= 60000
    &&& s.recipe.durability <= 60000
    &&& 0 <= s.craft_points <= s.attributes.craft_points
    &&& s.attributes.craft_points <= 1000000
    &&& s.quality <= 0x80000000
    &&& s.recipe.quality <= 0x40000000
    &&& 0 <= s.step < 0x7fffffff
    &&& limits_ok(s.limits)
}

/// Every action code lies in the engine's discriminant range.
pub proof fn lemma_code_range(a: Action)
    ensures
        1 <= code_of(a) <= 40,
{
}

#[verifier::external_type_specification]
#[verifier::external_body]
pub struct ExStatus(ffxiv_crafting::Status);

#[verifier::external_type_specification]
#[verifier::external_body]
pub struct ExActions(ffxiv_crafting::Actions);

#[verifier::external_type_specification]
#[verifier::external_body]
pub struct ExCastActionError(ffxiv_crafting::CastActionError);

#[verifier::external_type_specification]
#[verifier::external_body]
pub struct ExAttributes(ffxiv_crafting::Attributes);

#[verifier::external_type_specification]
#[verifier::external_body]
pub struct ExRecipe(ffxiv_crafting::Recipe);

#[verifier::external_type_specification]
#[verifier::external_body]
pub struct ExRecipeLevel(ffxiv_crafting::RecipeLevel);

/// Builds the engine's `Attributes` from the model's, field by field.
#[verifier::external_body]
fn eng_attrs(s: &CraftState) -> ffxiv_crafting::Attributes {
    ffxiv_crafting::Attributes {
        level: s.attributes.level,
        craftsmanship: s.attributes.craftsmanship,
        control: s.attributes.control,
        craft_points: s.attributes.craft_points,
    }
}

/// Builds the engine's `RecipeLevel` from the model's, field by field.
#[verifier::external_body]
fn eng_rlv(s: &CraftState) -> ffxiv_crafting::RecipeLevel {
    ffxiv_crafting::RecipeLevel {
        id: s.recipe.rlv.id, class_job_level: s.recipe.rlv.class_job_level,
        stars: s.recipe.rlv.stars, suggested_craftsmanship: s.recipe.rlv.suggested_craftsmanship,
        difficulty: s.recipe.rlv.difficulty, quality: s.recipe.rlv.quality,
        progress_divider: s.recipe.rlv.progress_divider, quality_divider: s.recipe.rlv.quality_divider,
        progress_modifier: s.recipe.rlv.progress_modifier, quality_modifier: s.recipe.rlv.quality_modifier,
        durability: s.recipe.rlv.durability, conditions_flag: s.recipe.rlv.conditions_flag,
    }
}

/// Builds the engine's `Recipe` from the model's, field by field.
#[verifier::external_body]
fn eng_recipe(s: &CraftState) -> ffxiv_crafting::Recipe {
    ffxiv_crafting::Recipe {
        rlv: eng_rlv(s),
        job_level: s.recipe.job_level,
        difficulty: s.recipe.difficulty,
        quality: s.recipe.quality,
        durability: s.recipe.durability,
        conditions_flag: s.recipe.conditions_flag,
    }
}

/// Relies on ffxiv_crafting::Status::new to precompute the cached base
/// values from the attributes and the recipe.
#[verifier::external_body]
fn eng_new(s: &CraftState) -> ffxiv_crafting::Status {
    ffxiv_crafting::Status::new(eng_attrs(s), eng_recipe(s))
}

/// Copies the model's buff timers into the engine's status, field by field.
#[verifier::external_body]
fn eng_fill_buffs(e: &mut ffxiv_crafting::Status, s: &CraftState) {
    e.buffs.muscle_memory = s.buffs.muscle_memory; e.buffs.great_strides = s.buffs.great_strides;
    e.buffs.veneration = s.buffs.veneration; e.buffs.innovation = s.buffs.innovation;
    e.buffs.inner_quiet = s.buffs.inner_quiet; e.buffs.final_appraisal = s.buffs.final_appraisal;
    e.buffs.manipulation = s.buffs.manipulation; e.buffs.wast_not = s.buffs.wast_not;
    e.buffs.wast_not_ii = s.buffs.wast_not_ii; e.buffs.expedience = s.buffs.expedience;
    e.buffs.heart_and_soul = s.buffs.heart_and_soul;
    e.buffs.trained_perfection = s.buffs.trained_perfection;
    e.buffs.stellar_steady_hand = s.buffs.stellar_steady_hand;
}

/// Copies the model's usage counters into the engine's status, field by field.
#[verifier::external_body]
fn eng_fill_limits(e: &mut ffxiv_crafting::Status, s: &CraftState) {
    e.limits.careful_observation_used = s.limits.careful_observation_used;
    e.limits.quick_innovation_used = s.limits.quick_innovation_used;
    e.limits.heart_and_soul_used = s.limits.heart_and_soul_used;
    e.limits.trained_perfection_used = s.limits.trained_perfection_used;
    e.limits.stellar_steady_hand_charged = s.limits.stellar_steady_hand_charged;
}

/// Maps the model's condition onto the engine's, variant by variant.
#[verifier::external_body]
fn eng_fill_cond(e: &mut ffxiv_crafting::Status, s: &CraftState) {
    e.condition = match s.condition {
        Condition::Normal => ffxiv_crafting::Condition::Normal,
        Condition::Good => ffxiv_crafting::Condition::Good,
        Condition::Excellent => ffxiv_crafting::Condition::Excellent,
        Condition::Poor => ffxiv_crafting::Condition::Poor,
        Condition::Centered => ffxiv_crafting::Condition::Centered,
        Condition::Sturdy => ffxiv_crafting::Condition::Sturdy,
        Condition::Pliant => ffxiv_crafting::Condition::Pliant,
        Condition::Malleable => ffxiv_crafting::Condition::Malleable,
        Condition::Primed => ffxiv_crafting::Condition::Primed,
        Condition::GoodOmen => ffxiv_crafting::Condition::GoodOmen,
        Condition::Robust => ffxiv_crafting::Condition::Robust,
    };
}

/// Copies the model's resources, outputs and combo into the engine's status.
#[verifier::external_body]
fn eng_fill_scalars(e: &mut ffxiv_crafting::Status, s: &CraftState) {
    e.durability = s.durability;
    e.craft_points = s.craft_points;
    e.progress = s.progress;
    e.quality = s.quality;
    e.step = s.step;
    e.combo = match s.combo {
        None => None,
        Some(Combo::Observed) => Some(ffxiv_crafting::ComboStates::Observed),
        Some(Combo::BasicTouched) => Some(ffxiv_crafting::ComboStates::BasicTouched),
        Some(Combo::StandardTouched) => Some(ffxiv_crafting::ComboStates::StandardTouched),
    };
}

/// Reads the engine's buff timers back into the model, field by field.
#[verifier::external_body]
fn back_buffs(e: &ffxiv_crafting::Status) -> Buffs {
    Buffs {
        muscle_memory: e.buffs.muscle_memory, great_strides: e.buffs.great_strides,
        veneration: e.buffs.veneration, innovation: e.buffs.innovation,
        inner_quiet: e.buffs.inner_quiet, final_appraisal: e.buffs.final_appraisal,
        manipulation: e.buffs.manipulation, wast_not: e.buffs.wast_not,
        wast_not_ii: e.buffs.wast_not_ii, expedience: e.buffs.expedience,
        heart_and_soul: e.buffs.heart_and_soul, trained_perfection: e.buffs.trained_perfection,
        stellar_steady_hand: e.buffs.stellar_steady_hand,
    }
}

/// Reads the engine's usage counters back into the model, field by field.
#[verifier::external_body]
fn back_limits(e: &ffxiv_crafting::Status) -> Limits {
    Limits {
        careful_observation_used: e.limits.careful_observation_used,
        quick_innovation_used: e.limits.quick_innovation_used,
        heart_and_soul_used: e.limits.heart_and_soul_used,
        trained_perfection_used: e.limits.trained_perfection_used,
        stellar_steady_hand_charged: e.limits.stellar_steady_hand_charged,
    }
}

/// Reads the engine's combo state back into the model, variant by variant.
#[verifier::external_body]
fn back_combo(e: &ffxiv_crafting::Status) -> Option<Combo> {
    match e.combo {
        None => None,
        Some(ffxiv_crafting::ComboStates::Observed) => Some(Combo::Observed),
        Some(ffxiv_crafting::ComboStates::BasicTouched) => Some(Combo::BasicTouched),
        Some(ffxiv_crafting::ComboStates::StandardTouched) => Some(Combo::StandardTouched),
    }
}

/// Reads the engine's status back into the model.  The attributes, the
/// recipe and the condition are taken from the prior model state: the
/// engine's `cast_action` never writes them.
#[verifier::external_body]
fn back_status(e: &ffxiv_crafting::Status, s: &CraftState) -> CraftState {
    CraftState {
        buffs: back_buffs(e),
        combo: back_combo(e),
        limits: back_limits(e),
        attributes: s.attributes,
        recipe: s.recipe,
        durability: e.durability,
        craft_points: e.craft_points,
        progress: e.progress,
        quality: e.quality,
        step: e.step,
        condition: s.condition,
    }
}

/// Maps an action code to the engine's `Actions` variant with that
/// discriminant, first quarter of the range.
#[verifier::external_body]
fn dec_action_a(code: u8) -> ffxiv_crafting::Actions {
    match code {
        1 => ffxiv_crafting::Actions::BasicSynthesis,
        2 => ffxiv_crafting::Actions::BasicTouch,
        3 => ffxiv_crafting::Actions::MastersMend,
        4 => ffxiv_crafting::Actions::HastyTouch,
        5 => ffxiv_crafting::Actions::RapidSynthesis,
        6 => ffxiv_crafting::Actions::Observe,
        7 => ffxiv_crafting::Actions::TricksOfTheTrade,
        8 => ffxiv_crafting::Actions::WasteNot,
        9 => ffxiv_crafting::Actions::Veneration,
        10 => ffxiv_crafting::Actions::StandardTouch,
        _ => dec_action_b(code),
    }
}

/// Maps an action code to the engine's `Actions` variant, second quarter.
#[verifier::external_body]
fn dec_action_b(code: u8) -> ffxiv_crafting::Actions {
    match code {
        11 => ffxiv_crafting::Actions::GreatStrides,
        12 => ffxiv_crafting::Actions::Innovation,
        13 => ffxiv_crafting::Actions::FinalAppraisal,
        14 => ffxiv_crafting::Actions::WasteNotII,
        15 => ffxiv_crafting::Actions::ByregotsBlessing,
        16 => ffxiv_crafting::Actions::PreciseTouch,
        17 => ffxiv_crafting::Actions::MuscleMemory,
        18 => ffxiv_crafting::Actions::CarefulSynthesis,
        19 => ffxiv_crafting::Actions::Manipulation,
        20 => ffxiv_crafting::Actions::PrudentTouch,
        _ => dec_action_c(code),
    }
}

/// Maps an action code to the engine's `Actions` variant, third quarter.
#[verifier::external_body]
fn dec_action_c(code: u8) -> ffxiv_crafting::Actions {
    match code {
        21 => ffxiv_crafting::Actions::AdvancedTouch,
        22 => ffxiv_crafting::Actions::Reflect,
        23 => ffxiv_crafting::Actions::PreparatoryTouch,
        24 => ffxiv_crafting::Actions::Groundwork,
        25 => ffxiv_crafting::Actions::DelicateSynthesis,
        26 => ffxiv_crafting::Actions::IntensiveSynthesis,
        27 => ffxiv_crafting::Actions::TrainedEye,
        28 => ffxiv_crafting::Actions::PrudentSynthesis,
        29 => ffxiv_crafting::Actions::TrainedFinesse,
        30 => ffxiv_crafting::Actions::CarefulObservation,
        _ => dec_action_d(code),
    }
}

/// Maps an action code to the engine's `Actions` variant, last quarter.
#[verifier::external_body]
fn dec_action_d(code: u8) -> ffxiv_crafting::Actions {
    match code {
        31 => ffxiv_crafting::Actions::HeartAndSoul,
        32 => ffxiv_crafting::Actions::RefinedTouch,
        33 => ffxiv_crafting::Actions::DaringTouch,
        34 => ffxiv_crafting::Actions::QuickInnovation,
        35 => ffxiv_crafting::Actions::ImmaculateMend,
        36 => ffxiv_crafting::Actions::TrainedPerfection,
        37 => ffxiv_crafting::Actions::StellarSteadyHand,
        38 => ffxiv_crafting::Actions::RapidSynthesisFail,
        39 => ffxiv_crafting::Actions::HastyTouchFail,
        _ => ffxiv_crafting::Actions::DaringTouchFail,
    }
}

/// Maps the engine's legality error onto the model's, variant by variant.
#[verifier::external_body]
fn dec_err_a(e: ffxiv_crafting::CastActionError) -> CastError {
    match e {
        ffxiv_crafting::CastActionError::DurabilityNotEnough => CastError::DurabilityNotEnough,
        ffxiv_crafting::CastActionError::CraftPointNotEnough => CastError::CraftPointNotEnough,
        ffxiv_crafting::CastActionError::CraftingAlreadyFinished => CastError::CraftingAlreadyFinished,
        ffxiv_crafting::CastActionError::PlayerLevelTooLow => CastError::PlayerLevelTooLow,
        ffxiv_crafting::CastActionError::RequireGoodOrExcellent => CastError::RequireGoodOrExcellent,
        ffxiv_crafting::CastActionError::NotAllowedInWastNotBuff => CastError::NotAllowedInWastNotBuff,
        ffxiv_crafting::CastActionError::OnlyAllowedInFirstStep => CastError::OnlyAllowedInFirstStep,
        ffxiv_crafting::CastActionError::LevelGapMustGreaterThanTen => CastError::LevelGapMustGreaterThanTen,
        ffxiv_crafting::CastActionError::RequireInnerQuiet1 => CastError::RequireInnerQuiet1,
        other => dec_err_b(other),
    }
}

/// Maps the engine's legality error onto the model's, remaining variants.
#[verifier::external_body]
fn dec_err_b(e: ffxiv_crafting::CastActionError) -> CastError {
    match e {
        ffxiv_crafting::CastActionError::RequireInnerQuiet10 => CastError::RequireInnerQuiet10,
        ffxiv_crafting::CastActionError::CarefulObservationUsed3 => CastError::CarefulObservationUsed3,
        ffxiv_crafting::CastActionError::HeartAndSoulUsed => CastError::HeartAndSoulUsed,
        ffxiv_crafting::CastActionError::RequireHastyTouchSuccessed => CastError::RequireHastyTouchSuccessed,
        ffxiv_crafting::CastActionError::QuickInnovationUsed => CastError::QuickInnovationUsed,
        ffxiv_crafting::CastActionError::NotAllowedInInnovationBuff => CastError::NotAllowedInInnovationBuff,
        ffxiv_crafting::CastActionError::TrainedPerfectionUsed => CastError::TrainedPerfectionUsed,
        _ => CastError::StellarSteadyHandUsed,
    }
}

/// Executable twin of `cast_ok`.
pub fn cast_ok_exec(s: &CraftState, code: u8) -> (r: bool)
    ensures
        r == cast_ok(*s, code),
{
    1 <= code && code <= 40
        && 1 <= s.recipe.difficulty && s.recipe.difficulty <= 50000
        && s.recipe.job_level <= 245
        && 0 <= s.attributes.craftsmanship && s.attributes.craftsmanship <= 50000
        && 0 <= s.attributes.control && s.attributes.control <= 50000
        && s.attributes.craftsmanship * 10 <= 400 * s.recipe.rlv.progress_divider as i32
        && s.recipe.rlv.progress_divider >= 1
        && s.recipe.rlv.quality_divider >= 1
        && s.recipe.rlv.progress_modifier <= 200
        && s.recipe.rlv.quality_modifier <= 200
        && s.progress <= s.recipe.difficulty
        && s.durability <= 60000
        && s.recipe.durability <= 60000
        && 0 <= s.craft_points && s.craft_points <= s.attributes.craft_points
        && s.attributes.craft_points <= 1000000
        && s.quality <= 0x80000000
        && s.recipe.quality <= 0x40000000
        && 0 <= s.step && s.step < 0x7fffffff
        && s.limits.careful_observation_used < 255
        && s.limits.quick_innovation_used < 255
        && s.limits.heart_and_soul_used < 255
        && s.limits.trained_perfection_used < 255
        && (code != 37 || s.limits.stellar_steady_hand_charged >= 1)
}

/// Relies on ffxiv_crafting::Status::is_action_allowed and cast_action:
/// both are deterministic in the status and the action, the former reports
/// legality, the latter applies the engine's fixed ruleset.  The frame and
/// legality facts are read off their source arm by arm.
#[verifier::external_body]
pub(crate) fn engine_step(s: &CraftState, code: u8) -> (r: (bool, CraftState))
    requires
        1 <= code <= 40,
        cast_margins(*s),
    ensures
        r.0 == legal_of(*s, code),
        !r.0 ==> r.1 == *s,
        r.0 ==> r.1 == apply_of(*s, code),
        r.0 ==> cast_frame(*s, code, r.1),
        r.0 ==> legal_implies(*s, code),
        r.0 ==> r.1.craft_points >= 0,
{
    let mut e = eng_new(s);
    eng_fill_buffs(&mut e, s);
    eng_fill_limits(&mut e, s);
    eng_fill_cond(&mut e, s);
    eng_fill_scalars(&mut e, s);
    let a = dec_action_a(code);
    if e.is_action_allowed(a).is_ok() {
        e.cast_action(a);
        (true, back_status(&e, s))
    } else {
        (false, *s)
    }
}

/// Relies on ffxiv_crafting::Status::cast_action alone: applies the action
/// without a legality check, exactly as the table playback does.
#[verifier::external_body]
pub(crate) fn engine_cast(s: &CraftState, code: u8) -> (r: CraftState)
    requires
        cast_ok(*s, code),
    ensures
        r == apply_of(*s, code),
        cast_frame(*s, code, r),
{
    let mut e = eng_new(s);
    eng_fill_buffs(&mut e, s);
    eng_fill_limits(&mut e, s);
    eng_fill_cond(&mut e, s);
    eng_fill_scalars(&mut e, s);
    e.cast_action(dec_action_a(code));
    back_status(&e, s)
}

/// Relies on ffxiv_crafting::Status::is_action_allowed: deterministic in
/// the status and the action, `Ok` exactly when the action is legal.
#[verifier::external_body]
pub(crate) fn engine_check(s: &CraftState, code: u8) -> (r: Result<(), CastError>)
    requires
        1 <= code <= 40,
        s.recipe.job_level <= 245,
    ensures
        (r is Ok) == legal_of(*s, code),
        r matches Err(e) ==> e == err_of(*s, code),
        r is Ok ==> legal_implies(*s, code),
{
    let mut e = eng_new(s);
    eng_fill_buffs(&mut e, s);
    eng_fill_limits(&mut e, s);
    eng_fill_cond(&mut e, s);
    eng_fill_scalars(&mut e, s);
    match e.is_action_allowed(dec_action_a(code)) {
        Ok(()) => Ok(()),
        Err(er) => Err(dec_err_a(er)),
    }
}

} // verus!

