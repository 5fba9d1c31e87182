//! One solver pair per distinct crafting problem.
//!
//! The cache maps the structural identity of (attributes, recipe) to an
//! owned driver and solver pair.  A key is built at most once: a duplicate
//! create is rejected, a read against an unbuilt key is rejected, and no
//! overwrite is ever permitted.

use vstd::prelude::*;
use crate::engine::status_wf;
use crate::engine::Action;
use crate::engine::Attrs;
use crate::engine::Condition;
use crate::engine::CraftState;
use crate::engine::RecipeInfo;
use crate::driver::Driver;
use crate::solver::Solver;

verus! {

/// Structural identity of a crafting problem.
#[derive(PartialEq, Eq, Structural, Hash)]
pub struct SolverHash {
    pub attributes: Attrs,
    pub recipe: RecipeInfo,
}

/// Why a cache operation was refused.
#[derive(Clone, Copy, PartialEq, Eq, Structural, Debug)]
pub enum SolverError {
    AlreadyExists,
    NotExists,
}

/// The in-memory solver cache; the host serializes access to it.
pub struct AppState {
    pub solver_list: Vec<(SolverHash, Solver)>,
}

/// The key a state identifies.
pub open spec fn key_of(s: CraftState) -> SolverHash {
    SolverHash { attributes: s.attributes, recipe: s.recipe }
}

/// Whether a key is present.
pub open spec fn has_key(list: Seq<(SolverHash, Solver)>, k: SolverHash) -> bool {
    exists|j: int| 0 <= j < list.len() && (#[trigger] list[j]).0 == k
}

/// Cache invariant: every entry is a well-formed solver built for exactly
/// the problem its key names, and keys are never duplicated.
pub open spec fn cache_wf(list: Seq<(SolverHash, Solver)>) -> bool {
    &&& (forall|j: int| 0 <= j < list.len() ==> {
        let e = #[trigger] list[j];
        e.1.wf() && e.1.base().attributes == e.0.attributes && e.1.base().recipe == e.0.recipe
    })
    &&& (forall|j: int, j2: int| 0 <= j < j2 < list.len()
        ==> (#[trigger] list[j]).0 != (#[trigger] list[j2]).0)
}

impl AppState {
    /// An empty cache.
    pub fn new() -> (r: Self)
        ensures
            r.solver_list@.len() == 0,
            cache_wf(r.solver_list@),
    {
        AppState { solver_list: Vec::new() }
    }
}

/// Builds the driver and solver pair for a state's problem and inserts it:
/// the first create on a key succeeds, any later one is rejected and the
/// cache is left exactly as it was.
pub fn create_solver(
    app_state: &mut AppState,
    status: &CraftState,
    synth_skills: &Vec<Action>,
    touch_skills: &Vec<Action>,
) -> (r: Result<(), SolverError>)
    requires
        cache_wf(old(app_state).solver_list@),
        status_wf(*status),
        status.condition != Condition::Primed,
        (status.recipe.durability + 1) * (status.attributes.craft_points + 1) * 4455
            <= usize::MAX,
    ensures
        cache_wf(final(app_state).solver_list@),
        has_key(old(app_state).solver_list@, key_of(*status)) ==> {
            &&& r == Result::<(), SolverError>::Err(SolverError::AlreadyExists)
            &&& final(app_state).solver_list@ == old(app_state).solver_list@
        },
        !has_key(old(app_state).solver_list@, key_of(*status)) ==> {
            &&& r == Result::<(), SolverError>::Ok(())
            &&& final(app_state).solver_list@.len() == old(app_state).solver_list@.len() + 1
            &&& final(app_state).solver_list@.subrange(
                0, old(app_state).solver_list@.len() as int) == old(app_state).solver_list@
            &&& (final(app_state).solver_list@.last().0 == key_of(*status))
            &&& (final(app_state).solver_list@.last().1.wf())
            &&& (final(app_state).solver_list@.last().1.driver.init_status == *status)
            &&& (final(app_state).solver_list@.last().1.driver.table_ok(synth_skills@))
            &&& (final(app_state).solver_list@.last().1.table_ok(touch_skills@))
        },
{
    let key = SolverHash { attributes: status.attributes, recipe: status.recipe };
    let n = app_state.solver_list.len();
    let mut j: usize = 0;
    while j < n
        invariant
            n == app_state.solver_list@.len(),
            j <= n,
            forall|t: int| 0 <= t < j ==> (#[trigger] app_state.solver_list@[t]).0
                != key_of(*status),
        decreases n - j,
    {
        if app_state.solver_list[j].0 == key {
            return Err(SolverError::AlreadyExists);
        }
        j += 1;
    }
    proof {
        assert((status.recipe.durability + 1) * (status.attributes.craft_points + 1) * 2430
            <= (status.recipe.durability + 1) * (status.attributes.craft_points + 1) * 4455)
            by (nonlinear_arith)
            requires status.recipe.durability >= 0 && status.attributes.craft_points >= 0;
    }
    let mut driver = Driver::new(status);
    driver.init(synth_skills);
    let mut solver = Solver::new(driver);
    solver.init(touch_skills);
    let ghost old_list = app_state.solver_list@;
    app_state.solver_list.push((key, solver));
    proof {
        assert(app_state.solver_list@.subrange(0, old_list.len() as int) =~= old_list);
    }
    Ok(())
}

/// Looks a state's problem up and reads the full action sequence out of its
/// solver; a key never created is rejected.
pub fn read_solver(app_state: &AppState, status: &CraftState) -> (r: Result<Vec<Action>, SolverError>)
    requires
        cache_wf(app_state.solver_list@),
        status_wf(*status),
        status.quality <= status.recipe.quality,
    ensures
        !has_key(app_state.solver_list@, key_of(*status))
            ==> r == Result::<Vec<Action>, SolverError>::Err(SolverError::NotExists),
        has_key(app_state.solver_list@, key_of(*status)) ==> (r matches Ok(v) && (exists|j: int|
            0 <= j < app_state.solver_list@.len()
                && (#[trigger] app_state.solver_list@[j]).0 == key_of(*status)
                && v@ == app_state.solver_list@[j].1.read_all_spec(*status).1)),
{
    let key = SolverHash { attributes: status.attributes, recipe: status.recipe };
    let n = app_state.solver_list.len();
    let mut j: usize = 0;
    while j < n
        invariant
            n == app_state.solver_list@.len(),
            j <= n,
            forall|t: int| 0 <= t < j ==> (#[trigger] app_state.solver_list@[t]).0
                != key_of(*status),
        decreases n - j,
    {
        if app_state.solver_list[j].0 == key {
            let solver = &app_state.solver_list[j].1;
            proof {
                assert(solver.base().attributes == status.attributes);
                assert(solver.base().recipe == status.recipe);
            }
            let (_q, list) = solver.read_all(status);
            return Ok(list);
        }
        j += 1;
    }
    Err(SolverError::NotExists)
}

/// A key just inserted is present: after a successful create, a second
/// create on the same key can only report the duplicate.
pub proof fn lemma_created_key_present(
    list: Seq<(SolverHash, Solver)>, k: SolverHash, s: Solver,
)
    ensures
        has_key(list.push((k, s)), k),
{
    assert(list.push((k, s))[list.len() as int].0 == k);
}

/// A fresh cache holds no key: a read before any create reports absence.
pub proof fn lemma_fresh_cache_has_nothing(k: SolverHash)
    ensures
        !has_key(Seq::<(SolverHash, Solver)>::empty(), k),
{
}

/// Creating one problem leaves every other key's presence unchanged.
pub proof fn lemma_create_preserves_other_keys(
    list: Seq<(SolverHash, Solver)>, k: SolverHash, s: Solver, k2: SolverHash,
)
    requires
        k2 != k,
    ensures
        has_key(list.push((k, s)), k2) == has_key(list, k2),
{
    if has_key(list.push((k, s)), k2) {
        let j = choose|j: int| 0 <= j < list.push((k, s)).len()
            && (#[trigger] list.push((k, s))[j]).0 == k2;
        assert(j < list.len() && list[j].0 == k2);
    }
    if has_key(list, k2) {
        let j = choose|j: int| 0 <= j < list.len() && (#[trigger] list[j]).0 == k2;
        assert(list.push((k, s))[j].0 == k2);
    }
}

} // verus!
