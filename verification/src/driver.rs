//! Progress-only dynamic programming over a reduced crafting state.
//!
//! The driver tabulates, for every reduced state (durability, craft points
//! and the four progress-side buff timers), the best reachable progress, the
//! fewest steps achieving it and the first action of such a rotation.  The
//! read-out is the shared two-phase algorithm: search for the cheapest
//! resource allocation that still reaches the best value, then greedily
//! replay the table from there.

use vstd::prelude::*;
use crate::engine::action_code;
use crate::engine::apply_of;
use crate::engine::buffs_bounded;
use crate::engine::cast_margins;
use crate::engine::cast_ok;
use crate::engine::cast_ok_exec;
use crate::engine::code_of;
use crate::engine::engine_cast;
use crate::engine::engine_step;
use crate::engine::legal_of;
use crate::engine::lemma_code_range;
use crate::engine::status_wf;
use crate::engine::Action;
use crate::engine::Buffs;
use crate::engine::Condition;
use crate::engine::CraftState;

verus! {

/// Steps a playback is allowed to take before it is cut off: longer
/// rotations cannot be reported anyway, since a slot's step counter is one
/// byte, and a table whose chains run longer never terminates by itself.
pub const PLAYBACK_FUEL: usize = 4096;

/// One driver table entry.
#[derive(Clone, Copy, PartialEq, Eq, Structural, Debug)]
pub struct DriverSlot {
    pub progress: u16,
    pub step: u8,
    pub skill: Option<Action>,
}

/// The base-case entry: nothing reachable, no action chosen.
pub open spec fn default_slot() -> DriverSlot {
    DriverSlot { progress: 0, step: 0, skill: None }
}

/// `sl` is at least as good as a candidate worth `p` in `st` steps under the
/// tie-break order: maximize the value, then minimize the step count.
pub open spec fn d_beats(sl: DriverSlot, p: int, st: int) -> bool {
    &&& sl.progress >= p
    &&& (sl.progress == p ==> sl.step <= st)
}

/// Lexicographic order on table coordinates in tabulation order: craft
/// points outermost, then durability, then the four timers.
pub open spec fn lex6(
    acp: int, adu: int, ave: int, amm: int, amn: int, awn: int,
    bcp: int, bdu: int, bve: int, bmm: int, bmn: int, bwn: int,
) -> bool {
    ||| acp < bcp
    ||| (acp == bcp && (adu < bdu || (adu == bdu && (ave < bve || (ave == bve && (amm < bmm
        || (amm == bmm && (amn < bmn || (amn == bmn && awn < bwn)))))))))
}

/// Progress-only table: dense over the reduced state, built once, then
/// read-only.
pub struct Driver {
    pub init_status: CraftState,
    pub results: Vec<DriverSlot>,
}

impl Driver {
    /// Durability dimension ceiling: the recipe's durability.
    pub open spec fn du_max(self) -> int {
        self.init_status.recipe.durability as int
    }

    /// Craft point dimension ceiling: the crafter's craft point budget.
    pub open spec fn cp_max(self) -> int {
        self.init_status.attributes.craft_points as int
    }

    /// Number of table entries: one per reduced state.
    pub open spec fn total(self) -> int {
        (self.du_max() + 1) * (self.cp_max() + 1) * 2430
    }

    /// Flat offset of a reduced state in the table.
    pub open spec fn idx(self, du: int, cp: int, ve: int, mm: int, mn: int, wn: int) -> int {
        ((((du * (self.cp_max() + 1) + cp) * 5 + ve) * 6 + mm) * 9 + mn) * 9 + wn
    }

    /// The reduced-state coordinate ranges.
    pub open spec fn in_bounds(self, du: int, cp: int, ve: int, mm: int, mn: int, wn: int) -> bool {
        &&& 0 <= du <= self.du_max()
        &&& 0 <= cp <= self.cp_max()
        &&& 0 <= ve <= 4
        &&& 0 <= mm <= 5
        &&& 0 <= mn <= 8
        &&& 0 <= wn <= 8
    }

    /// Well-formed driver: a well-formed base state whose condition does not
    /// extend buff durations, and a fully allocated table.
    pub open spec fn wf(self) -> bool {
        &&& status_wf(self.init_status)
        &&& self.init_status.condition != Condition::Primed
        &&& self.results@.len() == self.total()
        &&& self.total() <= usize::MAX
    }

    /// The entry at a reduced state.
    pub open spec fn slot_at(self, du: int, cp: int, ve: int, mm: int, mn: int, wn: int) -> DriverSlot {
        self.results@[self.idx(du, cp, ve, mm, mn, wn)]
    }

    /// The probe state of a coordinate: the base state with the reduced
    /// coordinates substituted in.
    pub open spec fn probe(self, du: int, cp: int, ve: int, mm: int, mn: int, wn: int) -> CraftState {
        CraftState {
            durability: du as u16,
            craft_points: cp as i32,
            buffs: Buffs {
                veneration: ve as u8,
                muscle_memory: mm as u8,
                manipulation: mn as u8,
                wast_not: wn as u8,
                ..self.init_status.buffs
            },
            ..self.init_status
        }
    }

    /// A state's own reduced coordinates lie inside the table.
    pub open spec fn state_in_bounds(self, s: CraftState) -> bool {
        self.in_bounds(
            s.durability as int,
            s.craft_points as int,
            s.buffs.veneration as int,
            s.buffs.muscle_memory as int,
            s.buffs.manipulation as int,
            s.buffs.wast_not as int,
        )
    }

    /// The entry a state reads.
    pub open spec fn slot_of(self, s: CraftState) -> DriverSlot {
        self.slot_at(
            s.durability as int,
            s.craft_points as int,
            s.buffs.veneration as int,
            s.buffs.muscle_memory as int,
            s.buffs.manipulation as int,
            s.buffs.wast_not as int,
        )
    }

    /// A finished entry: a sentinel entry is the base case; a chosen action
    /// is one of the allowed subset and legal at the probe state; the value
    /// is capped at the difficulty; and the entry is at least as good, under
    /// the tie-break order, as every allowed candidate that finishes the
    /// resources in one cast (whose worth does not depend on the table) and
    /// as every candidate whose successor entry was already final.
    pub open spec fn slot_ok(
        self, allowed: Seq<Action>, du: int, cp: int, ve: int, mm: int, mn: int, wn: int,
    ) -> bool {
        let sl = self.slot_at(du, cp, ve, mm, mn, wn);
        let ps = self.probe(du, cp, ve, mm, mn, wn);
        &&& (sl.skill is None ==> sl == default_slot())
        &&& (sl.skill matches Some(a) ==> allowed.contains(a) && legal_of(ps, code_of(a))
            && sl.step >= 1 && du >= 1)
        &&& sl.progress <= self.init_status.recipe.difficulty
        &&& (sl.skill matches Some(a) ==> self.chosen_exact(du, cp, ve, mm, mn, wn, a))
        &&& (forall|t: int| 0 <= t < allowed.len() ==> one_shot_dominated(sl, ps, #[trigger] allowed[t]))
        &&& (forall|t: int| 0 <= t < allowed.len()
            ==> self.cand_dominated(du, cp, ve, mm, mn, wn, #[trigger] allowed[t]))
    }

    /// The equality direction: the entry's value and step count are exactly
    /// the chosen action's own candidate worth, wherever that worth reads
    /// off the finished table — a one-cast resource-exhausting successor, or
    /// a successor whose entry was already final in tabulation order.
    pub open spec fn chosen_exact(
        self, du: int, cp: int, ve: int, mm: int, mn: int, wn: int, a: Action,
    ) -> bool {
        let sl = self.slot_at(du, cp, ve, mm, mn, wn);
        let ps = self.probe(du, cp, ve, mm, mn, wn);
        let ns = apply_of(ps, code_of(a));
        &&& (ns.durability == 0 ==> sl.progress == ns.progress && sl.step == 1)
        &&& ((ns.durability >= 1 && self.state_in_bounds(ns)
            && lex6(
                ns.craft_points as int, ns.durability as int, ns.buffs.veneration as int,
                ns.buffs.muscle_memory as int, ns.buffs.manipulation as int,
                ns.buffs.wast_not as int, cp, du, ve, mm, mn, wn))
            ==> sl.progress == self.cand_q(ns) && sl.step == self.cand_st(ns))
    }

    /// A continuing candidate's worth: the successor state's own progress
    /// plus the successor entry's, capped at the difficulty.
    pub open spec fn cand_q(self, ns: CraftState) -> int {
        Self::cap_min(ns.progress + self.slot_of(ns).progress, self.init_status.recipe.difficulty as int)
    }

    /// A continuing candidate's step count, clamped at its machine ceiling.
    pub open spec fn cand_st(self, ns: CraftState) -> int {
        let sum = 1 + self.slot_of(ns).step;
        if sum > 255 { 255 } else { sum }
    }

    /// Dominance over a candidate whose successor entry was already final
    /// when the coordinate was tabulated: its worth reads off the finished
    /// table, so the finished entry must be at least as good.
    pub open spec fn cand_dominated(
        self, du: int, cp: int, ve: int, mm: int, mn: int, wn: int, a: Action,
    ) -> bool {
        let ps = self.probe(du, cp, ve, mm, mn, wn);
        let c = code_of(a);
        let ns = apply_of(ps, c);
        (legal_of(ps, c) && ns.durability >= 1 && self.state_in_bounds(ns)
            && lex6(
                ns.craft_points as int, ns.durability as int, ns.buffs.veneration as int,
                ns.buffs.muscle_memory as int, ns.buffs.manipulation as int,
                ns.buffs.wast_not as int, cp, du, ve, mm, mn, wn))
            ==> d_beats(self.slot_at(du, cp, ve, mm, mn, wn), self.cand_q(ns), self.cand_st(ns))
    }

    /// Table coordinates already tabulated, in tabulation order, satisfy
    /// `slot_ok`; the rest still hold the base entry.  The zero-durability
    /// row is never tabulated.
    pub open spec fn scanned(
        self, allowed: Seq<Action>, bcp: int, bdu: int, bve: int, bmm: int, bmn: int, bwn: int,
    ) -> bool {
        forall|du: int, cp: int, ve: int, mm: int, mn: int, wn: int|
            self.in_bounds(du, cp, ve, mm, mn, wn) ==> {
                if du >= 1 && lex6(cp, du, ve, mm, mn, wn, bcp, bdu, bve, bmm, bmn, bwn) {
                    self.slot_ok(allowed, du, cp, ve, mm, mn, wn)
                } else {
                    #[trigger] self.slot_at(du, cp, ve, mm, mn, wn) == default_slot()
                }
            }
    }

    /// The whole table is tabulated.
    pub open spec fn table_ok(self, allowed: Seq<Action>) -> bool {
        self.scanned(allowed, self.cp_max() + 1, 1, 0, 0, 0, 0)
    }
}

/// Dominance over the candidate that casts `a` and exhausts the durability:
/// such a candidate is worth exactly the cast's own progress in one step.
pub open spec fn one_shot_dominated(sl: DriverSlot, ps: CraftState, a: Action) -> bool {
    (legal_of(ps, code_of(a)) && apply_of(ps, code_of(a)).durability == 0)
        ==> d_beats(sl, apply_of(ps, code_of(a)).progress as int, 1)
}

/// Division with a remainder is unique: mixed-radix digits are determined.
pub(crate) proof fn lemma_radix(a1: int, r1: int, a2: int, r2: int, base: int)
    by (nonlinear_arith)
    requires
        base >= 1,
        0 <= r1 < base,
        0 <= r2 < base,
        a1 * base + r1 == a2 * base + r2,
    ensures
        a1 == a2,
        r1 == r2,
{
}

/// The leading pair of the offset stays under its own radix.
pub(crate) proof fn lemma_pair_bound(du: int, cp: int, dum: int, cpm: int)
    by (nonlinear_arith)
    requires
        0 <= du <= dum,
        0 <= cp <= cpm,
    ensures
        0 <= du * (cpm + 1) + cp < (dum + 1) * (cpm + 1),
{
}

impl Driver {
    /// The offset of an in-range coordinate lies inside the table.
    pub proof fn lemma_idx_bounds(self, du: int, cp: int, ve: int, mm: int, mn: int, wn: int)
        requires
            self.in_bounds(du, cp, ve, mm, mn, wn),
        ensures
            0 <= self.idx(du, cp, ve, mm, mn, wn) < self.total(),
    {
        let cpm = self.cp_max();
        let dum = self.du_max();
        lemma_pair_bound(du, cp, dum, cpm);
        let a = du * (cpm + 1) + cp;
        assert((dum + 1) * (cpm + 1) * 2430 == self.total());
        assert(((((a * 5 + ve) * 6 + mm) * 9 + mn) * 9 + wn) < (a + 1) * 2430) by (nonlinear_arith)
            requires 0 <= ve <= 4 && 0 <= mm <= 5 && 0 <= mn <= 8 && 0 <= wn <= 8;
        assert((a + 1) * 2430 <= (dum + 1) * (cpm + 1) * 2430) by (nonlinear_arith)
            requires a + 1 <= (dum + 1) * (cpm + 1);
        assert(((((a * 5 + ve) * 6 + mm) * 9 + mn) * 9 + wn) >= 0) by (nonlinear_arith)
            requires a >= 0 && 0 <= ve && 0 <= mm && 0 <= mn && 0 <= wn;
    }

    /// Distinct in-range coordinates have distinct offsets.
    pub proof fn lemma_idx_injective(
        self,
        du1: int, cp1: int, ve1: int, mm1: int, mn1: int, wn1: int,
        du2: int, cp2: int, ve2: int, mm2: int, mn2: int, wn2: int,
    )
        requires
            self.in_bounds(du1, cp1, ve1, mm1, mn1, wn1),
            self.in_bounds(du2, cp2, ve2, mm2, mn2, wn2),
            self.idx(du1, cp1, ve1, mm1, mn1, wn1) == self.idx(du2, cp2, ve2, mm2, mn2, wn2),
        ensures
            du1 == du2 && cp1 == cp2 && ve1 == ve2 && mm1 == mm2 && mn1 == mn2 && wn1 == wn2,
    {
        let cpm = self.cp_max();
        let a1 = du1 * (cpm + 1) + cp1;
        let a2 = du2 * (cpm + 1) + cp2;
        lemma_radix(
            ((a1 * 5 + ve1) * 6 + mm1) * 9 + mn1, wn1,
            ((a2 * 5 + ve2) * 6 + mm2) * 9 + mn2, wn2, 9);
        lemma_radix((a1 * 5 + ve1) * 6 + mm1, mn1, (a2 * 5 + ve2) * 6 + mm2, mn2, 9);
        lemma_radix(a1 * 5 + ve1, mm1, a2 * 5 + ve2, mm2, 6);
        lemma_radix(a1, ve1, a2, ve2, 5);
        lemma_radix(du1, cp1, du2, cp2, cpm + 1);
    }

    /// Flat offset of an in-range coordinate.
    fn index_of(&self, du: u16, cp: i32, ve: u8, mm: u8, mn: u8, wn: u8) -> (r: usize)
        requires
            self.wf(),
            self.in_bounds(du as int, cp as int, ve as int, mm as int, mn as int, wn as int),
        ensures
            r == self.idx(du as int, cp as int, ve as int, mm as int, mn as int, wn as int),
            r < self.results@.len(),
    {
        proof {
            self.lemma_idx_bounds(du as int, cp as int, ve as int, mm as int, mn as int, wn as int);
            assert(((du as int * (self.cp_max() + 1) + cp) * 5 + ve) * 6 + mm >= 0) by (nonlinear_arith)
                requires du >= 0 && cp >= 0 && ve >= 0 && mm >= 0 && self.cp_max() >= 0;
            assert((((du as int * (self.cp_max() + 1) + cp) * 5 + ve) * 6 + mm) * 9 + mn >= 0)
                by (nonlinear_arith)
                requires ((du as int * (self.cp_max() + 1) + cp) * 5 + ve) * 6 + mm >= 0 && mn >= 0;
        }
        let cpw: usize = self.init_status.attributes.craft_points as usize + 1;
        let a: usize = du as usize * cpw + cp as usize;
        ((((a * 5 + ve as usize) * 6 + mm as usize) * 9 + mn as usize) * 9 + wn as usize)
    }

    /// A fresh driver for the given base state: the table is allocated at
    /// its full dimensions and holds only base-case entries.
    pub fn new(s: &CraftState) -> (r: Self)
        requires
            status_wf(*s),
            s.condition != Condition::Primed,
            (s.recipe.durability + 1) * (s.attributes.craft_points + 1) * 2430 <= usize::MAX,
        ensures
            r.wf(),
            r.init_status == *s,
            forall|j: int| 0 <= j < r.results@.len() ==> r.results@[j] == default_slot(),
    {
        let du1: usize = s.recipe.durability as usize + 1;
        let cp1: usize = s.attributes.craft_points as usize + 1;
        assert(du1 * cp1 * 2430 <= usize::MAX) by (nonlinear_arith)
            requires
                du1 == s.recipe.durability + 1,
                cp1 == s.attributes.craft_points + 1,
                (s.recipe.durability + 1) * (s.attributes.craft_points + 1) * 2430 <= usize::MAX;
        assert(du1 * cp1 <= du1 * cp1 * 2430) by (nonlinear_arith)
            requires du1 >= 1 && cp1 >= 1;
        let t: usize = du1 * cp1 * 2430;
        let mut v: Vec<DriverSlot> = Vec::new();
        let mut i: usize = 0;
        while i < t
            invariant
                i <= t,
                v@.len() == i,
                forall|j: int| 0 <= j < i ==> v@[j] == default_slot(),
            decreases t - i,
        {
            v.push(DriverSlot { progress: 0, step: 0, skill: None });
            i += 1;
        }
        Driver { init_status: *s, results: v }
    }

    /// Tabulates the allowed progress actions: craft points ascending, then
    /// durability ascending from one, then every timer combination; for each
    /// probe state every legal candidate is applied, its worth taken from
    /// its own cast plus the successor's already-tabulated entry (final once
    /// the durability is exhausted), capped at the difficulty, and the entry
    /// keeps the best candidate under the tie-break order.
    pub fn init(&mut self, allowed: &Vec<Action>)
        requires
            old(self).wf(),
            forall|j: int| 0 <= j < old(self).results@.len()
                ==> old(self).results@[j] == default_slot(),
        ensures
            final(self).wf(),
            final(self).init_status == old(self).init_status,
            final(self).table_ok(allowed@),
    {
        let dum: u16 = self.init_status.recipe.durability;
        let cpm: i32 = self.init_status.attributes.craft_points;
        let diff: u16 = self.init_status.recipe.difficulty;
        proof {
            assert forall|du: int, cp: int, ve: int, mm: int, mn: int, wn: int|
                self.in_bounds(du, cp, ve, mm, mn, wn)
                implies self.slot_at(du, cp, ve, mm, mn, wn) == default_slot() by {
                self.lemma_idx_bounds(du, cp, ve, mm, mn, wn);
            }
        }
        let mut cp: i32 = 0;
        while cp <= cpm
            invariant
                self.wf(),
                self.init_status == old(self).init_status,
                dum == self.du_max(), cpm == self.cp_max(), diff == self.init_status.recipe.difficulty,
                0 <= cp <= cpm + 1,
                self.scanned(allowed@, cp as int, 1, 0, 0, 0, 0),
            decreases cpm - cp + 1,
        {
            let mut du: u32 = 1;
            while du <= dum as u32
                invariant
                    self.wf(),
                    self.init_status == old(self).init_status,
                    dum == self.du_max(), cpm == self.cp_max(),
                    diff == self.init_status.recipe.difficulty,
                    0 <= cp <= cpm, 1 <= du <= dum + 1,
                    self.scanned(allowed@, cp as int, du as int, 0, 0, 0, 0),
                decreases dum + 1 - du,
            {
                let mut ve: u8 = 0;
                while ve <= 4
                    invariant
                        self.wf(),
                        self.init_status == old(self).init_status,
                        dum == self.du_max(), cpm == self.cp_max(),
                        diff == self.init_status.recipe.difficulty,
                        0 <= cp <= cpm, 1 <= du <= dum, ve <= 5,
                        self.scanned(allowed@, cp as int, du as int, ve as int, 0, 0, 0),
                    decreases 5 - ve,
                {
                    let mut mm: u8 = 0;
                    while mm <= 5
                        invariant
                            self.wf(),
                            self.init_status == old(self).init_status,
                            dum == self.du_max(), cpm == self.cp_max(),
                            diff == self.init_status.recipe.difficulty,
                            0 <= cp <= cpm, 1 <= du <= dum, ve <= 4, mm <= 6,
                            self.scanned(allowed@, cp as int, du as int, ve as int, mm as int, 0, 0),
                        decreases 6 - mm,
                    {
                        let mut mn: u8 = 0;
                        while mn <= 8
                            invariant
                                self.wf(),
                                self.init_status == old(self).init_status,
                                dum == self.du_max(), cpm == self.cp_max(),
                                diff == self.init_status.recipe.difficulty,
                                0 <= cp <= cpm, 1 <= du <= dum, ve <= 4, mm <= 5, mn <= 9,
                                self.scanned(
                                    allowed@, cp as int, du as int, ve as int, mm as int,
                                    mn as int, 0),
                            decreases 9 - mn,
                        {
                            let mut wn: u8 = 0;
                            while wn <= 8
                                invariant
                                    self.wf(),
                                    self.init_status == old(self).init_status,
                                    dum == self.du_max(), cpm == self.cp_max(),
                                    diff == self.init_status.recipe.difficulty,
                                    0 <= cp <= cpm, 1 <= du <= dum, ve <= 4, mm <= 5, mn <= 8,
                                    wn <= 9,
                                    self.scanned(
                                        allowed@, cp as int, du as int, ve as int, mm as int,
                                        mn as int, wn as int),
                                decreases 9 - wn,
                            {
                                self.scan_coord(allowed, du as u16, cp, ve, mm, mn, wn);
                                wn += 1;
                            }
                            mn += 1;
                        }
                        mm += 1;
                    }
                    ve += 1;
                }
                du += 1;
            }
            cp += 1;
        }
        proof {
            assert(self.scanned(allowed@, cpm + 1 as int, 1, 0, 0, 0, 0));
        }
    }

    /// Scans all allowed candidates at one coordinate and finalizes its
    /// entry.
    fn scan_coord(&mut self, allowed: &Vec<Action>, du: u16, cp: i32, ve: u8, mm: u8, mn: u8, wn: u8)
        requires
            old(self).wf(),
            1 <= du <= old(self).du_max(),
            0 <= cp <= old(self).cp_max(),
            ve <= 4, mm <= 5, mn <= 8, wn <= 8,
            old(self).scanned(
                allowed@, cp as int, du as int, ve as int, mm as int, mn as int, wn as int),
        ensures
            final(self).wf(),
            final(self).init_status == old(self).init_status,
            final(self).scanned(
                allowed@, cp as int, du as int, ve as int, mm as int, mn as int, wn as int + 1),
    {
        let ghost gdu = du as int;
        let ghost gcp = cp as int;
        let ghost gve = ve as int;
        let ghost gmm = mm as int;
        let ghost gmn = mn as int;
        let ghost gwn = wn as int;
        let diff: u16 = self.init_status.recipe.difficulty;
        let i: usize = self.index_of(du, cp, ve, mm, mn, wn);
        let ps = CraftState {
            durability: du,
            craft_points: cp,
            buffs: Buffs {
                veneration: ve,
                muscle_memory: mm,
                manipulation: mn,
                wast_not: wn,
                ..self.init_status.buffs
            },
            ..self.init_status
        };
        proof {
            assert(ps == self.probe(gdu, gcp, gve, gmm, gmn, gwn));
            assert(self.slot_at(gdu, gcp, gve, gmm, gmn, gwn) == default_slot());
        }
        let ghost t0 = self.results@;
        let mut k: usize = 0;
        while k < allowed.len()
            invariant
                self.wf(),
                self.init_status == old(self).init_status,
                diff == self.init_status.recipe.difficulty,
                i == self.idx(gdu, gcp, gve, gmm, gmn, gwn), i < self.results@.len(),
                ps == self.probe(gdu, gcp, gve, gmm, gmn, gwn),
                k <= allowed.len(),
                self.results@.len() == t0.len(),
                forall|j: int| 0 <= j < t0.len() && j != i ==> self.results@[j] == t0[j],
                ({
                    let sl = self.results@[i as int];
                    &&& (sl.skill is None ==> sl == default_slot())
                    &&& (sl.skill matches Some(a) ==> allowed@.contains(a)
                        && legal_of(ps, code_of(a)) && sl.step >= 1)
                    &&& (sl.skill matches Some(a)
                        ==> self.chosen_exact(gdu, gcp, gve, gmm, gmn, gwn, a))
                    &&& sl.progress <= diff
                    &&& (forall|t: int| 0 <= t < k as int
                        ==> one_shot_dominated(sl, ps, #[trigger] allowed@[t]))
                    &&& (forall|t: int| 0 <= t < k as int
                        ==> self.cand_dominated(gdu, gcp, gve, gmm, gmn, gwn, #[trigger] allowed@[t]))
                }),
            decreases allowed.len() - k,
        {
            let a = allowed[k];
            let code = action_code(a);
            proof {
                lemma_code_range(a);
                assert(cast_margins(ps));
                assert(buffs_bounded(ps.buffs));
            }
            let ghost prev = self.results@[i as int];
            let (ok, ns) = engine_step(&ps, code);
            if ok {
                let mut p: u16 = ns.progress;
                let mut st: u8 = 1;
                if ns.durability > 0 {
                    let j = self.index_of(
                        ns.durability, ns.craft_points, ns.buffs.veneration,
                        ns.buffs.muscle_memory, ns.buffs.manipulation, ns.buffs.wast_not);
                    let nxt = self.results[j];
                    let sum: u32 = p as u32 + nxt.progress as u32;
                    p = if sum > diff as u32 { diff } else { sum as u16 };
                    let ssum: u16 = st as u16 + nxt.step as u16;
                    st = if ssum > 255 { 255 } else { ssum as u8 };
                }
                let cur = self.results[i];
                if p > cur.progress || (p == cur.progress && st < cur.step) {
                    self.results[i] = DriverSlot { progress: p, step: st, skill: Some(a) };
                }
                proof {
                    assert(allowed@.contains(a)) by {
                        assert(allowed@[k as int] == a);
                    }
                    let now = self.results@[i as int];
                    assert(d_beats(now, p as int, st as int));
                    if now.skill == Some(a) && now == (DriverSlot { progress: p, step: st, skill: Some(a) }) {
                        assert(self.chosen_exact(gdu, gcp, gve, gmm, gmn, gwn, a)) by {
                            if ns.durability >= 1 && self.state_in_bounds(ns)
                                && lex6(
                                    ns.craft_points as int, ns.durability as int,
                                    ns.buffs.veneration as int, ns.buffs.muscle_memory as int,
                                    ns.buffs.manipulation as int, ns.buffs.wast_not as int,
                                    gcp, gdu, gve, gmm, gmn, gwn) {
                                if self.idx(
                                    ns.durability as int, ns.craft_points as int,
                                    ns.buffs.veneration as int, ns.buffs.muscle_memory as int,
                                    ns.buffs.manipulation as int, ns.buffs.wast_not as int)
                                    == i as int {
                                    self.lemma_idx_injective(
                                        ns.durability as int, ns.craft_points as int,
                                        ns.buffs.veneration as int, ns.buffs.muscle_memory as int,
                                        ns.buffs.manipulation as int, ns.buffs.wast_not as int,
                                        gdu, gcp, gve, gmm, gmn, gwn);
                                }
                                self.lemma_idx_bounds(
                                    ns.durability as int, ns.craft_points as int,
                                    ns.buffs.veneration as int, ns.buffs.muscle_memory as int,
                                    ns.buffs.manipulation as int, ns.buffs.wast_not as int);
                            }
                        }
                    }
                    assert forall|t: int| 0 <= t < k as int + 1
                        implies one_shot_dominated(now, ps, #[trigger] allowed@[t]) by {
                        assert(one_shot_dominated(prev, ps, allowed@[t]) || t == k as int);
                    }
                    assert forall|t: int| 0 <= t < k as int + 1
                        implies self.cand_dominated(
                            gdu, gcp, gve, gmm, gmn, gwn, #[trigger] allowed@[t]) by {
                        let ct = code_of(allowed@[t]);
                        let nst = apply_of(ps, ct);
                        if legal_of(ps, ct) && nst.durability >= 1 && self.state_in_bounds(nst)
                            && lex6(
                                nst.craft_points as int, nst.durability as int,
                                nst.buffs.veneration as int, nst.buffs.muscle_memory as int,
                                nst.buffs.manipulation as int, nst.buffs.wast_not as int,
                                gcp, gdu, gve, gmm, gmn, gwn) {
                            if self.idx(
                                nst.durability as int, nst.craft_points as int,
                                nst.buffs.veneration as int, nst.buffs.muscle_memory as int,
                                nst.buffs.manipulation as int, nst.buffs.wast_not as int)
                                == i as int {
                                self.lemma_idx_injective(
                                    nst.durability as int, nst.craft_points as int,
                                    nst.buffs.veneration as int, nst.buffs.muscle_memory as int,
                                    nst.buffs.manipulation as int, nst.buffs.wast_not as int,
                                    gdu, gcp, gve, gmm, gmn, gwn);
                            }
                            self.lemma_idx_bounds(
                                nst.durability as int, nst.craft_points as int,
                                nst.buffs.veneration as int, nst.buffs.muscle_memory as int,
                                nst.buffs.manipulation as int, nst.buffs.wast_not as int);
                            if t == k as int {
                                assert(nst == ns);
                                assert(self.cand_q(nst) == p as int);
                                assert(self.cand_st(nst) == st as int);
                            } else {
                                assert(d_beats(prev, self.cand_q(nst), self.cand_st(nst)));
                                assert(d_beats(now, prev.progress as int, prev.step as int));
                            }
                        }
                    }
                }
            } else {
                proof {
                    assert forall|t: int| 0 <= t < k as int + 1
                        implies one_shot_dominated(
                            self.results@[i as int], ps, #[trigger] allowed@[t]) by {
                        assert(one_shot_dominated(prev, ps, allowed@[t]) || t == k as int);
                    }
                    assert forall|t: int| 0 <= t < k as int + 1
                        implies self.cand_dominated(
                            gdu, gcp, gve, gmm, gmn, gwn, #[trigger] allowed@[t]) by {
                        assert(self.cand_dominated(gdu, gcp, gve, gmm, gmn, gwn, allowed@[t])
                            || t == k as int);
                    }
                }
            }
            k += 1;
        }
        proof {
            let sl = self.results@[i as int];
            assert(self.slot_ok(allowed@, gdu, gcp, gve, gmm, gmn, gwn));
            assert forall|du2: int, cp2: int, ve2: int, mm2: int, mn2: int, wn2: int|
                self.in_bounds(du2, cp2, ve2, mm2, mn2, wn2)
                implies {
                    if du2 >= 1 && lex6(cp2, du2, ve2, mm2, mn2, wn2, gcp, gdu, gve, gmm, gmn,
                        gwn + 1) {
                        self.slot_ok(allowed@, du2, cp2, ve2, mm2, mn2, wn2)
                    } else {
                        self.slot_at(du2, cp2, ve2, mm2, mn2, wn2) == default_slot()
                    }
                } by {
                if du2 == gdu && cp2 == gcp && ve2 == gve && mm2 == gmm && mn2 == gmn
                    && wn2 == gwn {
                } else {
                    if self.idx(du2, cp2, ve2, mm2, mn2, wn2) == i as int {
                        self.lemma_idx_injective(du2, cp2, ve2, mm2, mn2, wn2, gdu, gcp, gve,
                            gmm, gmn, gwn);
                    }
                    self.lemma_idx_bounds(du2, cp2, ve2, mm2, mn2, wn2);
                    assert(self.slot_at(du2, cp2, ve2, mm2, mn2, wn2)
                        == old(self).slot_at(du2, cp2, ve2, mm2, mn2, wn2));
                    if du2 >= 1 && lex6(cp2, du2, ve2, mm2, mn2, wn2, gcp, gdu, gve, gmm, gmn,
                        gwn) {
                        assert forall|a2: int, b2: int, c2: int, d2: int, e2: int, f2: int|
                            old(self).in_bounds(a2, b2, c2, d2, e2, f2)
                                && lex6(b2, a2, c2, d2, e2, f2, cp2, du2, ve2, mm2, mn2, wn2)
                            implies #[trigger] self.idx(a2, b2, c2, d2, e2, f2) != i as int by {
                            if self.idx(a2, b2, c2, d2, e2, f2) == i as int {
                                self.lemma_idx_injective(
                                    a2, b2, c2, d2, e2, f2, gdu, gcp, gve, gmm, gmn, gwn);
                            }
                        }
                        self.same_slot_ok(*old(self), allowed@, du2, cp2, ve2, mm2, mn2, wn2, i as int);
                    }
                }
            }
        }
    }
    /// A coordinate whose entry and whose lex-earlier entries are untouched
    /// keeps its finished-entry property.
    proof fn same_slot_ok(
        self, older: Self, allowed: Seq<Action>,
        du: int, cp: int, ve: int, mm: int, mn: int, wn: int, wi: int,
    )
        requires
            self.init_status == older.init_status,
            self.results@.len() == older.results@.len(),
            older.wf(),
            self.wf(),
            older.in_bounds(du, cp, ve, mm, mn, wn),
            older.slot_ok(allowed, du, cp, ve, mm, mn, wn),
            forall|j: int| 0 <= j < older.results@.len() && j != wi
                ==> self.results@[j] == older.results@[j],
            self.idx(du, cp, ve, mm, mn, wn) != wi,
            forall|du2: int, cp2: int, ve2: int, mm2: int, mn2: int, wn2: int|
                older.in_bounds(du2, cp2, ve2, mm2, mn2, wn2)
                    && lex6(cp2, du2, ve2, mm2, mn2, wn2, cp, du, ve, mm, mn, wn)
                ==> #[trigger] self.idx(du2, cp2, ve2, mm2, mn2, wn2) != wi,
        ensures
            self.slot_ok(allowed, du, cp, ve, mm, mn, wn),
    {
        self.lemma_idx_bounds(du, cp, ve, mm, mn, wn);
        if let Option::Some(a) = self.slot_at(du, cp, ve, mm, mn, wn).skill {
            let ps = self.probe(du, cp, ve, mm, mn, wn);
            let ns = apply_of(ps, code_of(a));
            if ns.durability >= 1 && self.state_in_bounds(ns)
                && lex6(
                    ns.craft_points as int, ns.durability as int, ns.buffs.veneration as int,
                    ns.buffs.muscle_memory as int, ns.buffs.manipulation as int,
                    ns.buffs.wast_not as int, cp, du, ve, mm, mn, wn) {
                assert(self.idx(
                    ns.durability as int, ns.craft_points as int, ns.buffs.veneration as int,
                    ns.buffs.muscle_memory as int, ns.buffs.manipulation as int,
                    ns.buffs.wast_not as int) != wi);
                self.lemma_idx_bounds(
                    ns.durability as int, ns.craft_points as int, ns.buffs.veneration as int,
                    ns.buffs.muscle_memory as int, ns.buffs.manipulation as int,
                    ns.buffs.wast_not as int);
            }
            assert(self.chosen_exact(du, cp, ve, mm, mn, wn, a));
        }
        assert forall|t: int| 0 <= t < allowed.len()
            implies self.cand_dominated(du, cp, ve, mm, mn, wn, #[trigger] allowed[t]) by {
            let ps = self.probe(du, cp, ve, mm, mn, wn);
            let ct = code_of(allowed[t]);
            let nst = apply_of(ps, ct);
            if legal_of(ps, ct) && nst.durability >= 1 && self.state_in_bounds(nst)
                && lex6(
                    nst.craft_points as int, nst.durability as int,
                    nst.buffs.veneration as int, nst.buffs.muscle_memory as int,
                    nst.buffs.manipulation as int, nst.buffs.wast_not as int,
                    cp, du, ve, mm, mn, wn) {
                assert(self.idx(
                    nst.durability as int, nst.craft_points as int,
                    nst.buffs.veneration as int, nst.buffs.muscle_memory as int,
                    nst.buffs.manipulation as int, nst.buffs.wast_not as int) != wi);
                self.lemma_idx_bounds(
                    nst.durability as int, nst.craft_points as int,
                    nst.buffs.veneration as int, nst.buffs.muscle_memory as int,
                    nst.buffs.manipulation as int, nst.buffs.wast_not as int);
            }
        }
    }

    /// Each phase-one step keeps the running best: the value never drops,
    /// the step count never grows, and any adopted allocation lies in the
    /// scanned durability range at the scanned craft point level.
    proof fn lemma_scan_du_bounds(
        self, s: CraftState, cap: int, cp: int, n: int, best: ((int, int), (int, int)),
    )
        ensures
            ({
                let r = self.scan_du(s, cap, cp, n, best);
                r.0.0 >= best.0.0 && r.0.1 <= best.0.1
                    && (r == best || (r.1.0 == cp && 1 <= r.1.1 <= n))
            }),
        decreases n,
    {
        if n > 0 {
            self.lemma_scan_du_bounds(s, cap, cp, n - 1, best);
        }
    }

    /// As the previous lemma, over whole craft point levels.
    proof fn lemma_scan_cp_bounds(
        self, s: CraftState, cap: int, n: int, best: ((int, int), (int, int)),
    )
        ensures
            ({
                let r = self.scan_cp(s, cap, n, best);
                r.0.0 >= best.0.0 && r.0.1 <= best.0.1
                    && (r == best || (0 <= r.1.0 < n && 1 <= r.1.1 <= s.durability))
            }),
        decreases n,
    {
        if n > 0 {
            self.lemma_scan_cp_bounds(s, cap, n - 1, best);
            self.lemma_scan_du_bounds(
                s, cap, n - 1, s.durability as int, self.scan_cp(s, cap, n - 1, best));
        }
    }

    /// Phase one never allocates more than the query state holds, and never
    /// settles for a worse outcome than the state's own entry: at least the
    /// same capped value, in no more steps.
    pub proof fn lemma_phase1_within_budget(self, s: CraftState, cap: int)
        requires
            s.craft_points >= 0,
        ensures
            ({
                let b = self.phase1(s, cap);
                &&& 0 <= b.1.0 <= s.craft_points
                &&& b.1.1 <= s.durability
                &&& b.0.0 >= Self::cap_min(self.slot_of(s).progress as int, cap)
                &&& b.0.1 <= self.slot_of(s).step
            }),
    {
        let seed = ((Self::cap_min(self.slot_of(s).progress as int, cap),
            self.slot_of(s).step as int), (s.craft_points as int, s.durability as int));
        self.lemma_scan_cp_bounds(s, cap, s.craft_points + 1, seed);
    }

    /// Each step of the durability scan keeps every already-scanned pair
    /// beaten: the running best's value never drops and its step count
    /// never grows, so a pair that failed earlier still fails at the end.
    proof fn lemma_scan_du_optimal(
        self, s: CraftState, cap: int, cp: int, n: int, best: ((int, int), (int, int)),
    )
        ensures
            ({
                let r = self.scan_du(s, cap, cp, n, best);
                forall|du: int| 1 <= du <= n ==> ({
                    let sl = #[trigger] self.slot_at(
                        du, cp, s.buffs.veneration as int, s.buffs.muscle_memory as int,
                        s.buffs.manipulation as int, s.buffs.wast_not as int);
                    !(Self::cap_min(sl.progress as int, cap) >= r.0.0 && (sl.step as int) < r.0.1)
                })
            }),
        decreases n,
    {
        if n > 0 {
            self.lemma_scan_du_optimal(s, cap, cp, n - 1, best);
        }
    }

    /// As the previous lemma, across whole craft point levels.
    proof fn lemma_scan_cp_optimal(
        self, s: CraftState, cap: int, n: int, best: ((int, int), (int, int)),
    )
        ensures
            ({
                let r = self.scan_cp(s, cap, n, best);
                forall|cp: int, du: int| 0 <= cp < n && 1 <= du <= s.durability ==> ({
                    let sl = #[trigger] self.slot_at(
                        du, cp, s.buffs.veneration as int, s.buffs.muscle_memory as int,
                        s.buffs.manipulation as int, s.buffs.wast_not as int);
                    !(Self::cap_min(sl.progress as int, cap) >= r.0.0 && (sl.step as int) < r.0.1)
                })
            }),
        decreases n,
    {
        if n > 0 {
            self.lemma_scan_cp_optimal(s, cap, n - 1, best);
            let prev = self.scan_cp(s, cap, n - 1, best);
            self.lemma_scan_du_optimal(s, cap, n - 1, s.durability as int, prev);
            self.lemma_scan_du_bounds(s, cap, n - 1, s.durability as int, prev);
        }
    }

    /// No scanned allocation beats the plan: across every craft point level
    /// up to the query's and every durability from one up to the query's,
    /// no entry offers at least the chosen capped value in strictly fewer
    /// steps.
    pub proof fn lemma_phase1_optimal(self, s: CraftState, cap: int)
        requires
            s.craft_points >= 0,
        ensures
            ({
                let b = self.phase1(s, cap);
                forall|cp: int, du: int| 0 <= cp <= s.craft_points && 1 <= du <= s.durability
                    ==> ({
                        let sl = #[trigger] self.slot_at(
                            du, cp, s.buffs.veneration as int, s.buffs.muscle_memory as int,
                            s.buffs.manipulation as int, s.buffs.wast_not as int);
                        !(Self::cap_min(sl.progress as int, cap) >= b.0.0
                            && (sl.step as int) < b.0.1)
                    })
            }),
    {
        let seed = ((Self::cap_min(self.slot_of(s).progress as int, cap),
            self.slot_of(s).step as int), (s.craft_points as int, s.durability as int));
        self.lemma_scan_cp_optimal(s, cap, s.craft_points + 1, seed);
    }

    /// Direct table lookup by the state's six reduced coordinates.
    pub fn read(&self, s: &CraftState) -> (r: (u16, u8, Option<Action>))
        requires
            self.wf(),
            self.state_in_bounds(*s),
        ensures
            r.0 == self.slot_of(*s).progress,
            r.1 == self.slot_of(*s).step,
            r.2 == self.slot_of(*s).skill,
    {
        let i = self.index_of(
            s.durability, s.craft_points, s.buffs.veneration, s.buffs.muscle_memory,
            s.buffs.manipulation, s.buffs.wast_not);
        let sl = self.results[i];
        (sl.progress, sl.step, sl.skill)
    }

    /// Executable twin of `state_in_bounds`.
    pub(crate) fn in_bounds_exec(&self, s: &CraftState) -> (r: bool)
        ensures
            r == self.state_in_bounds(*s),
    {
        s.durability <= self.init_status.recipe.durability
            && 0 <= s.craft_points && s.craft_points <= self.init_status.attributes.craft_points
            && s.buffs.veneration <= 4 && s.buffs.muscle_memory <= 5
            && s.buffs.manipulation <= 8 && s.buffs.wast_not <= 8
    }

    /// The smaller of a table value and the remaining need.
    pub open spec fn cap_min(a: int, b: int) -> int {
        if a <= b { a } else { b }
    }

    /// Phase-one scan over durability 1..=n at one craft point level,
    /// holding the non-resource coordinates at the query state's.
    pub open spec fn scan_du(
        self, s: CraftState, cap: int, cp: int, n: int, best: ((int, int), (int, int)),
    ) -> ((int, int), (int, int))
        decreases n,
    {
        if n <= 0 {
            best
        } else {
            let prev = self.scan_du(s, cap, cp, n - 1, best);
            let sl = self.slot_at(
                n, cp, s.buffs.veneration as int, s.buffs.muscle_memory as int,
                s.buffs.manipulation as int, s.buffs.wast_not as int);
            let q = Self::cap_min(sl.progress as int, cap);
            if q >= prev.0.0 && (sl.step as int) < prev.0.1 {
                ((q, sl.step as int), (cp, n))
            } else {
                prev
            }
        }
    }

    /// Phase-one scan over craft points 0..n, each with the full durability
    /// range.
    pub open spec fn scan_cp(
        self, s: CraftState, cap: int, n: int, best: ((int, int), (int, int)),
    ) -> ((int, int), (int, int))
        decreases n,
    {
        if n <= 0 {
            best
        } else {
            self.scan_du(s, cap, n - 1, s.durability as int, self.scan_cp(s, cap, n - 1, best))
        }
    }

    /// The resource allocation phase one settles on: seeded with the query
    /// state's own entry, then the least resource-hungry allocation whose
    /// capped value is no worse and whose step count is strictly smaller.
    pub open spec fn phase1(self, s: CraftState, cap: int) -> ((int, int), (int, int)) {
        self.scan_cp(
            s, cap, s.craft_points + 1,
            ((Self::cap_min(self.slot_of(s).progress as int, cap), self.slot_of(s).step as int),
            (s.craft_points as int, s.durability as int)),
        )
    }

    /// Phase-two playback: follow the chosen entries, applying each named
    /// action to a working state, until a sentinel entry, a state outside
    /// the table, a cast the engine's arithmetic could not take, or the
    /// fuel bound.
    pub open spec fn playback(self, st: CraftState, fuel: int) -> (CraftState, Seq<Action>)
        decreases fuel,
    {
        if fuel <= 0 || !self.state_in_bounds(st) {
            (st, Seq::<Action>::empty())
        } else {
            let sl = self.slot_of(st);
            match sl.skill {
                Option::None => (st, Seq::<Action>::empty()),
                Option::Some(a) => {
                    if !cast_ok(st, code_of(a)) {
                        (st, Seq::<Action>::empty())
                    } else {
                        let rec = self.playback(apply_of(st, code_of(a)), fuel - 1);
                        (rec.0, seq![a] + rec.1)
                    }
                },
            }
        }
    }

    /// What the two-phase read-out returns on a query state: the final
    /// working progress and the replayed action list.
    pub open spec fn read_all_spec(self, s: CraftState) -> (CraftState, Seq<Action>) {
        let cap = s.recipe.difficulty - s.progress;
        let best = self.phase1(s, cap as int);
        let start = CraftState {
            craft_points: best.1.0 as i32,
            durability: best.1.1 as u16,
            ..s
        };
        self.playback(start, PLAYBACK_FUEL as int)
    }

    /// Two-phase read-out: find the cheapest resource allocation reaching
    /// the best capped value in the fewest steps, then greedily replay the
    /// table from it.
    pub fn read_all(&self, s: &CraftState) -> (r: (u16, Vec<Action>))
        requires
            self.wf(),
            self.state_in_bounds(*s),
            s.progress <= s.recipe.difficulty,
        ensures
            r.0 == self.read_all_spec(*s).0.progress,
            r.1@ == self.read_all_spec(*s).1,
            r.0 <= s.recipe.difficulty,
    {
        let cap: u16 = s.recipe.difficulty - s.progress;
        let (p0, st0, _sk0) = self.read(s);
        let mut bq: u16 = if p0 > cap { cap } else { p0 };
        let mut bst: u8 = st0;
        let mut bcp: i32 = s.craft_points;
        let mut bdu: u16 = s.durability;
        let ghost best0 = ((bq as int, bst as int), (bcp as int, bdu as int));
        let mut cp: i32 = 0;
        while cp <= s.craft_points
            invariant
                self.wf(),
                self.state_in_bounds(*s),
                cap == s.recipe.difficulty - s.progress,
                0 <= cp <= s.craft_points + 1,
                best0 == self.scan_cp(*s, cap as int, 0, best0),
                ((bq as int, bst as int), (bcp as int, bdu as int))
                    == self.scan_cp(*s, cap as int, cp as int, best0),
            decreases s.craft_points - cp + 1,
        {
            let mut du: u32 = 1;
            while du <= s.durability as u32
                invariant
                    self.wf(),
                    self.state_in_bounds(*s),
                    cap == s.recipe.difficulty - s.progress,
                    0 <= cp <= s.craft_points,
                    1 <= du <= s.durability + 1,
                    ((bq as int, bst as int), (bcp as int, bdu as int))
                        == self.scan_du(
                            *s, cap as int, cp as int, du as int - 1,
                            self.scan_cp(*s, cap as int, cp as int, best0)),
                decreases s.durability + 1 - du,
            {
                let i = self.index_of(
                    du as u16, cp, s.buffs.veneration, s.buffs.muscle_memory,
                    s.buffs.manipulation, s.buffs.wast_not);
                let sl = self.results[i];
                let q: u16 = if sl.progress > cap { cap } else { sl.progress };
                if q >= bq && sl.step < bst {
                    bq = q;
                    bst = sl.step;
                    bcp = cp;
                    bdu = du as u16;
                }
                du += 1;
            }
            cp += 1;
        }
        let mut cur = CraftState { craft_points: bcp, durability: bdu, ..*s };
        let ghost target = self.playback(cur, PLAYBACK_FUEL as int);
        proof {
            assert(target == self.read_all_spec(*s));
        }
        let mut list: Vec<Action> = Vec::new();
        let mut fuel: usize = PLAYBACK_FUEL;
        while fuel > 0
            invariant
                self.wf(),
                fuel <= PLAYBACK_FUEL,
                cur.recipe == s.recipe,
                cur.progress <= s.recipe.difficulty,
                ({
                    let rem = self.playback(cur, fuel as int);
                    target.0 == rem.0 && target.1 == list@ + rem.1
                }),
            decreases fuel,
        {
            if !self.in_bounds_exec(&cur) {
                proof {
                    assert(list@ + self.playback(cur, fuel as int).1 =~= list@);
                }
                return (cur.progress, list);
            }
            let (_p, _st, sk) = self.read(&cur);
            match sk {
                None => {
                    proof {
                        assert(list@ + self.playback(cur, fuel as int).1 =~= list@);
                    }
                    return (cur.progress, list);
                },
                Some(a) => {
                    let code = action_code(a);
                    proof {
                        lemma_code_range(a);
                    }
                    if !cast_ok_exec(&cur, code) {
                        proof {
                            assert(list@ + self.playback(cur, fuel as int).1 =~= list@);
                        }
                        return (cur.progress, list);
                    }
                    let ghost old_list = list@;
                    let ghost old_cur = cur;
                    let ghost old_fuel = fuel as int;
                    cur = engine_cast(&cur, code);
                    list.push(a);
                    fuel -= 1;
                    proof {
                        let rec = self.playback(cur, fuel as int);
                        assert(self.playback(old_cur, old_fuel).1 == seq![a] + rec.1);
                        assert(old_list + (seq![a] + rec.1) =~= list@ + rec.1);
                    }
                },
            }
        }
        proof {
            assert(list@ + self.playback(cur, 0).1 =~= list@);
        }
        (cur.progress, list)
    }
}

} // verus!
