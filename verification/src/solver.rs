//! Quality dynamic programming over a reduced crafting state, consulting
//! the driver so that every kept action choice still permits finishing the
//! craft.
//!
//! The tabulation is structurally the driver's, over its own six
//! coordinates; acceptance differs: a candidate's successor is considered
//! only when the driver reports that full progress is still reachable from
//! it.  The read-out is the shared two-phase algorithm, and once the
//! solver's own playback ends, the remaining work is handed to the driver's.

use vstd::prelude::*;
use crate::engine::action_code;
use crate::engine::apply_of;
use crate::engine::buffs_bounded;
use crate::engine::cast_margins;
use crate::engine::cast_ok;
use crate::engine::cast_ok_exec;
use crate::engine::code_of;
use crate::engine::engine_cast;
use crate::engine::engine_step;
use crate::engine::legal_of;
use crate::engine::lemma_code_range;
use crate::engine::Action;
use crate::engine::Buffs;
use crate::engine::CraftState;
use crate::driver::lemma_pair_bound;
use crate::driver::lemma_radix;
use crate::driver::lex6;
use crate::driver::Driver;
use crate::driver::PLAYBACK_FUEL;

verus! {

/// One solver table entry.
#[derive(Clone, Copy, PartialEq, Eq, Structural, Debug)]
pub struct SolverSlot {
    pub quality: u32,
    pub step: u8,
    pub skill: Option<Action>,
}

/// The base-case entry: nothing gained, no action chosen.
pub open spec fn s_default_slot() -> SolverSlot {
    SolverSlot { quality: 0, step: 0, skill: None }
}

/// `sl` is at least as good as a candidate worth `q` in `st` steps under
/// the tie-break order.
pub open spec fn s_beats(sl: SolverSlot, q: int, st: int) -> bool {
    &&& sl.quality >= q
    &&& (sl.quality == q ==> sl.step <= st)
}

/// Quality table wired to its driver: dense over the reduced state, built
/// once, then read-only.
pub struct Solver {
    pub driver: Driver,
    pub results: Vec<SolverSlot>,
}

impl Solver {
    /// The base state both tables were built from.
    pub open spec fn base(self) -> CraftState {
        self.driver.init_status
    }

    /// Durability dimension ceiling.
    pub open spec fn du_max(self) -> int {
        self.base().recipe.durability as int
    }

    /// Craft point dimension ceiling.
    pub open spec fn cp_max(self) -> int {
        self.base().attributes.craft_points as int
    }

    /// Number of table entries.
    pub open spec fn total(self) -> int {
        (self.du_max() + 1) * (self.cp_max() + 1) * 4455
    }

    /// Flat offset of a reduced state in the table.
    pub open spec fn idx(self, du: int, cp: int, iq: int, iv: int, mn: int, wn: int) -> int {
        ((((du * (self.cp_max() + 1) + cp) * 11 + iq) * 5 + iv) * 9 + mn) * 9 + wn
    }

    /// The reduced-state coordinate ranges.
    pub open spec fn in_bounds(self, du: int, cp: int, iq: int, iv: int, mn: int, wn: int) -> bool {
        &&& 0 <= du <= self.du_max()
        &&& 0 <= cp <= self.cp_max()
        &&& 0 <= iq <= 10
        &&& 0 <= iv <= 4
        &&& 0 <= mn <= 8
        &&& 0 <= wn <= 8
    }

    /// Well-formed solver: a well-formed driver over the same base state and
    /// a fully allocated table.
    pub open spec fn wf(self) -> bool {
        &&& self.driver.wf()
        &&& self.results@.len() == self.total()
        &&& self.total() <= usize::MAX
    }

    /// The entry at a reduced state.
    pub open spec fn slot_at(self, du: int, cp: int, iq: int, iv: int, mn: int, wn: int) -> SolverSlot {
        self.results@[self.idx(du, cp, iq, iv, mn, wn)]
    }

    /// The probe state of a coordinate.
    pub open spec fn probe(self, du: int, cp: int, iq: int, iv: int, mn: int, wn: int) -> CraftState {
        CraftState {
            durability: du as u16,
            craft_points: cp as i32,
            buffs: Buffs {
                inner_quiet: iq as u8,
                innovation: iv as u8,
                manipulation: mn as u8,
                wast_not: wn as u8,
                ..self.base().buffs
            },
            ..self.base()
        }
    }

    /// A state's own reduced coordinates lie inside the table.
    pub open spec fn state_in_bounds(self, s: CraftState) -> bool {
        self.in_bounds(
            s.durability as int,
            s.craft_points as int,
            s.buffs.inner_quiet as int,
            s.buffs.innovation as int,
            s.buffs.manipulation as int,
            s.buffs.wast_not as int,
        )
    }

    /// The entry a state reads.
    pub open spec fn slot_of(self, s: CraftState) -> SolverSlot {
        self.slot_at(
            s.durability as int,
            s.craft_points as int,
            s.buffs.inner_quiet as int,
            s.buffs.innovation as int,
            s.buffs.manipulation as int,
            s.buffs.wast_not as int,
        )
    }

    /// The driver guarantees full progress from this successor state.
    pub open spec fn completes(self, ns: CraftState) -> bool {
        self.driver.slot_of(ns).progress == self.base().recipe.difficulty
    }

    /// A candidate's worth: the successor state's own quality plus the
    /// successor entry's, and one step plus the successor entry's, both
    /// clamped at their machine ceilings.
    pub open spec fn cand_q(self, ns: CraftState) -> int {
        let sum = ns.quality + self.slot_of(ns).quality;
        if sum > u32::MAX { u32::MAX as int } else { sum }
    }

    /// A candidate's step count.
    pub open spec fn cand_st(self, ns: CraftState) -> int {
        let sum = 1 + self.slot_of(ns).step;
        if sum > 255 { 255 } else { sum }
    }

    /// Dominance over a candidate whose successor entry was already final
    /// when the coordinate was tabulated: its worth reads off the finished
    /// table, so the finished entry must be at least as good.
    pub open spec fn cand_dominated(
        self, du: int, cp: int, iq: int, iv: int, mn: int, wn: int, a: Action,
    ) -> bool {
        let ps = self.probe(du, cp, iq, iv, mn, wn);
        let c = code_of(a);
        let ns = apply_of(ps, c);
        (legal_of(ps, c) && self.driver.state_in_bounds(ns) && self.completes(ns)
            && self.state_in_bounds(ns)
            && lex6(
                ns.craft_points as int, ns.durability as int, ns.buffs.inner_quiet as int,
                ns.buffs.innovation as int, ns.buffs.manipulation as int,
                ns.buffs.wast_not as int, cp, du, iq, iv, mn, wn))
            ==> s_beats(self.slot_at(du, cp, iq, iv, mn, wn), self.cand_q(ns), self.cand_st(ns))
    }

    /// A finished entry: the sentinel is the base case; a chosen action is
    /// allowed, legal at the probe, and keeps completion reachable per the
    /// driver; and the entry dominates every candidate whose worth is
    /// already final.
    pub open spec fn slot_ok(
        self, allowed: Seq<Action>, du: int, cp: int, iq: int, iv: int, mn: int, wn: int,
    ) -> bool {
        let sl = self.slot_at(du, cp, iq, iv, mn, wn);
        let ps = self.probe(du, cp, iq, iv, mn, wn);
        &&& (sl.skill is None ==> sl == s_default_slot())
        &&& (sl.skill matches Some(a) ==> allowed.contains(a) && legal_of(ps, code_of(a))
            && self.driver.state_in_bounds(apply_of(ps, code_of(a)))
            && self.completes(apply_of(ps, code_of(a)))
            && sl.step >= 1 && du >= 1)
        &&& (sl.skill matches Some(a) ==> self.chosen_exact(du, cp, iq, iv, mn, wn, a))
        &&& (forall|t: int| 0 <= t < allowed.len()
            ==> self.cand_dominated(du, cp, iq, iv, mn, wn, #[trigger] allowed[t]))
    }

    /// The equality direction: the entry's value and step count are exactly
    /// the chosen action's own candidate worth, wherever that worth reads
    /// off the finished table — a successor whose entry was already final in
    /// tabulation order.
    pub open spec fn chosen_exact(
        self, du: int, cp: int, iq: int, iv: int, mn: int, wn: int, a: Action,
    ) -> bool {
        let sl = self.slot_at(du, cp, iq, iv, mn, wn);
        let ps = self.probe(du, cp, iq, iv, mn, wn);
        let ns = apply_of(ps, code_of(a));
        (self.state_in_bounds(ns)
            && lex6(
                ns.craft_points as int, ns.durability as int, ns.buffs.inner_quiet as int,
                ns.buffs.innovation as int, ns.buffs.manipulation as int,
                ns.buffs.wast_not as int, cp, du, iq, iv, mn, wn))
            ==> sl.quality == self.cand_q(ns) && sl.step == self.cand_st(ns)
    }

    /// Table coordinates already tabulated, in tabulation order, satisfy
    /// `slot_ok`; the rest still hold the base entry.
    pub open spec fn scanned(
        self, allowed: Seq<Action>, bcp: int, bdu: int, biq: int, biv: int, bmn: int, bwn: int,
    ) -> bool {
        forall|du: int, cp: int, iq: int, iv: int, mn: int, wn: int|
            self.in_bounds(du, cp, iq, iv, mn, wn) ==> {
                if du >= 1 && lex6(cp, du, iq, iv, mn, wn, bcp, bdu, biq, biv, bmn, bwn) {
                    self.slot_ok(allowed, du, cp, iq, iv, mn, wn)
                } else {
                    #[trigger] self.slot_at(du, cp, iq, iv, mn, wn) == s_default_slot()
                }
            }
    }

    /// The whole table is tabulated.
    pub open spec fn table_ok(self, allowed: Seq<Action>) -> bool {
        self.scanned(allowed, self.cp_max() + 1, 1, 0, 0, 0, 0)
    }

    /// The offset of an in-range coordinate lies inside the table.
    pub proof fn lemma_idx_bounds(self, du: int, cp: int, iq: int, iv: int, mn: int, wn: int)
        requires
            self.in_bounds(du, cp, iq, iv, mn, wn),
        ensures
            0 <= self.idx(du, cp, iq, iv, mn, wn) < self.total(),
    {
        let cpm = self.cp_max();
        let dum = self.du_max();
        lemma_pair_bound(du, cp, dum, cpm);
        let a = du * (cpm + 1) + cp;
        assert((dum + 1) * (cpm + 1) * 4455 == self.total());
        assert(((((a * 11 + iq) * 5 + iv) * 9 + mn) * 9 + wn) < (a + 1) * 4455) by (nonlinear_arith)
            requires 0 <= iq <= 10 && 0 <= iv <= 4 && 0 <= mn <= 8 && 0 <= wn <= 8;
        assert((a + 1) * 4455 <= (dum + 1) * (cpm + 1) * 4455) by (nonlinear_arith)
            requires a + 1 <= (dum + 1) * (cpm + 1);
        assert(((((a * 11 + iq) * 5 + iv) * 9 + mn) * 9 + wn) >= 0) by (nonlinear_arith)
            requires a >= 0 && 0 <= iq && 0 <= iv && 0 <= mn && 0 <= wn;
    }

    /// Distinct in-range coordinates have distinct offsets.
    pub proof fn lemma_idx_injective(
        self,
        du1: int, cp1: int, iq1: int, iv1: int, mn1: int, wn1: int,
        du2: int, cp2: int, iq2: int, iv2: int, mn2: int, wn2: int,
    )
        requires
            self.in_bounds(du1, cp1, iq1, iv1, mn1, wn1),
            self.in_bounds(du2, cp2, iq2, iv2, mn2, wn2),
            self.idx(du1, cp1, iq1, iv1, mn1, wn1) == self.idx(du2, cp2, iq2, iv2, mn2, wn2),
        ensures
            du1 == du2 && cp1 == cp2 && iq1 == iq2 && iv1 == iv2 && mn1 == mn2 && wn1 == wn2,
    {
        let cpm = self.cp_max();
        let a1 = du1 * (cpm + 1) + cp1;
        let a2 = du2 * (cpm + 1) + cp2;
        lemma_radix(
            ((a1 * 11 + iq1) * 5 + iv1) * 9 + mn1, wn1,
            ((a2 * 11 + iq2) * 5 + iv2) * 9 + mn2, wn2, 9);
        lemma_radix((a1 * 11 + iq1) * 5 + iv1, mn1, (a2 * 11 + iq2) * 5 + iv2, mn2, 9);
        lemma_radix(a1 * 11 + iq1, iv1, a2 * 11 + iq2, iv2, 5);
        lemma_radix(a1, iq1, a2, iq2, 11);
        lemma_radix(du1, cp1, du2, cp2, cpm + 1);
    }

    /// Flat offset of an in-range coordinate.
    fn index_of(&self, du: u16, cp: i32, iq: u8, iv: u8, mn: u8, wn: u8) -> (r: usize)
        requires
            self.wf(),
            self.in_bounds(du as int, cp as int, iq as int, iv as int, mn as int, wn as int),
        ensures
            r == self.idx(du as int, cp as int, iq as int, iv as int, mn as int, wn as int),
            r < self.results@.len(),
    {
        proof {
            self.lemma_idx_bounds(du as int, cp as int, iq as int, iv as int, mn as int, wn as int);
            assert(((du as int * (self.cp_max() + 1) + cp) * 11 + iq) * 5 + iv >= 0) by (nonlinear_arith)
                requires du >= 0 && cp >= 0 && iq >= 0 && iv >= 0 && self.cp_max() >= 0;
            assert((((du as int * (self.cp_max() + 1) + cp) * 11 + iq) * 5 + iv) * 9 + mn >= 0)
                by (nonlinear_arith)
                requires ((du as int * (self.cp_max() + 1) + cp) * 11 + iq) * 5 + iv >= 0 && mn >= 0;
        }
        let cpw: usize = self.driver.init_status.attributes.craft_points as usize + 1;
        let a: usize = du as usize * cpw + cp as usize;
        ((((a * 11 + iq as usize) * 5 + iv as usize) * 9 + mn as usize) * 9 + wn as usize)
    }

    /// A fresh solver owning the given driver: the table is allocated at
    /// its full dimensions and holds only base-case entries.
    pub fn new(driver: Driver) -> (r: Self)
        requires
            driver.wf(),
            (driver.init_status.recipe.durability + 1)
                * (driver.init_status.attributes.craft_points + 1) * 4455 <= usize::MAX,
        ensures
            r.wf(),
            r.driver == driver,
            forall|j: int| 0 <= j < r.results@.len() ==> r.results@[j] == s_default_slot(),
    {
        let du1: usize = driver.init_status.recipe.durability as usize + 1;
        let cp1: usize = driver.init_status.attributes.craft_points as usize + 1;
        assert(du1 * cp1 * 4455 <= usize::MAX) by (nonlinear_arith)
            requires
                du1 == driver.init_status.recipe.durability + 1,
                cp1 == driver.init_status.attributes.craft_points + 1,
                (driver.init_status.recipe.durability + 1)
                    * (driver.init_status.attributes.craft_points + 1) * 4455 <= usize::MAX;
        let t: usize = du1 * cp1 * 4455;
        let mut v: Vec<SolverSlot> = Vec::new();
        let mut i: usize = 0;
        while i < t
            invariant
                i <= t,
                v@.len() == i,
                forall|j: int| 0 <= j < i ==> v@[j] == s_default_slot(),
            decreases t - i,
        {
            v.push(SolverSlot { quality: 0, step: 0, skill: None });
            i += 1;
        }
        Solver { driver, results: v }
    }
    /// Tabulates the allowed quality actions, filtering every candidate
    /// through the driver: a successor is considered only when the driver
    /// reports full progress still reachable from it.
    pub fn init(&mut self, allowed: &Vec<Action>)
        requires
            old(self).wf(),
            forall|j: int| 0 <= j < old(self).results@.len()
                ==> old(self).results@[j] == s_default_slot(),
        ensures
            final(self).wf(),
            final(self).driver == old(self).driver,
            final(self).table_ok(allowed@),
    {
        let dum: u16 = self.driver.init_status.recipe.durability;
        let cpm: i32 = self.driver.init_status.attributes.craft_points;
        proof {
            assert forall|du: int, cp: int, iq: int, iv: int, mn: int, wn: int|
                self.in_bounds(du, cp, iq, iv, mn, wn)
                implies self.slot_at(du, cp, iq, iv, mn, wn) == s_default_slot() by {
                self.lemma_idx_bounds(du, cp, iq, iv, mn, wn);
            }
        }
        let mut cp: i32 = 0;
        while cp <= cpm
            invariant
                self.wf(),
                self.driver == old(self).driver,
                dum == self.du_max(), cpm == self.cp_max(),
                0 <= cp <= cpm + 1,
                self.scanned(allowed@, cp as int, 1, 0, 0, 0, 0),
            decreases cpm - cp + 1,
        {
            let mut du: u32 = 1;
            while du <= dum as u32
                invariant
                    self.wf(),
                    self.driver == old(self).driver,
                    dum == self.du_max(), cpm == self.cp_max(),
                    0 <= cp <= cpm, 1 <= du <= dum + 1,
                    self.scanned(allowed@, cp as int, du as int, 0, 0, 0, 0),
                decreases dum + 1 - du,
            {
                let mut iq: u8 = 0;
                while iq <= 10
                    invariant
                        self.wf(),
                        self.driver == old(self).driver,
                        dum == self.du_max(), cpm == self.cp_max(),
                        0 <= cp <= cpm, 1 <= du <= dum, iq <= 11,
                        self.scanned(allowed@, cp as int, du as int, iq as int, 0, 0, 0),
                    decreases 11 - iq,
                {
                    let mut iv: u8 = 0;
                    while iv <= 4
                        invariant
                            self.wf(),
                            self.driver == old(self).driver,
                            dum == self.du_max(), cpm == self.cp_max(),
                            0 <= cp <= cpm, 1 <= du <= dum, iq <= 10, iv <= 5,
                            self.scanned(
                                allowed@, cp as int, du as int, iq as int, iv as int, 0, 0),
                        decreases 5 - iv,
                    {
                        let mut mn: u8 = 0;
                        while mn <= 8
                            invariant
                                self.wf(),
                                self.driver == old(self).driver,
                                dum == self.du_max(), cpm == self.cp_max(),
                                0 <= cp <= cpm, 1 <= du <= dum, iq <= 10, iv <= 4, mn <= 9,
                                self.scanned(
                                    allowed@, cp as int, du as int, iq as int, iv as int,
                                    mn as int, 0),
                            decreases 9 - mn,
                        {
                            let mut wn: u8 = 0;
                            while wn <= 8
                                invariant
                                    self.wf(),
                                    self.driver == old(self).driver,
                                    dum == self.du_max(), cpm == self.cp_max(),
                                    0 <= cp <= cpm, 1 <= du <= dum, iq <= 10, iv <= 4, mn <= 8,
                                    wn <= 9,
                                    self.scanned(
                                        allowed@, cp as int, du as int, iq as int, iv as int,
                                        mn as int, wn as int),
                                decreases 9 - wn,
                            {
                                self.scan_coord(allowed, du as u16, cp, iq, iv, mn, wn);
                                wn += 1;
                            }
                            mn += 1;
                        }
                        iv += 1;
                    }
                    iq += 1;
                }
                du += 1;
            }
            cp += 1;
        }
    }

    /// Scans all allowed candidates at one coordinate and finalizes its
    /// entry.
    fn scan_coord(&mut self, allowed: &Vec<Action>, du: u16, cp: i32, iq: u8, iv: u8, mn: u8, wn: u8)
        requires
            old(self).wf(),
            1 <= du <= old(self).du_max(),
            0 <= cp <= old(self).cp_max(),
            iq <= 10, iv <= 4, mn <= 8, wn <= 8,
            old(self).scanned(
                allowed@, cp as int, du as int, iq as int, iv as int, mn as int, wn as int),
        ensures
            final(self).wf(),
            final(self).driver == old(self).driver,
            final(self).scanned(
                allowed@, cp as int, du as int, iq as int, iv as int, mn as int, wn as int + 1),
    {
        let ghost gdu = du as int;
        let ghost gcp = cp as int;
        let ghost giq = iq as int;
        let ghost giv = iv as int;
        let ghost gmn = mn as int;
        let ghost gwn = wn as int;
        let diff: u16 = self.driver.init_status.recipe.difficulty;
        let i: usize = self.index_of(du, cp, iq, iv, mn, wn);
        let ps = CraftState {
            durability: du,
            craft_points: cp,
            buffs: Buffs {
                inner_quiet: iq,
                innovation: iv,
                manipulation: mn,
                wast_not: wn,
                ..self.driver.init_status.buffs
            },
            ..self.driver.init_status
        };
        proof {
            assert(ps == self.probe(gdu, gcp, giq, giv, gmn, gwn));
            assert(self.slot_at(gdu, gcp, giq, giv, gmn, gwn) == s_default_slot());
        }
        let ghost t0 = self.results@;
        let mut k: usize = 0;
        while k < allowed.len()
            invariant
                self.wf(),
                self.driver == old(self).driver,
                diff == self.base().recipe.difficulty,
                i == self.idx(gdu, gcp, giq, giv, gmn, gwn), i < self.results@.len(),
                ps == self.probe(gdu, gcp, giq, giv, gmn, gwn),
                k <= allowed.len(),
                self.results@.len() == t0.len(),
                forall|j: int| 0 <= j < t0.len() && j != i ==> self.results@[j] == t0[j],
                ({
                    let sl = self.results@[i as int];
                    &&& (sl.skill is None ==> sl == s_default_slot())
                    &&& (sl.skill matches Some(a) ==> allowed@.contains(a)
                        && legal_of(ps, code_of(a))
                        && self.driver.state_in_bounds(apply_of(ps, code_of(a)))
                        && self.completes(apply_of(ps, code_of(a)))
                        && sl.step >= 1)
                    &&& (sl.skill matches Some(a)
                        ==> self.chosen_exact(gdu, gcp, giq, giv, gmn, gwn, a))
                    &&& (forall|t: int| 0 <= t < k as int
                        ==> self.cand_dominated(gdu, gcp, giq, giv, gmn, gwn, #[trigger] allowed@[t]))
                }),
            decreases allowed.len() - k,
        {
            let a = allowed[k];
            let code = action_code(a);
            proof {
                lemma_code_range(a);
                assert(cast_margins(ps));
                assert(buffs_bounded(ps.buffs));
            }
            let ghost prev = self.results@[i as int];
            let (ok, ns) = engine_step(&ps, code);
            if ok {
                let (dprog, _dstep, _dsk) = self.driver.read(&ns);
                if dprog == diff {
                    let j = self.index_of(
                        ns.durability, ns.craft_points, ns.buffs.inner_quiet,
                        ns.buffs.innovation, ns.buffs.manipulation, ns.buffs.wast_not);
                    let nxt = self.results[j];
                    let qsum: u64 = ns.quality as u64 + nxt.quality as u64;
                    let q: u32 = if qsum > u32::MAX as u64 { u32::MAX } else { qsum as u32 };
                    let ssum: u16 = 1u16 + nxt.step as u16;
                    let st: u8 = if ssum > 255 { 255 } else { ssum as u8 };
                    let cur = self.results[i];
                    if q > cur.quality || (q == cur.quality && st < cur.step) {
                        self.results[i] = SolverSlot { quality: q, step: st, skill: Some(a) };
                    }
                    proof {
                        assert(allowed@.contains(a)) by {
                            assert(allowed@[k as int] == a);
                        }
                        let now = self.results@[i as int];
                        assert(s_beats(now, q as int, st as int));
                        if now == (SolverSlot { quality: q, step: st, skill: Some(a) }) {
                            assert(self.chosen_exact(gdu, gcp, giq, giv, gmn, gwn, a)) by {
                                if self.state_in_bounds(ns)
                                    && lex6(
                                        ns.craft_points as int, ns.durability as int,
                                        ns.buffs.inner_quiet as int, ns.buffs.innovation as int,
                                        ns.buffs.manipulation as int, ns.buffs.wast_not as int,
                                        gcp, gdu, giq, giv, gmn, gwn) {
                                    if self.idx(
                                        ns.durability as int, ns.craft_points as int,
                                        ns.buffs.inner_quiet as int, ns.buffs.innovation as int,
                                        ns.buffs.manipulation as int, ns.buffs.wast_not as int)
                                        == i as int {
                                        self.lemma_idx_injective(
                                            ns.durability as int, ns.craft_points as int,
                                            ns.buffs.inner_quiet as int, ns.buffs.innovation as int,
                                            ns.buffs.manipulation as int, ns.buffs.wast_not as int,
                                            gdu, gcp, giq, giv, gmn, gwn);
                                    }
                                    self.lemma_idx_bounds(
                                        ns.durability as int, ns.craft_points as int,
                                        ns.buffs.inner_quiet as int, ns.buffs.innovation as int,
                                        ns.buffs.manipulation as int, ns.buffs.wast_not as int);
                                }
                            }
                        }
                        assert forall|t: int| 0 <= t < k as int + 1
                            implies self.cand_dominated(
                                gdu, gcp, giq, giv, gmn, gwn, #[trigger] allowed@[t]) by {
                            let ct = code_of(allowed@[t]);
                            let nst = apply_of(ps, ct);
                            if legal_of(ps, ct) && self.driver.state_in_bounds(nst)
                                && self.completes(nst) && self.state_in_bounds(nst)
                                && lex6(
                                    nst.craft_points as int, nst.durability as int,
                                    nst.buffs.inner_quiet as int, nst.buffs.innovation as int,
                                    nst.buffs.manipulation as int, nst.buffs.wast_not as int,
                                    gcp, gdu, giq, giv, gmn, gwn) {
                                if self.idx(
                                    nst.durability as int, nst.craft_points as int,
                                    nst.buffs.inner_quiet as int, nst.buffs.innovation as int,
                                    nst.buffs.manipulation as int, nst.buffs.wast_not as int)
                                    == i as int {
                                    self.lemma_idx_injective(
                                        nst.durability as int, nst.craft_points as int,
                                        nst.buffs.inner_quiet as int, nst.buffs.innovation as int,
                                        nst.buffs.manipulation as int, nst.buffs.wast_not as int,
                                        gdu, gcp, giq, giv, gmn, gwn);
                                }
                                self.lemma_idx_bounds(
                                    nst.durability as int, nst.craft_points as int,
                                    nst.buffs.inner_quiet as int, nst.buffs.innovation as int,
                                    nst.buffs.manipulation as int, nst.buffs.wast_not as int);
                                if t == k as int {
                                    assert(nst == ns);
                                    assert(self.cand_q(nst) == q as int);
                                    assert(self.cand_st(nst) == st as int);
                                } else {
                                    assert(s_beats(prev, self.cand_q(nst), self.cand_st(nst)));
                                    assert(s_beats(now, prev.quality as int, prev.step as int));
                                }
                            }
                        }
                    }
                } else {
                    proof {
                        self.keep_dominated(allowed@, gdu, gcp, giq, giv, gmn, gwn, k as int, prev);
                    }
                }
            } else {
                proof {
                    self.keep_dominated(allowed@, gdu, gcp, giq, giv, gmn, gwn, k as int, prev);
                }
            }
            k += 1;
        }
        proof {
            assert(self.slot_ok(allowed@, gdu, gcp, giq, giv, gmn, gwn));
            assert forall|du2: int, cp2: int, iq2: int, iv2: int, mn2: int, wn2: int|
                self.in_bounds(du2, cp2, iq2, iv2, mn2, wn2)
                implies {
                    if du2 >= 1 && lex6(cp2, du2, iq2, iv2, mn2, wn2, gcp, gdu, giq, giv, gmn,
                        gwn + 1) {
                        self.slot_ok(allowed@, du2, cp2, iq2, iv2, mn2, wn2)
                    } else {
                        self.slot_at(du2, cp2, iq2, iv2, mn2, wn2) == s_default_slot()
                    }
                } by {
                if du2 == gdu && cp2 == gcp && iq2 == giq && iv2 == giv && mn2 == gmn
                    && wn2 == gwn {
                } else {
                    if self.idx(du2, cp2, iq2, iv2, mn2, wn2) == i as int {
                        self.lemma_idx_injective(du2, cp2, iq2, iv2, mn2, wn2, gdu, gcp, giq,
                            giv, gmn, gwn);
                    }
                    self.lemma_idx_bounds(du2, cp2, iq2, iv2, mn2, wn2);
                    assert(self.slot_at(du2, cp2, iq2, iv2, mn2, wn2)
                        == old(self).slot_at(du2, cp2, iq2, iv2, mn2, wn2));
                    if du2 >= 1 && lex6(cp2, du2, iq2, iv2, mn2, wn2, gcp, gdu, giq, giv, gmn,
                        gwn) {
                        assert forall|a2: int, b2: int, c2: int, d2: int, e2: int, f2: int|
                            old(self).in_bounds(a2, b2, c2, d2, e2, f2)
                                && lex6(b2, a2, c2, d2, e2, f2, cp2, du2, iq2, iv2, mn2, wn2)
                            implies #[trigger] self.idx(a2, b2, c2, d2, e2, f2) != i as int by {
                            if self.idx(a2, b2, c2, d2, e2, f2) == i as int {
                                self.lemma_idx_injective(
                                    a2, b2, c2, d2, e2, f2, gdu, gcp, giq, giv, gmn, gwn);
                            }
                        }
                        self.same_slot_ok(*old(self), allowed@, du2, cp2, iq2, iv2, mn2, wn2, i as int);
                    }
                }
            }
        }
    }

    /// A candidate that was skipped leaves every dominance claim standing.
    proof fn keep_dominated(
        self, allowed: Seq<Action>, gdu: int, gcp: int, giq: int, giv: int, gmn: int, gwn: int,
        k: int, prev: SolverSlot,
    )
        requires
            0 <= k < allowed.len(),
            prev == self.slot_at(gdu, gcp, giq, giv, gmn, gwn),
            forall|t: int| 0 <= t < k
                ==> self.cand_dominated(gdu, gcp, giq, giv, gmn, gwn, #[trigger] allowed[t]),
            ({
                let ps = self.probe(gdu, gcp, giq, giv, gmn, gwn);
                let ct = code_of(allowed[k]);
                !(legal_of(ps, ct)
                    && self.driver.state_in_bounds(apply_of(ps, ct))
                    && self.completes(apply_of(ps, ct)))
            }),
        ensures
            forall|t: int| 0 <= t < k + 1
                ==> self.cand_dominated(gdu, gcp, giq, giv, gmn, gwn, #[trigger] allowed[t]),
    {
    }

    /// A coordinate whose entry and whose lex-earlier entries are untouched
    /// keeps its finished-entry property.
    proof fn same_slot_ok(
        self, older: Self, allowed: Seq<Action>,
        du: int, cp: int, iq: int, iv: int, mn: int, wn: int, wi: int,
    )
        requires
            self.driver == older.driver,
            self.results@.len() == older.results@.len(),
            older.wf(),
            self.wf(),
            older.in_bounds(du, cp, iq, iv, mn, wn),
            older.slot_ok(allowed, du, cp, iq, iv, mn, wn),
            forall|j: int| 0 <= j < older.results@.len() && j != wi
                ==> self.results@[j] == older.results@[j],
            self.idx(du, cp, iq, iv, mn, wn) != wi,
            forall|du2: int, cp2: int, iq2: int, iv2: int, mn2: int, wn2: int|
                older.in_bounds(du2, cp2, iq2, iv2, mn2, wn2)
                    && lex6(cp2, du2, iq2, iv2, mn2, wn2, cp, du, iq, iv, mn, wn)
                ==> #[trigger] self.idx(du2, cp2, iq2, iv2, mn2, wn2) != wi,
        ensures
            self.slot_ok(allowed, du, cp, iq, iv, mn, wn),
    {
        self.lemma_idx_bounds(du, cp, iq, iv, mn, wn);
        if let Option::Some(a) = self.slot_at(du, cp, iq, iv, mn, wn).skill {
            let ps = self.probe(du, cp, iq, iv, mn, wn);
            let ns = apply_of(ps, code_of(a));
            if self.state_in_bounds(ns)
                && lex6(
                    ns.craft_points as int, ns.durability as int, ns.buffs.inner_quiet as int,
                    ns.buffs.innovation as int, ns.buffs.manipulation as int,
                    ns.buffs.wast_not as int, cp, du, iq, iv, mn, wn) {
                assert(self.idx(
                    ns.durability as int, ns.craft_points as int, ns.buffs.inner_quiet as int,
                    ns.buffs.innovation as int, ns.buffs.manipulation as int,
                    ns.buffs.wast_not as int) != wi);
                self.lemma_idx_bounds(
                    ns.durability as int, ns.craft_points as int, ns.buffs.inner_quiet as int,
                    ns.buffs.innovation as int, ns.buffs.manipulation as int,
                    ns.buffs.wast_not as int);
            }
            assert(self.chosen_exact(du, cp, iq, iv, mn, wn, a));
        }
        assert forall|t: int| 0 <= t < allowed.len()
            implies self.cand_dominated(du, cp, iq, iv, mn, wn, #[trigger] allowed[t]) by {
            let ps = self.probe(du, cp, iq, iv, mn, wn);
            let ct = code_of(allowed[t]);
            let nst = apply_of(ps, ct);
            if legal_of(ps, ct) && self.driver.state_in_bounds(nst) && self.completes(nst)
                && self.state_in_bounds(nst)
                && lex6(
                    nst.craft_points as int, nst.durability as int,
                    nst.buffs.inner_quiet as int, nst.buffs.innovation as int,
                    nst.buffs.manipulation as int, nst.buffs.wast_not as int,
                    cp, du, iq, iv, mn, wn) {
                assert(self.idx(
                    nst.durability as int, nst.craft_points as int,
                    nst.buffs.inner_quiet as int, nst.buffs.innovation as int,
                    nst.buffs.manipulation as int, nst.buffs.wast_not as int) != wi);
                self.lemma_idx_bounds(
                    nst.durability as int, nst.craft_points as int,
                    nst.buffs.inner_quiet as int, nst.buffs.innovation as int,
                    nst.buffs.manipulation as int, nst.buffs.wast_not as int);
            }
        }
    }
    /// Each phase-one step keeps the running best: the value never drops,
    /// the step count never grows, and any adopted allocation lies in the
    /// scanned durability range at the scanned craft point level.
    proof fn lemma_scan_du_bounds(
        self, s: CraftState, cap: int, cp: int, n: int, best: ((int, int), (int, int)),
    )
        ensures
            ({
                let r = self.scan_du(s, cap, cp, n, best);
                r.0.0 >= best.0.0 && r.0.1 <= best.0.1
                    && (r == best || (r.1.0 == cp && 1 <= r.1.1 <= n))
            }),
        decreases n,
    {
        if n > 0 {
            self.lemma_scan_du_bounds(s, cap, cp, n - 1, best);
        }
    }

    /// As the previous lemma, over whole craft point levels.
    proof fn lemma_scan_cp_bounds(
        self, s: CraftState, cap: int, n: int, best: ((int, int), (int, int)),
    )
        ensures
            ({
                let r = self.scan_cp(s, cap, n, best);
                r.0.0 >= best.0.0 && r.0.1 <= best.0.1
                    && (r == best || (0 <= r.1.0 < n && 1 <= r.1.1 <= s.durability))
            }),
        decreases n,
    {
        if n > 0 {
            self.lemma_scan_cp_bounds(s, cap, n - 1, best);
            self.lemma_scan_du_bounds(
                s, cap, n - 1, s.durability as int, self.scan_cp(s, cap, n - 1, best));
        }
    }

    /// Phase one never allocates more than the query state holds, and never
    /// settles for a worse outcome than the state's own entry: at least the
    /// same capped value, in no more steps.
    pub proof fn lemma_phase1_within_budget(self, s: CraftState, cap: int)
        requires
            s.craft_points >= 0,
        ensures
            ({
                let b = self.phase1(s, cap);
                &&& 0 <= b.1.0 <= s.craft_points
                &&& b.1.1 <= s.durability
                &&& b.0.0 >= Self::cap_min(self.slot_of(s).quality as int, cap)
                &&& b.0.1 <= self.slot_of(s).step
            }),
    {
        let seed = ((Self::cap_min(self.slot_of(s).quality as int, cap),
            self.slot_of(s).step as int), (s.craft_points as int, s.durability as int));
        self.lemma_scan_cp_bounds(s, cap, s.craft_points + 1, seed);
    }

    /// Each step of the durability scan keeps every already-scanned pair
    /// beaten: the running best's value never drops and its step count
    /// never grows, so a pair that failed earlier still fails at the end.
    proof fn lemma_scan_du_optimal(
        self, s: CraftState, cap: int, cp: int, n: int, best: ((int, int), (int, int)),
    )
        ensures
            ({
                let r = self.scan_du(s, cap, cp, n, best);
                forall|du: int| 1 <= du <= n ==> ({
                    let sl = #[trigger] self.slot_at(
                        du, cp, s.buffs.inner_quiet as int, s.buffs.innovation as int,
                        s.buffs.manipulation as int, s.buffs.wast_not as int);
                    !(Self::cap_min(sl.quality as int, cap) >= r.0.0 && (sl.step as int) < r.0.1)
                })
            }),
        decreases n,
    {
        if n > 0 {
            self.lemma_scan_du_optimal(s, cap, cp, n - 1, best);
        }
    }

    /// As the previous lemma, across whole craft point levels.
    proof fn lemma_scan_cp_optimal(
        self, s: CraftState, cap: int, n: int, best: ((int, int), (int, int)),
    )
        ensures
            ({
                let r = self.scan_cp(s, cap, n, best);
                forall|cp: int, du: int| 0 <= cp < n && 1 <= du <= s.durability ==> ({
                    let sl = #[trigger] self.slot_at(
                        du, cp, s.buffs.inner_quiet as int, s.buffs.innovation as int,
                        s.buffs.manipulation as int, s.buffs.wast_not as int);
                    !(Self::cap_min(sl.quality as int, cap) >= r.0.0 && (sl.step as int) < r.0.1)
                })
            }),
        decreases n,
    {
        if n > 0 {
            self.lemma_scan_cp_optimal(s, cap, n - 1, best);
            let prev = self.scan_cp(s, cap, n - 1, best);
            self.lemma_scan_du_optimal(s, cap, n - 1, s.durability as int, prev);
            self.lemma_scan_du_bounds(s, cap, n - 1, s.durability as int, prev);
        }
    }

    /// No scanned allocation beats the plan: across every craft point level
    /// up to the query's and every durability from one up to the query's,
    /// no entry offers at least the chosen capped value in strictly fewer
    /// steps.
    pub proof fn lemma_phase1_optimal(self, s: CraftState, cap: int)
        requires
            s.craft_points >= 0,
        ensures
            ({
                let b = self.phase1(s, cap);
                forall|cp: int, du: int| 0 <= cp <= s.craft_points && 1 <= du <= s.durability
                    ==> ({
                        let sl = #[trigger] self.slot_at(
                            du, cp, s.buffs.inner_quiet as int, s.buffs.innovation as int,
                            s.buffs.manipulation as int, s.buffs.wast_not as int);
                        !(Self::cap_min(sl.quality as int, cap) >= b.0.0
                            && (sl.step as int) < b.0.1)
                    })
            }),
    {
        let seed = ((Self::cap_min(self.slot_of(s).quality as int, cap),
            self.slot_of(s).step as int), (s.craft_points as int, s.durability as int));
        self.lemma_scan_cp_optimal(s, cap, s.craft_points + 1, seed);
    }

    /// Direct table lookup by the state's six reduced coordinates.
    pub fn read(&self, s: &CraftState) -> (r: (u32, u8, Option<Action>))
        requires
            self.wf(),
            self.state_in_bounds(*s),
        ensures
            r.0 == self.slot_of(*s).quality,
            r.1 == self.slot_of(*s).step,
            r.2 == self.slot_of(*s).skill,
    {
        let i = self.index_of(
            s.durability, s.craft_points, s.buffs.inner_quiet, s.buffs.innovation,
            s.buffs.manipulation, s.buffs.wast_not);
        let sl = self.results[i];
        (sl.quality, sl.step, sl.skill)
    }

    /// Executable twin of `state_in_bounds`.
    fn in_bounds_exec(&self, s: &CraftState) -> (r: bool)
        ensures
            r == self.state_in_bounds(*s),
    {
        s.durability <= self.driver.init_status.recipe.durability
            && 0 <= s.craft_points
            && s.craft_points <= self.driver.init_status.attributes.craft_points
            && s.buffs.inner_quiet <= 10 && s.buffs.innovation <= 4
            && s.buffs.manipulation <= 8 && s.buffs.wast_not <= 8
    }

    /// The smaller of a table value and the remaining need.
    pub open spec fn cap_min(a: int, b: int) -> int {
        if a <= b { a } else { b }
    }

    /// Phase-one scan over durability 1..=n at one craft point level.
    pub open spec fn scan_du(
        self, s: CraftState, cap: int, cp: int, n: int, best: ((int, int), (int, int)),
    ) -> ((int, int), (int, int))
        decreases n,
    {
        if n <= 0 {
            best
        } else {
            let prev = self.scan_du(s, cap, cp, n - 1, best);
            let sl = self.slot_at(
                n, cp, s.buffs.inner_quiet as int, s.buffs.innovation as int,
                s.buffs.manipulation as int, s.buffs.wast_not as int);
            let q = Self::cap_min(sl.quality as int, cap);
            if q >= prev.0.0 && (sl.step as int) < prev.0.1 {
                ((q, sl.step as int), (cp, n))
            } else {
                prev
            }
        }
    }

    /// Phase-one scan over craft points 0..n, each with the full durability
    /// range.
    pub open spec fn scan_cp(
        self, s: CraftState, cap: int, n: int, best: ((int, int), (int, int)),
    ) -> ((int, int), (int, int))
        decreases n,
    {
        if n <= 0 {
            best
        } else {
            self.scan_du(s, cap, n - 1, s.durability as int, self.scan_cp(s, cap, n - 1, best))
        }
    }

    /// The resource allocation phase one settles on.
    pub open spec fn phase1(self, s: CraftState, cap: int) -> ((int, int), (int, int)) {
        self.scan_cp(
            s, cap, s.craft_points + 1,
            ((Self::cap_min(self.slot_of(s).quality as int, cap), self.slot_of(s).step as int),
            (s.craft_points as int, s.durability as int)),
        )
    }

    /// Phase-two playback over the solver's own table.
    pub open spec fn playback(self, st: CraftState, fuel: int) -> (CraftState, Seq<Action>)
        decreases fuel,
    {
        if fuel <= 0 || !self.state_in_bounds(st) {
            (st, Seq::<Action>::empty())
        } else {
            let sl = self.slot_of(st);
            match sl.skill {
                Option::None => (st, Seq::<Action>::empty()),
                Option::Some(a) => {
                    if !cast_ok(st, code_of(a)) {
                        (st, Seq::<Action>::empty())
                    } else {
                        let rec = self.playback(apply_of(st, code_of(a)), fuel - 1);
                        (rec.0, seq![a] + rec.1)
                    }
                },
            }
        }
    }

    /// What the read-out returns: the solver's own playback, then, from the
    /// state where it ends, the driver's finishing moves.
    pub open spec fn read_all_spec(self, s: CraftState) -> (u32, Seq<Action>) {
        let cap = s.recipe.quality - s.quality;
        let best = self.phase1(s, cap as int);
        let start = CraftState {
            craft_points: best.1.0 as i32,
            durability: best.1.1 as u16,
            ..s
        };
        let pb = self.playback(start, PLAYBACK_FUEL as int);
        let tail = if self.driver.state_in_bounds(pb.0)
            && pb.0.progress <= pb.0.recipe.difficulty {
            self.driver.read_all_spec(pb.0).1
        } else {
            Seq::<Action>::empty()
        };
        (pb.0.quality, pb.1 + tail)
    }

    /// Two-phase read-out over the quality table; when the solver's own
    /// playback ends, the remaining work is the driver's.
    pub fn read_all(&self, s: &CraftState) -> (r: (u32, Vec<Action>))
        requires
            self.wf(),
            self.state_in_bounds(*s),
            s.quality <= s.recipe.quality,
        ensures
            r.0 == self.read_all_spec(*s).0,
            r.1@ == self.read_all_spec(*s).1,
    {
        let cap: u32 = s.recipe.quality - s.quality;
        let (q0, st0, _sk0) = self.read(s);
        let mut bq: u32 = if q0 > cap { cap } else { q0 };
        let mut bst: u8 = st0;
        let mut bcp: i32 = s.craft_points;
        let mut bdu: u16 = s.durability;
        let ghost best0 = ((bq as int, bst as int), (bcp as int, bdu as int));
        let mut cp: i32 = 0;
        while cp <= s.craft_points
            invariant
                self.wf(),
                self.state_in_bounds(*s),
                cap == s.recipe.quality - s.quality,
                0 <= cp <= s.craft_points + 1,
                ((bq as int, bst as int), (bcp as int, bdu as int))
                    == self.scan_cp(*s, cap as int, cp as int, best0),
            decreases s.craft_points - cp + 1,
        {
            let mut du: u32 = 1;
            while du <= s.durability as u32
                invariant
                    self.wf(),
                    self.state_in_bounds(*s),
                    cap == s.recipe.quality - s.quality,
                    0 <= cp <= s.craft_points,
                    1 <= du <= s.durability + 1,
                    ((bq as int, bst as int), (bcp as int, bdu as int))
                        == self.scan_du(
                            *s, cap as int, cp as int, du as int - 1,
                            self.scan_cp(*s, cap as int, cp as int, best0)),
                decreases s.durability + 1 - du,
            {
                let i = self.index_of(
                    du as u16, cp, s.buffs.inner_quiet, s.buffs.innovation,
                    s.buffs.manipulation, s.buffs.wast_not);
                let sl = self.results[i];
                let q: u32 = if sl.quality > cap { cap } else { sl.quality };
                if q >= bq && sl.step < bst {
                    bq = q;
                    bst = sl.step;
                    bcp = cp;
                    bdu = du as u16;
                }
                du += 1;
            }
            cp += 1;
        }
        let mut cur = CraftState { craft_points: bcp, durability: bdu, ..*s };
        let ghost target = self.playback(cur, PLAYBACK_FUEL as int);
        let mut list: Vec<Action> = Vec::new();
        let mut fuel: usize = PLAYBACK_FUEL;
        while fuel > 0
            invariant
                self.wf(),
                fuel <= PLAYBACK_FUEL,
                ({
                    let rem = self.playback(cur, fuel as int);
                    target.0 == rem.0 && target.1 == list@ + rem.1
                }),
            decreases fuel,
        {
            if !self.in_bounds_exec(&cur) {
                proof {
                    assert(list@ + self.playback(cur, fuel as int).1 =~= list@);
                }
                return self.finish(cur, list);
            }
            let (_q, _st, sk) = self.read(&cur);
            match sk {
                None => {
                    proof {
                        assert(list@ + self.playback(cur, fuel as int).1 =~= list@);
                    }
                    return self.finish(cur, list);
                },
                Some(a) => {
                    let code = action_code(a);
                    proof {
                        lemma_code_range(a);
                    }
                    if !cast_ok_exec(&cur, code) {
                        proof {
                            assert(list@ + self.playback(cur, fuel as int).1 =~= list@);
                        }
                        return self.finish(cur, list);
                    }
                    let ghost old_list = list@;
                    let ghost old_cur = cur;
                    let ghost old_fuel = fuel as int;
                    cur = engine_cast(&cur, code);
                    list.push(a);
                    fuel -= 1;
                    proof {
                        let rec = self.playback(cur, fuel as int);
                        assert(self.playback(old_cur, old_fuel).1 == seq![a] + rec.1);
                        assert(old_list + (seq![a] + rec.1) =~= list@ + rec.1);
                    }
                },
            }
        }
        proof {
            assert(list@ + self.playback(cur, 0).1 =~= list@);
        }
        self.finish(cur, list)
    }

    /// Appends the driver's finishing moves where its table can be read.
    fn finish(&self, cur: CraftState, list: Vec<Action>) -> (r: (u32, Vec<Action>))
        requires
            self.wf(),
        ensures
            r.0 == cur.quality,
            ({
                let tail = if self.driver.state_in_bounds(cur)
                    && cur.progress <= cur.recipe.difficulty {
                    self.driver.read_all_spec(cur).1
                } else {
                    Seq::<Action>::empty()
                };
                r.1@ == list@ + tail
            }),
    {
        let mut list = list;
        if self.driver.in_bounds_exec(&cur) && cur.progress <= cur.recipe.difficulty {
            let (_p, mut synth_list) = self.driver.read_all(&cur);
            let ghost tail = synth_list@;
            let ghost head = list@;
            let mut m: usize = 0;
            while m < synth_list.len()
                invariant
                    m <= synth_list.len(),
                    synth_list@ == tail,
                    list@ == head + tail.take(m as int),
                decreases synth_list.len() - m,
            {
                list.push(synth_list[m]);
                proof {
                    assert(head + tail.take(m as int) + seq![tail[m as int]]
                        =~= head + tail.take(m as int + 1));
                }
                m += 1;
            }
            proof {
                assert(head + tail.take(tail.len() as int) =~= head + tail);
            }
            (cur.quality, list)
        } else {
            proof {
                assert(list@ + Seq::<Action>::empty() =~= list@);
            }
            (cur.quality, list)
        }
    }
}

} // verus!
