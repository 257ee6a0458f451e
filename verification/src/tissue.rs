//! Per-compartment inert-gas loadings and their update under exposure.
//!
//! During a constant-depth segment each compartment's pressure moves toward
//! the alveolar pressure of its gas by one fixed fraction of the remaining
//! gap per second (the discrete Schreiner recurrence): after one second the
//! gap `|p - pa|` becomes `gap * f / FSCALE`, rounded down.
use vstd::prelude::*;
use crate::zhl::{params, lemma_params_bounds, comp_params, insp_spec, inspired_pu, FSCALE, P_MAX, PPM, MAX_DEPTH_CM, NCOMP};

verus! {

/// One second of uptake or release: the pressure moves from `p` toward the
/// alveolar pressure `pa`, the gap shrinking by the factor `f / FSCALE`.
pub open spec fn step1(p: int, pa: int, f: int) -> int {
    if pa >= p {
        pa - (pa - p) * f / (FSCALE as int)
    } else {
        pa + (p - pa) * f / (FSCALE as int)
    }
}

/// `t` seconds of exposure at constant alveolar pressure.
pub open spec fn decay(p: int, pa: int, f: int, t: nat) -> int
    decreases t,
{
    if t == 0 {
        p
    } else {
        step1(decay(p, pa, f, (t - 1) as nat), pa, f)
    }
}

/// A scaled-down gap never grows and never goes negative.
pub proof fn lemma_gap_shrinks(d: int, f: int)
    requires
        0 <= d,
        0 <= f < FSCALE,
    ensures
        0 <= d * f / (FSCALE as int) <= d,
{
    assert(d * f <= d * FSCALE) by (nonlinear_arith)
        requires 0 <= d, f <= FSCALE;
    assert(d * f >= 0) by (nonlinear_arith)
        requires 0 <= d, 0 <= f;
    vstd::arithmetic::div_mod::lemma_div_is_ordered(d * f, d * (FSCALE as int), FSCALE as int);
    vstd::arithmetic::div_mod::lemma_div_by_multiple(d, FSCALE as int);
    assert(d * (FSCALE as int) == (FSCALE as int) * d) by (nonlinear_arith);
    vstd::arithmetic::div_mod::lemma_div_pos_is_pos(d * f, FSCALE as int);
}

/// One step stays between the old pressure and the alveolar pressure.
pub proof fn lemma_step1_between(p: int, pa: int, f: int)
    requires
        0 <= p,
        0 <= pa,
        0 <= f < FSCALE,
    ensures
        step1(p, pa, f) >= if p <= pa { p } else { pa },
        step1(p, pa, f) <= if p <= pa { pa } else { p },
{
    if pa >= p {
        lemma_gap_shrinks(pa - p, f);
    } else {
        lemma_gap_shrinks(p - pa, f);
    }
}

/// The whole exposure stays between 0 and any common bound on `p` and `pa`.
pub proof fn lemma_decay_bounds(p: int, pa: int, f: int, t: nat, m: int)
    requires
        0 <= p <= m,
        0 <= pa <= m,
        0 <= f < FSCALE,
    ensures
        0 <= decay(p, pa, f, t) <= m,
    decreases t,
{
    if t > 0 {
        lemma_decay_bounds(p, pa, f, (t - 1) as nat, m);
        lemma_step1_between(decay(p, pa, f, (t - 1) as nat), pa, f);
    }
}

/// One step is monotone in the starting pressure.
pub proof fn lemma_step1_mono_p(p1: int, p2: int, pa: int, f: int)
    requires
        0 <= p1 <= p2,
        0 <= pa,
        0 <= f < FSCALE,
    ensures
        step1(p1, pa, f) <= step1(p2, pa, f),
{
    let s = FSCALE as int;
    if p2 <= pa {
        assert((pa - p2) * f <= (pa - p1) * f) by (nonlinear_arith)
            requires p1 <= p2 <= pa, f >= 0;
        vstd::arithmetic::div_mod::lemma_div_is_ordered((pa - p2) * f, (pa - p1) * f, s);
    } else if p1 >= pa {
        assert((p1 - pa) * f <= (p2 - pa) * f) by (nonlinear_arith)
            requires pa <= p1 <= p2, f >= 0;
        vstd::arithmetic::div_mod::lemma_div_is_ordered((p1 - pa) * f, (p2 - pa) * f, s);
    } else {
        lemma_gap_shrinks(pa - p1, f);
        lemma_gap_shrinks(p2 - pa, f);
    }
}

/// One step is monotone in the alveolar pressure.
pub proof fn lemma_step1_mono_pa(p: int, pa1: int, pa2: int, f: int)
    requires
        0 <= p,
        0 <= pa1 <= pa2,
        0 <= f < FSCALE,
    ensures
        step1(p, pa1, f) <= step1(p, pa2, f),
{
    let s = FSCALE as int;
    if p <= pa1 {
        // both on-gassing: pa - (pa - p) * f / s grows with pa because the
        // subtracted term grows by at most the growth of pa
        let d1 = pa1 - p;
        let d2 = pa2 - p;
        assert(d2 * f <= d1 * f + (d2 - d1) * s) by (nonlinear_arith)
            requires 0 <= d1 <= d2, 0 <= f <= s;
        vstd::arithmetic::div_mod::lemma_div_is_ordered(d2 * f, d1 * f + (d2 - d1) * s, s);
        vstd::arithmetic::div_mod::lemma_hoist_over_denominator(d1 * f, d2 - d1, s as nat);
        lemma_gap_shrinks(d1, f);
        lemma_gap_shrinks(d2, f);
    } else if p >= pa2 {
        let d1 = p - pa1;
        let d2 = p - pa2;
        assert(d1 * f <= d2 * f + (d1 - d2) * s) by (nonlinear_arith)
            requires 0 <= d2 <= d1, 0 <= f <= s;
        vstd::arithmetic::div_mod::lemma_div_is_ordered(d1 * f, d2 * f + (d1 - d2) * s, s);
        vstd::arithmetic::div_mod::lemma_hoist_over_denominator(d2 * f, d1 - d2, s as nat);
        lemma_gap_shrinks(d1, f);
        lemma_gap_shrinks(d2, f);
    } else {
        lemma_gap_shrinks(p - pa1, f);
        lemma_gap_shrinks(pa2 - p, f);
    }
}

/// A whole exposure is monotone in both the starting pressure and the
/// alveolar pressure; deeper or richer gas never lowers a loading.
pub proof fn lemma_decay_mono(p1: int, p2: int, pa1: int, pa2: int, f: int, t: nat)
    requires
        0 <= p1 <= p2,
        0 <= pa1 <= pa2,
        0 <= f < FSCALE,
    ensures
        decay(p1, pa1, f, t) <= decay(p2, pa2, f, t),
    decreases t,
{
    if t > 0 {
        lemma_decay_mono(p1, p2, pa1, pa2, f, (t - 1) as nat);
        lemma_decay_bounds(p1, pa1, f, (t - 1) as nat, if p1 <= pa1 { pa1 } else { p1 });
        lemma_decay_bounds(p2, pa2, f, (t - 1) as nat, if p2 <= pa2 { pa2 } else { p2 });
        lemma_step1_mono_p(decay(p1, pa1, f, (t - 1) as nat), decay(p2, pa2, f, (t - 1) as nat), pa1, f);
        lemma_step1_mono_pa(decay(p2, pa2, f, (t - 1) as nat), pa1, pa2, f);
    }
}

/// While on-gassing (alveolar pressure at or above the loading), a longer
/// exposure never lowers the loading.
pub proof fn lemma_decay_mono_time(p: int, pa: int, f: int, t1: nat, t2: nat)
    requires
        0 <= p <= pa,
        0 <= f < FSCALE,
        t1 <= t2,
    ensures
        decay(p, pa, f, t1) <= decay(p, pa, f, t2),
    decreases t2,
{
    if t1 < t2 {
        lemma_decay_mono_time(p, pa, f, t1, (t2 - 1) as nat);
        lemma_decay_bounds(p, pa, f, (t2 - 1) as nat, pa);
        lemma_step1_between(decay(p, pa, f, (t2 - 1) as nat), pa, f);
    }
}

/// Exposure is pointwise monotone over a whole compartment set: loadings
/// no smaller at the start, at a depth no shallower, stay no smaller.
pub proof fn lemma_apply_n2_mono(n2a: Seq<u64>, n2b: Seq<u64>, ppm: int, da: int, db: int, t: nat)
    requires
        n2a.len() == NCOMP,
        n2b.len() == NCOMP,
        forall|i: int| 0 <= i < NCOMP ==> n2a[i] <= n2b[i],
        forall|i: int| 0 <= i < NCOMP ==> n2a[i] <= P_MAX,
        forall|i: int| 0 <= i < NCOMP ==> n2b[i] <= P_MAX,
        0 <= ppm <= PPM,
        0 <= da <= db <= MAX_DEPTH_CM,
    ensures
        forall|i: int| 0 <= i < NCOMP
            ==> apply_n2(n2a, ppm, da, t)[i] <= apply_n2(n2b, ppm, db, t)[i],
{
    crate::zhl::lemma_insp_bounds(ppm, da);
    crate::zhl::lemma_insp_bounds(ppm, db);
    crate::zhl::lemma_insp_mono(ppm, da, db);
    assert forall|i: int| 0 <= i < NCOMP
        implies apply_n2(n2a, ppm, da, t)[i] <= apply_n2(n2b, ppm, db, t)[i] by {
        lemma_params_bounds(i);
        let f = params(i).0;
        lemma_decay_mono(n2a[i] as int, n2b[i] as int, insp_spec(ppm, da), insp_spec(ppm, db), f, t);
        lemma_decay_bounds(n2a[i] as int, insp_spec(ppm, da), f, t, P_MAX as int);
        lemma_decay_bounds(n2b[i] as int, insp_spec(ppm, db), f, t, P_MAX as int);
    }
}

/// With longer exposure while on-gassing (every loading at or below the
/// alveolar pressure of the depth), no loading falls.
pub proof fn lemma_apply_n2_mono_time(n2s: Seq<u64>, ppm: int, d: int, t1: nat, t2: nat)
    requires
        n2s.len() == NCOMP,
        forall|i: int| 0 <= i < NCOMP ==> n2s[i] <= insp_spec(ppm, d),
        0 <= ppm <= PPM,
        0 <= d <= MAX_DEPTH_CM,
        t1 <= t2,
    ensures
        forall|i: int| 0 <= i < NCOMP
            ==> apply_n2(n2s, ppm, d, t1)[i] <= apply_n2(n2s, ppm, d, t2)[i],
{
    crate::zhl::lemma_insp_bounds(ppm, d);
    assert forall|i: int| 0 <= i < NCOMP
        implies apply_n2(n2s, ppm, d, t1)[i] <= apply_n2(n2s, ppm, d, t2)[i] by {
        lemma_params_bounds(i);
        let f = params(i).0;
        let pa = insp_spec(ppm, d);
        lemma_decay_mono_time(n2s[i] as int, pa, f, t1, t2);
        lemma_decay_bounds(n2s[i] as int, pa, f, t1, P_MAX as int);
        lemma_decay_bounds(n2s[i] as int, pa, f, t2, P_MAX as int);
    }
}

/// Exposure keeps loadings within the model's pressure range.
pub proof fn lemma_apply_n2_wf(n2s: Seq<u64>, ppm: int, d: int, t: nat)
    requires
        n2s.len() == NCOMP,
        forall|i: int| 0 <= i < NCOMP ==> n2s[i] <= P_MAX,
        0 <= ppm <= PPM,
        0 <= d <= MAX_DEPTH_CM,
    ensures
        apply_n2(n2s, ppm, d, t).len() == NCOMP,
        forall|i: int| 0 <= i < NCOMP ==> apply_n2(n2s, ppm, d, t)[i] <= P_MAX,
{
    crate::zhl::lemma_insp_bounds(ppm, d);
    assert forall|i: int| 0 <= i < NCOMP implies apply_n2(n2s, ppm, d, t)[i] <= P_MAX by {
        lemma_params_bounds(i);
        lemma_decay_bounds(n2s[i] as int, insp_spec(ppm, d), params(i).0, t, P_MAX as int);
    }
}

/// A helium-free gas keeps every helium loading at zero.
pub proof fn lemma_apply_he_zero(hes: Seq<u64>, d: int, t: nat)
    requires
        hes.len() == NCOMP,
        forall|i: int| 0 <= i < NCOMP ==> hes[i] == 0,
        0 <= d,
    ensures
        apply_he(hes, 0, d, t).len() == NCOMP,
        forall|i: int| 0 <= i < NCOMP ==> apply_he(hes, 0, d, t)[i] == 0,
{
    assert(insp_spec(0, d) == 0) by {
        assert(0 * (crate::zhl::amb_spec(d) - crate::zhl::WATER_VAPOR_PU) == 0) by (nonlinear_arith);
    }
    assert forall|i: int| 0 <= i < NCOMP implies apply_he(hes, 0, d, t)[i] == 0 by {
        lemma_params_bounds(i);
        lemma_decay_zero(params(i).3, t);
    }
}

/// A loading of zero under zero alveolar pressure stays zero.
proof fn lemma_decay_zero(f: int, t: nat)
    requires
        0 <= f < FSCALE,
    ensures
        decay(0, 0, f, t) == 0,
    decreases t,
{
    if t > 0 {
        lemma_decay_zero(f, (t - 1) as nat);
    }
}

/// Executable twin of `decay`: run the recurrence for `t` seconds.
pub fn decay_exec(p: u64, pa: u64, f: u64, t: u64) -> (r: u64)
    requires
        p <= P_MAX,
        pa <= P_MAX,
        f < FSCALE,
    ensures
        r == decay(p as int, pa as int, f as int, t as nat),
        r <= P_MAX,
{
    let mut cur = p;
    let mut i: u64 = 0;
    while i < t
        invariant
            i <= t,
            p <= P_MAX,
            pa <= P_MAX,
            f < FSCALE,
            cur == decay(p as int, pa as int, f as int, i as nat),
            cur <= P_MAX,
        decreases t - i,
    {
        proof {
            lemma_step1_between(cur as int, pa as int, f as int);
            if pa >= cur {
                lemma_gap_shrinks(pa - cur, f as int);
            } else {
                lemma_gap_shrinks(cur - pa, f as int);
            }
            assert((P_MAX as int) * (f as int) < (P_MAX as int) * (FSCALE as int)) by (nonlinear_arith)
                requires f < FSCALE;
            if pa >= cur {
                assert((pa - cur) * (f as int) <= (P_MAX as int) * (f as int)) by (nonlinear_arith)
                    requires 0 <= pa - cur <= P_MAX, 0 <= f;
            } else {
                assert((cur - pa) * (f as int) <= (P_MAX as int) * (f as int)) by (nonlinear_arith)
                    requires 0 <= cur - pa <= P_MAX, 0 <= f;
            }
        }
        cur = if pa >= cur {
            pa - (pa - cur) * f / FSCALE
        } else {
            pa + (cur - pa) * f / FSCALE
        };
        i = i + 1;
    }
    cur
}

/// Inert-gas loadings of the sixteen compartments, in pressure units.
pub struct TissueState {
    pub n2: Vec<u64>,
    pub he: Vec<u64>,
}

impl TissueState {
    /// Sixteen compartments, every loading within the model's pressure range.
    pub open spec fn wf(self) -> bool {
        &&& self.n2.len() == NCOMP
        &&& self.he.len() == NCOMP
        &&& forall|i: int| 0 <= i < NCOMP ==> self.n2[i] <= P_MAX
        &&& forall|i: int| 0 <= i < NCOMP ==> self.he[i] <= P_MAX
    }

    /// Surface equilibrium on air: every compartment holds the alveolar
    /// nitrogen pressure of air at the surface and no helium.
    pub open spec fn initial_n2() -> int {
        insp_spec(790_000, 0)
    }

    /// An independent copy of the loadings, for forward simulation.
    pub fn snapshot(&self) -> (r: TissueState)
        ensures
            r.n2@ == self.n2@,
            r.he@ == self.he@,
    {
        let n2 = self.n2.clone();
        let he = self.he.clone();
        proof {
            assert(n2@ =~= self.n2@);
            assert(he@ =~= self.he@);
        }
        TissueState { n2, he }
    }

    /// A fresh model: surface-equilibrium loadings.
    pub fn initialize() -> (r: TissueState)
        ensures
            r.wf(),
            forall|i: int| 0 <= i < NCOMP ==> r.n2[i] == Self::initial_n2(),
            forall|i: int| 0 <= i < NCOMP ==> r.he[i] == 0,
    {
        let n2_0 = inspired_pu(790_000, 0);
        let mut n2: Vec<u64> = Vec::new();
        let mut he: Vec<u64> = Vec::new();
        let mut i: usize = 0;
        while i < 16
            invariant
                i <= 16,
                n2.len() == i,
                he.len() == i,
                n2_0 == Self::initial_n2(),
                n2_0 <= P_MAX,
                forall|j: int| 0 <= j < i ==> n2[j] == n2_0,
                forall|j: int| 0 <= j < i ==> he[j] == 0,
            decreases 16 - i,
        {
            n2.push(n2_0);
            he.push(0);
            i = i + 1;
        }
        TissueState { n2, he }
    }
}

/// Nitrogen loadings after `t` seconds at constant depth on the given gas.
pub open spec fn apply_n2(n2: Seq<u64>, n2_ppm: int, depth_cm: int, t: nat) -> Seq<u64> {
    Seq::new(n2.len(), |i: int| decay(n2[i] as int, insp_spec(n2_ppm, depth_cm), params(i).0, t) as u64)
}

/// Helium loadings after `t` seconds at constant depth on the given gas.
pub open spec fn apply_he(he: Seq<u64>, he_ppm: int, depth_cm: int, t: nat) -> Seq<u64> {
    Seq::new(he.len(), |i: int| decay(he[i] as int, insp_spec(he_ppm, depth_cm), params(i).3, t) as u64)
}

/// Advance every compartment by `t` seconds of constant-depth exposure.
/// A zero-duration exposure leaves the state unchanged.
pub fn apply_exposure(state: &mut TissueState, n2_ppm: u64, he_ppm: u64, depth_cm: u64, t: u64)
    requires
        old(state).wf(),
        n2_ppm <= PPM,
        he_ppm <= PPM,
        depth_cm <= MAX_DEPTH_CM,
    ensures
        final(state).wf(),
        final(state).n2@ == apply_n2(old(state).n2@, n2_ppm as int, depth_cm as int, t as nat),
        final(state).he@ == apply_he(old(state).he@, he_ppm as int, depth_cm as int, t as nat),
{
    let pa_n2 = inspired_pu(n2_ppm, depth_cm);
    let pa_he = inspired_pu(he_ppm, depth_cm);
    let mut i: usize = 0;
    while i < 16
        invariant
            i <= 16,
            old(state).wf(),
            state.n2.len() == NCOMP,
            state.he.len() == NCOMP,
            pa_n2 == insp_spec(n2_ppm as int, depth_cm as int),
            pa_he == insp_spec(he_ppm as int, depth_cm as int),
            pa_n2 <= P_MAX,
            pa_he <= P_MAX,
            forall|j: int| 0 <= j < NCOMP ==> state.n2[j] <= P_MAX,
            forall|j: int| 0 <= j < NCOMP ==> state.he[j] <= P_MAX,
            forall|j: int| 0 <= j < i ==> state.n2[j] == apply_n2(old(state).n2@, n2_ppm as int, depth_cm as int, t as nat)[j],
            forall|j: int| 0 <= j < i ==> state.he[j] == apply_he(old(state).he@, he_ppm as int, depth_cm as int, t as nat)[j],
            forall|j: int| i <= j < NCOMP ==> state.n2[j] == old(state).n2[j],
            forall|j: int| i <= j < NCOMP ==> state.he[j] == old(state).he[j],
        decreases 16 - i,
    {
        proof {
            lemma_params_bounds(i as int);
        }
        let (f_n2, _, _, f_he, _, _) = comp_params(i);
        let old_n2 = state.n2[i];
        let old_he = state.he[i];
        let new_n2 = decay_exec(old_n2, pa_n2, f_n2, t);
        let new_he = decay_exec(old_he, pa_he, f_he, t);
        state.n2.set(i, new_n2);
        state.he.set(i, new_he);
        i = i + 1;
    }
    proof {
        assert(state.n2@ =~= apply_n2(old(state).n2@, n2_ppm as int, depth_cm as int, t as nat));
        assert(state.he@ =~= apply_he(old(state).he@, he_ppm as int, depth_cm as int, t as nat));
    }
}

/// A zero-duration exposure is a no-op on the loadings.
pub proof fn lemma_zero_exposure_noop(n2: Seq<u64>, he: Seq<u64>, n2_ppm: int, he_ppm: int, depth_cm: int)
    ensures
        apply_n2(n2, n2_ppm, depth_cm, 0) == n2,
        apply_he(he, he_ppm, depth_cm, 0) == he,
{
    assert(apply_n2(n2, n2_ppm, depth_cm, 0) =~= n2);
    assert(apply_he(he, he_ppm, depth_cm, 0) =~= he);
}

} // verus!
