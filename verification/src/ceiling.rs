//! The decompression ceiling from tissue loadings and gradient factors.
//!
//! For each compartment the Bühlmann coefficients are blended in proportion
//! to the two inert-gas loadings, tightened by the gradient factor, and give
//! the least tolerable ambient pressure; the ceiling is the depth of the
//! greatest such pressure over all compartments, zero when none exceeds the
//! surface. The gradient factor in force interpolates linearly between
//! `gf_high` at the surface and `gf_low` at the reference first-stop depth,
//! which is the ceiling computed from raw (gradient factor 100) tolerances.
use vstd::prelude::*;
use crate::tissue::TissueState;
use crate::zhl::{params, lemma_params_bounds, comp_params, A_MAX, B_MIN, B_SCALE, CM_PU, NCOMP, P_MAX, SURFACE_PU};

verus! {

/// No ceiling is ever deeper than this many centimetres.
pub const CEIL_MAX_CM: u64 = 210_000;

/// A weighted average of two bounded values stays within their bounds.
proof fn lemma_wavg_bounds(x1: int, w1: int, x2: int, w2: int, lo: int, hi: int)
    requires
        0 <= lo,
        lo <= x1 <= hi,
        lo <= x2 <= hi,
        0 <= w1,
        0 <= w2,
        0 < w1 + w2,
    ensures
        lo <= (x1 * w1 + x2 * w2) / (w1 + w2) <= hi,
{
    let t = w1 + w2;
    assert(x1 * w1 + x2 * w2 <= hi * t) by (nonlinear_arith)
        requires x1 <= hi, x2 <= hi, 0 <= w1, 0 <= w2, t == w1 + w2;
    assert(x1 * w1 + x2 * w2 >= lo * t) by (nonlinear_arith)
        requires x1 >= lo, x2 >= lo, 0 <= w1, 0 <= w2, t == w1 + w2;
    vstd::arithmetic::div_mod::lemma_div_is_ordered(x1 * w1 + x2 * w2, hi * t, t);
    vstd::arithmetic::div_mod::lemma_div_is_ordered(lo * t, x1 * w1 + x2 * w2, t);
    vstd::arithmetic::div_mod::lemma_div_by_multiple(hi, t);
    vstd::arithmetic::div_mod::lemma_div_by_multiple(lo, t);
    assert(hi * t == t * hi) by (nonlinear_arith);
    assert(lo * t == t * lo) by (nonlinear_arith);
}

/// The least tolerable ambient pressure of one compartment under a gradient
/// factor `gf` (percent): coefficients are blended by loading shares, `a` is
/// scaled by `gf`, `b` is relaxed toward one as `gf` falls.
pub open spec fn comp_min_amb(n2: int, he: int, i: int, gf: int) -> int {
    let t = n2 + he;
    if t <= 0 {
        0
    } else {
        let aw = (params(i).1 * n2 + params(i).4 * he) / t;
        let bw = (params(i).2 * n2 + params(i).5 * he) / t;
        let a_adj = aw * gf / 100;
        let den = gf * (B_SCALE - bw) / 100 + bw;
        if t <= a_adj {
            0
        } else {
            (t - a_adj) * bw / den
        }
    }
}

/// Executable twin of `comp_min_amb`; the result never exceeds the total
/// inert loading of the compartment.
pub fn comp_min_amb_exec(n2: u64, he: u64, i: usize, gf: u64) -> (r: u64)
    requires
        n2 <= P_MAX,
        he <= P_MAX,
        i < NCOMP,
        gf <= 100,
    ensures
        r == comp_min_amb(n2 as int, he as int, i as int, gf as int),
        r <= n2 + he,
{
    proof {
        lemma_params_bounds(i as int);
    }
    let (_, a_n2, b_n2, _, a_he, b_he) = comp_params(i);
    let t = n2 + he;
    if t == 0 {
        return 0;
    }
    proof {
        lemma_wavg_bounds(a_n2 as int, n2 as int, a_he as int, he as int, 0, A_MAX as int);
        lemma_wavg_bounds(b_n2 as int, n2 as int, b_he as int, he as int, B_MIN as int, B_SCALE as int);
        assert(a_n2 * n2 <= A_MAX * P_MAX) by (nonlinear_arith)
            requires a_n2 <= A_MAX, n2 <= P_MAX, 0 <= a_n2, 0 <= n2;
        assert(a_he * he <= A_MAX * P_MAX) by (nonlinear_arith)
            requires a_he <= A_MAX, he <= P_MAX, 0 <= a_he, 0 <= he;
        assert(b_n2 * n2 <= B_SCALE * P_MAX) by (nonlinear_arith)
            requires b_n2 <= B_SCALE, n2 <= P_MAX, 0 <= b_n2, 0 <= n2;
        assert(b_he * he <= B_SCALE * P_MAX) by (nonlinear_arith)
            requires b_he <= B_SCALE, he <= P_MAX, 0 <= b_he, 0 <= he;
    }
    let aw = (a_n2 * n2 + a_he * he) / t;
    let bw = (b_n2 * n2 + b_he * he) / t;
    proof {
        assert(aw * gf <= A_MAX * 100) by (nonlinear_arith)
            requires 0 <= aw <= A_MAX, 0 <= gf <= 100;
        assert(gf * (B_SCALE - bw) <= 100 * B_SCALE) by (nonlinear_arith)
            requires 0 <= gf <= 100, 0 <= B_SCALE - bw <= B_SCALE;
    }
    let a_adj = aw * gf / 100;
    let den = gf * (B_SCALE - bw) / 100 + bw;
    if t <= a_adj {
        return 0;
    }
    proof {
        assert((t - a_adj) * bw <= t as int * bw) by (nonlinear_arith)
            requires 0 < t, 0 <= a_adj, a_adj < t, 0 <= bw;
        assert(t as int * bw <= 2 * P_MAX * B_SCALE) by (nonlinear_arith)
            requires 0 <= t <= 2 * P_MAX, 0 <= bw <= B_SCALE;
        assert(gf * (B_SCALE - bw) <= 100 * B_SCALE) by (nonlinear_arith)
            requires gf <= 100, 0 <= B_SCALE - bw <= B_SCALE, 0 <= gf;
        // result at most the total loading: numerator <= t * bw, denominator >= bw
        vstd::arithmetic::div_mod::lemma_div_is_ordered((t - a_adj) as int * bw, t as int * bw, den as int);
        vstd::arithmetic::div_mod::lemma_div_is_ordered_by_denominator(t as int * bw, bw as int, den as int);
        vstd::arithmetic::div_mod::lemma_div_by_multiple(t as int, bw as int);
        assert(t as int * bw == bw as int * t) by (nonlinear_arith);
        vstd::arithmetic::div_mod::lemma_div_pos_is_pos((t - a_adj) as int * bw, den as int);
        assert((t - a_adj) as int * bw >= 0) by (nonlinear_arith)
            requires a_adj < t, bw >= 0;
    }
    (t - a_adj) * bw / den
}

/// Greatest least-tolerable ambient pressure over the first `n` compartments.
pub open spec fn max_min_amb(n2s: Seq<u64>, hes: Seq<u64>, gf: int, n: nat) -> int
    decreases n,
{
    if n == 0 {
        0
    } else {
        let prev = max_min_amb(n2s, hes, gf, (n - 1) as nat);
        let cur = comp_min_amb(n2s[n - 1] as int, hes[n - 1] as int, n - 1, gf);
        if cur > prev {
            cur
        } else {
            prev
        }
    }
}

/// Ceiling in centimetres under gradient factor `gf`: the depth at which
/// ambient pressure reaches the greatest tolerable pressure, rounded up to
/// the next centimetre, zero when every compartment tolerates the surface.
pub open spec fn ceiling_spec(n2s: Seq<u64>, hes: Seq<u64>, gf: int) -> int {
    let mt = max_min_amb(n2s, hes, gf, NCOMP as nat);
    if mt <= SURFACE_PU {
        0
    } else {
        (mt - SURFACE_PU + CM_PU - 1) / (CM_PU as int)
    }
}

/// Ceiling under a single gradient factor, in centimetres.
pub fn ceiling_cm(state: &TissueState, gf: u64) -> (r: u64)
    requires
        state.wf(),
        gf <= 100,
    ensures
        r == ceiling_spec(state.n2@, state.he@, gf as int),
        r <= CEIL_MAX_CM,
{
    let mut mt: u64 = 0;
    let mut i: usize = 0;
    while i < 16
        invariant
            i <= 16,
            state.wf(),
            gf <= 100,
            mt == max_min_amb(state.n2@, state.he@, gf as int, i as nat),
            mt <= 2 * P_MAX,
        decreases 16 - i,
    {
        let c = comp_min_amb_exec(state.n2[i], state.he[i], i, gf);
        if c > mt {
            mt = c;
        }
        i = i + 1;
    }
    if mt <= SURFACE_PU {
        0
    } else {
        proof {
            vstd::arithmetic::div_mod::lemma_div_is_ordered(
                mt - SURFACE_PU + CM_PU - 1,
                2 * P_MAX as int,
                CM_PU as int,
            );
            assert(2 * P_MAX as int / CM_PU as int == 202_000);
            vstd::arithmetic::div_mod::lemma_div_pos_is_pos(mt - SURFACE_PU + CM_PU - 1, CM_PU as int);
        }
        (mt - SURFACE_PU + CM_PU - 1) / CM_PU
    }
}

/// The gradient factor in force at a depth: `hi` at the surface, `lo` at the
/// first-stop reference depth `fs_cm`, linear in between, `lo` below.
pub open spec fn gf_at_spec(depth_cm: int, fs_cm: int, lo: int, hi: int) -> int {
    if fs_cm <= 0 {
        hi
    } else {
        let d = if depth_cm <= fs_cm { depth_cm } else { fs_cm };
        (lo * d + hi * (fs_cm - d)) / fs_cm
    }
}

pub fn gf_at(depth_cm: u64, fs_cm: u64, lo: u64, hi: u64) -> (r: u64)
    requires
        fs_cm <= CEIL_MAX_CM,
        lo <= 100,
        hi <= 100,
    ensures
        r == gf_at_spec(depth_cm as int, fs_cm as int, lo as int, hi as int),
        r <= 100,
{
    if fs_cm == 0 {
        hi
    } else {
        let d = if depth_cm <= fs_cm { depth_cm } else { fs_cm };
        proof {
            lemma_wavg_bounds(lo as int, d as int, hi as int, (fs_cm - d) as int, 0, 100);
            assert(lo * d <= 100 * CEIL_MAX_CM) by (nonlinear_arith)
                requires lo <= 100, d <= CEIL_MAX_CM, 0 <= lo, 0 <= d;
            assert(hi * (fs_cm - d) <= 100 * CEIL_MAX_CM) by (nonlinear_arith)
                requires hi <= 100, fs_cm - d <= CEIL_MAX_CM, 0 <= hi, 0 <= fs_cm - d;
        }
        (lo * d + hi * (fs_cm - d)) / fs_cm
    }
}

/// The ceiling in force for a diver at `at_depth_cm`: the gradient factor is
/// interpolated against the raw (gradient factor 100) ceiling of the same
/// loadings, taken as the first-stop reference depth.
pub open spec fn ceiling_now_spec(n2s: Seq<u64>, hes: Seq<u64>, at_depth_cm: int, lo: int, hi: int) -> int {
    ceiling_spec(n2s, hes, gf_at_spec(at_depth_cm, ceiling_spec(n2s, hes, 100), lo, hi))
}

/// A compartment's least tolerable ambient pressure is never negative.
pub proof fn lemma_comp_min_amb_nonneg(n2: int, he: int, i: int, gf: int)
    requires
        0 <= n2,
        0 <= he,
        0 <= i < NCOMP,
        0 <= gf <= 100,
    ensures
        comp_min_amb(n2, he, i, gf) >= 0,
{
    lemma_params_bounds(i);
    let t = n2 + he;
    if t > 0 {
        lemma_wavg_bounds(params(i).1, n2, params(i).4, he, 0, A_MAX as int);
        lemma_wavg_bounds(params(i).2, n2, params(i).5, he, B_MIN as int, B_SCALE as int);
        let aw = (params(i).1 * n2 + params(i).4 * he) / t;
        let bw = (params(i).2 * n2 + params(i).5 * he) / t;
        let a_adj = aw * gf / 100;
        if t > a_adj {
            let den = gf * (B_SCALE - bw) / 100 + bw;
            assert(gf * (B_SCALE - bw) >= 0) by (nonlinear_arith)
                requires 0 <= gf, bw <= B_SCALE;
            vstd::arithmetic::div_mod::lemma_div_pos_is_pos(gf * (B_SCALE - bw), 100);
            assert((t - a_adj) * bw >= 0) by (nonlinear_arith)
                requires t > a_adj, bw >= 0;
            vstd::arithmetic::div_mod::lemma_div_pos_is_pos((t - a_adj) * bw, den);
        }
    }
}

/// With no helium aboard, a compartment's tolerance bound is monotone in
/// its nitrogen loading.
pub proof fn lemma_comp_min_amb_mono_n2(n2a: int, n2b: int, i: int, gf: int)
    requires
        0 <= n2a <= n2b,
        0 <= i < NCOMP,
        0 <= gf <= 100,
    ensures
        comp_min_amb(n2a, 0, i, gf) <= comp_min_amb(n2b, 0, i, gf),
{
    lemma_params_bounds(i);
    lemma_comp_min_amb_nonneg(n2a, 0, i, gf);
    lemma_comp_min_amb_nonneg(n2b, 0, i, gf);
    let a = params(i).1;
    let b = params(i).2;
    if n2a > 0 {
        vstd::arithmetic::div_mod::lemma_div_by_multiple(a, n2a);
        vstd::arithmetic::div_mod::lemma_div_by_multiple(b, n2a);
        vstd::arithmetic::div_mod::lemma_div_by_multiple(a, n2b);
        vstd::arithmetic::div_mod::lemma_div_by_multiple(b, n2b);
        assert((a * n2a + params(i).4 * 0) / n2a == a);
        assert((b * n2a + params(i).5 * 0) / n2a == b);
        assert((a * n2b + params(i).4 * 0) / n2b == a);
        assert((b * n2b + params(i).5 * 0) / n2b == b);
        let a_adj = a * gf / 100;
        let den = gf * (B_SCALE - b) / 100 + b;
        if n2a > a_adj {
            assert((n2a - a_adj) * b <= (n2b - a_adj) * b) by (nonlinear_arith)
                requires n2a <= n2b, b >= 0;
            vstd::arithmetic::div_mod::lemma_div_is_ordered((n2a - a_adj) * b, (n2b - a_adj) * b, den);
        }
    }
}

/// The running maximum of tolerance bounds is monotone in the nitrogen
/// loadings when no compartment holds helium.
proof fn lemma_max_min_amb_mono_n2(n2s1: Seq<u64>, n2s2: Seq<u64>, hes: Seq<u64>, gf: int, n: nat)
    requires
        n <= NCOMP,
        n2s1.len() == NCOMP,
        n2s2.len() == NCOMP,
        hes.len() == NCOMP,
        forall|i: int| 0 <= i < NCOMP ==> n2s1[i] <= n2s2[i],
        forall|i: int| 0 <= i < NCOMP ==> hes[i] == 0,
        0 <= gf <= 100,
    ensures
        max_min_amb(n2s1, hes, gf, n) <= max_min_amb(n2s2, hes, gf, n),
    decreases n,
{
    if n > 0 {
        lemma_max_min_amb_mono_n2(n2s1, n2s2, hes, gf, (n - 1) as nat);
        lemma_comp_min_amb_mono_n2(n2s1[n - 1] as int, n2s2[n - 1] as int, n - 1, gf);
    }
}

/// Monotonicity of the ceiling: with a fixed gradient factor and no helium
/// aboard, raising any compartment's loading never lowers the ceiling.
pub proof fn lemma_ceiling_mono_n2(n2s1: Seq<u64>, n2s2: Seq<u64>, hes: Seq<u64>, gf: int)
    requires
        n2s1.len() == NCOMP,
        n2s2.len() == NCOMP,
        hes.len() == NCOMP,
        forall|i: int| 0 <= i < NCOMP ==> n2s1[i] <= n2s2[i],
        forall|i: int| 0 <= i < NCOMP ==> hes[i] == 0,
        0 <= gf <= 100,
    ensures
        ceiling_spec(n2s1, hes, gf) <= ceiling_spec(n2s2, hes, gf),
{
    lemma_max_min_amb_mono_n2(n2s1, n2s2, hes, gf, NCOMP as nat);
    let mt1 = max_min_amb(n2s1, hes, gf, NCOMP as nat);
    let mt2 = max_min_amb(n2s2, hes, gf, NCOMP as nat);
    if mt1 > SURFACE_PU {
        vstd::arithmetic::div_mod::lemma_div_is_ordered(
            mt1 - SURFACE_PU + CM_PU - 1,
            mt2 - SURFACE_PU + CM_PU - 1,
            CM_PU as int,
        );
    } else if mt2 > SURFACE_PU {
        vstd::arithmetic::div_mod::lemma_div_pos_is_pos(mt2 - SURFACE_PU + CM_PU - 1, CM_PU as int);
    }
}

pub fn ceiling_now(state: &TissueState, at_depth_cm: u64, lo: u64, hi: u64) -> (r: u64)
    requires
        state.wf(),
        lo <= 100,
        hi <= 100,
    ensures
        r == ceiling_now_spec(state.n2@, state.he@, at_depth_cm as int, lo as int, hi as int),
        r <= CEIL_MAX_CM,
{
    let raw = ceiling_cm(state, 100);
    let gf = gf_at(at_depth_cm, raw, lo, hi);
    ceiling_cm(state, gf)
}

} // verus!
