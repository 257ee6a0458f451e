//! No-decompression limit by forward simulation.
//!
//! From a state with no current ceiling, simulate staying at the present
//! depth in one-minute steps; the limit is the minute count at which the
//! ceiling first becomes positive, capped at `NDL_CAP_MIN` when the
//! exposure never produces one within the horizon.
use vstd::prelude::*;
use crate::ceiling::{ceiling_now, ceiling_now_spec};
use crate::input::GasMix;
use crate::tissue::{apply_exposure, apply_n2, apply_he, TissueState};
use crate::zhl::MAX_DEPTH_CM;

verus! {

/// Horizon and cap for the no-decompression limit, in minutes.
pub const NDL_CAP_MIN: u64 = 999;

/// Minutes until the ceiling first turns positive when staying at
/// `depth_cm` on `gas`, exploring at most `fuel` minutes ahead; `fuel`
/// when the whole horizon stays clear.
pub open spec fn ndl_rec(n2s: Seq<u64>, hes: Seq<u64>, gas: GasMix, depth_cm: int, lo: int, hi: int, fuel: nat) -> int
    decreases fuel,
{
    if fuel == 0 {
        0
    } else {
        let n2s2 = apply_n2(n2s, gas.n2_ppm_spec(), depth_cm, 60);
        let hes2 = apply_he(hes, gas.he_ppm as int, depth_cm, 60);
        if ceiling_now_spec(n2s2, hes2, depth_cm, lo, hi) > 0 {
            1
        } else {
            1 + ndl_rec(n2s2, hes2, gas, depth_cm, lo, hi, (fuel - 1) as nat)
        }
    }
}

/// The no-decompression limit in whole minutes, capped at `NDL_CAP_MIN`.
/// The given state is only read; the search runs on a copy.
pub fn ndl_minutes(state: &TissueState, gas: &GasMix, depth_cm: u64, lo: u64, hi: u64) -> (r: u64)
    requires
        state.wf(),
        gas.wf(),
        depth_cm <= MAX_DEPTH_CM,
        lo <= 100,
        hi <= 100,
    ensures
        r == ndl_rec(state.n2@, state.he@, *gas, depth_cm as int, lo as int, hi as int, NDL_CAP_MIN as nat),
        1 <= r <= NDL_CAP_MIN,
{
    let mut sim = state.snapshot();
    let n2_ppm = gas.n2_ppm();
    let he_ppm = gas.he_ppm;
    let mut t: u64 = 0;
    while t < NDL_CAP_MIN
        invariant
            t <= NDL_CAP_MIN,
            state.wf(),
            gas.wf(),
            depth_cm <= MAX_DEPTH_CM,
            lo <= 100,
            hi <= 100,
            n2_ppm == gas.n2_ppm_spec(),
            he_ppm == gas.he_ppm,
            sim.wf(),
            ndl_rec(state.n2@, state.he@, *gas, depth_cm as int, lo as int, hi as int, NDL_CAP_MIN as nat)
                == t + ndl_rec(sim.n2@, sim.he@, *gas, depth_cm as int, lo as int, hi as int, (NDL_CAP_MIN - t) as nat),
        decreases NDL_CAP_MIN - t,
    {
        apply_exposure(&mut sim, n2_ppm, he_ppm, depth_cm, 60);
        let c = ceiling_now(&sim, depth_cm, lo, hi);
        if c > 0 {
            return t + 1;
        }
        t = t + 1;
    }
    t
}

} // verus!
