//! Staged ascent planning when a ceiling is present.
//!
//! The plan ascends at 9 m/min toward the shallowest stop depth — a
//! multiple of 3 m — that the current gradient-factor ceiling allows, and
//! waits in one-minute increments where none shallower is allowed yet. The
//! first-stop reference depth for the gradient-factor slope is frozen when
//! the plan starts, from raw (gradient factor 100) tolerances. Exposure
//! during a leg of the ascent is modelled at the midpoint depth of the leg.
//! The plan ends when the diver may surface with no ceiling; if it does not
//! converge within a fixed budget, the attempt is reported as a fault
//! rather than truncated.
use vstd::prelude::*;
use crate::ceiling::{ceiling_cm, ceiling_spec, gf_at, gf_at_spec, CEIL_MAX_CM};
use crate::input::GasMix;
use crate::tissue::{apply_exposure, apply_n2, apply_he, TissueState};
use crate::zhl::MAX_DEPTH_CM;

verus! {

/// Budget of planning steps (stop minutes plus ascent legs) before the
/// scheduler gives up.
pub const PLAN_FUEL: u64 = 14_400;

/// No planning step lasts longer than this many seconds.
pub const STAGE_SEC_MAX: u64 = 7_000;

/// One leg of the planned ascent.
#[derive(Clone, Copy, Debug, PartialEq, Eq, Structural)]
pub enum Stage {
    /// Travel upward from `from_cm` to `to_cm`, taking `dur_sec` seconds.
    Ascent { from_cm: u64, to_cm: u64, dur_sec: u64 },
    /// Hold at `depth_cm` for `dur_sec` seconds.
    Stop { depth_cm: u64, dur_sec: u64 },
}

/// May a diver sit at depth `d` with these loadings? The gradient factor in
/// force at `d` must give a ceiling at or above `d`.
pub open spec fn allowed_stop(n2s: Seq<u64>, hes: Seq<u64>, fs: int, lo: int, hi: int, d: int) -> bool {
    ceiling_spec(n2s, hes, gf_at_spec(d, fs, lo, hi)) <= d
}

/// The shallowest allowed candidate stop depth at or above `300 * k`
/// centimetres; the deepest candidate (to which every real ceiling is
/// shallow) when the scan runs out.
pub open spec fn first_allowed(n2s: Seq<u64>, hes: Seq<u64>, fs: int, lo: int, hi: int, k: nat) -> int
    decreases 700 - k,
    when k <= 700
{
    if k >= 700 {
        210_000
    } else if allowed_stop(n2s, hes, fs, lo, hi, 300 * (k as int)) {
        300 * (k as int)
    } else {
        first_allowed(n2s, hes, fs, lo, hi, k + 1)
    }
}

/// What the scan returns is either allowed or the out-of-range sentinel.
proof fn lemma_first_allowed(n2s: Seq<u64>, hes: Seq<u64>, fs: int, lo: int, hi: int, k: nat)
    requires
        k <= 700,
    ensures
        300 * (k as int) <= first_allowed(n2s, hes, fs, lo, hi, k) <= 210_000,
        first_allowed(n2s, hes, fs, lo, hi, k) == 210_000
            || allowed_stop(n2s, hes, fs, lo, hi, first_allowed(n2s, hes, fs, lo, hi, k)),
    decreases 700 - k,
{
    if k < 700 && !allowed_stop(n2s, hes, fs, lo, hi, 300 * (k as int)) {
        lemma_first_allowed(n2s, hes, fs, lo, hi, k + 1);
    }
}

/// Executable twin of `first_allowed` from the top of the scan.
pub fn find_stop(state: &TissueState, fs: u64, lo: u64, hi: u64) -> (r: u64)
    requires
        state.wf(),
        fs <= CEIL_MAX_CM,
        lo <= 100,
        hi <= 100,
    ensures
        r == first_allowed(state.n2@, state.he@, fs as int, lo as int, hi as int, 0),
        r <= 210_000,
{
    proof {
        lemma_first_allowed(state.n2@, state.he@, fs as int, lo as int, hi as int, 0);
    }
    let mut k: u64 = 0;
    while k < 700
        invariant
            k <= 700,
            state.wf(),
            fs <= CEIL_MAX_CM,
            lo <= 100,
            hi <= 100,
            first_allowed(state.n2@, state.he@, fs as int, lo as int, hi as int, 0)
                == first_allowed(state.n2@, state.he@, fs as int, lo as int, hi as int, k as nat),
        decreases 700 - k,
    {
        let cand = 300 * k;
        let gf = gf_at(cand, fs, lo, hi);
        let c = ceiling_cm(state, gf);
        if cand >= c {
            return cand;
        }
        k = k + 1;
    }
    210_000
}

/// The whole plan from a configuration, with `fuel` steps left: the stages
/// still to perform and the seconds they take, or nothing when the budget
/// runs out. Stop time accrues in one-minute stages.
pub open spec fn plan_rec(n2s: Seq<u64>, hes: Seq<u64>, gas: GasMix, d: int, fs: int, lo: int, hi: int, fuel: nat) -> Option<(Seq<Stage>, int)>
    decreases fuel,
{
    if d == 0 && ceiling_spec(n2s, hes, gf_at_spec(0, fs, lo, hi)) == 0 {
        Some((Seq::empty(), 0))
    } else if fuel == 0 {
        None
    } else {
        let tgt = first_allowed(n2s, hes, fs, lo, hi, 0);
        if tgt < d {
            let dur = (d - tgt + 14) / 15;
            let mid = (d + tgt) / 2;
            let n2s2 = apply_n2(n2s, gas.n2_ppm_spec(), mid, dur as nat);
            let hes2 = apply_he(hes, gas.he_ppm as int, mid, dur as nat);
            match plan_rec(n2s2, hes2, gas, tgt, fs, lo, hi, (fuel - 1) as nat) {
                None => None,
                Some(rest) => Some((
                    seq![Stage::Ascent { from_cm: d as u64, to_cm: tgt as u64, dur_sec: dur as u64 }] + rest.0,
                    dur + rest.1,
                )),
            }
        } else {
            let n2s2 = apply_n2(n2s, gas.n2_ppm_spec(), d, 60);
            let hes2 = apply_he(hes, gas.he_ppm as int, d, 60);
            match plan_rec(n2s2, hes2, gas, d, fs, lo, hi, (fuel - 1) as nat) {
                None => None,
                Some(rest) => Some((
                    seq![Stage::Stop { depth_cm: d as u64, dur_sec: 60 }] + rest.0,
                    60 + rest.1,
                )),
            }
        }
    }
}

/// Total seconds over a stage sequence.
pub open spec fn sum_durs(stages: Seq<Stage>) -> int
    decreases stages.len(),
{
    if stages.len() == 0 {
        0
    } else {
        (match stages[0] {
            Stage::Ascent { dur_sec, .. } => dur_sec as int,
            Stage::Stop { dur_sec, .. } => dur_sec as int,
        }) + sum_durs(stages.drop_first())
    }
}

/// Soundness of a stage sequence from a configuration: every ascent leg
/// starts at the current depth and ends, no shallower than the ceiling in
/// force at its destination, strictly above it; every stop holds the
/// current depth; and the sequence ends at the surface with no ceiling
/// under the surface gradient factor.
pub open spec fn sound_from(n2s: Seq<u64>, hes: Seq<u64>, gas: GasMix, d: int, fs: int, lo: int, hi: int, stages: Seq<Stage>) -> bool
    decreases stages.len(),
{
    if stages.len() == 0 {
        d == 0 && ceiling_spec(n2s, hes, gf_at_spec(0, fs, lo, hi)) == 0
    } else {
        match stages[0] {
            Stage::Ascent { from_cm, to_cm, dur_sec } => {
                let mid = (d + to_cm) / 2;
                &&& from_cm == d
                &&& to_cm < d
                &&& allowed_stop(n2s, hes, fs, lo, hi, to_cm as int)
                &&& sound_from(
                    apply_n2(n2s, gas.n2_ppm_spec(), mid, dur_sec as nat),
                    apply_he(hes, gas.he_ppm as int, mid, dur_sec as nat),
                    gas, to_cm as int, fs, lo, hi, stages.drop_first(),
                )
            },
            Stage::Stop { depth_cm, dur_sec } => {
                &&& depth_cm == d
                &&& sound_from(
                    apply_n2(n2s, gas.n2_ppm_spec(), d, dur_sec as nat),
                    apply_he(hes, gas.he_ppm as int, d, dur_sec as nat),
                    gas, d, fs, lo, hi, stages.drop_first(),
                )
            },
        }
    }
}

/// Every schedule the planner produces is sound: no ascent leg outruns the
/// ceiling in force at its destination, and the schedule ends at the
/// surface with a zero ceiling. Its reported total time is the sum of its
/// stage durations, every stage is brief, and there are at most `fuel`
/// stages.
pub proof fn lemma_plan_rec_sound(n2s: Seq<u64>, hes: Seq<u64>, gas: GasMix, d: int, fs: int, lo: int, hi: int, fuel: nat)
    requires
        0 <= d <= MAX_DEPTH_CM,
        plan_rec(n2s, hes, gas, d, fs, lo, hi, fuel) is Some,
    ensures
        ({
            let (stages, tts) = plan_rec(n2s, hes, gas, d, fs, lo, hi, fuel)->Some_0;
            &&& sound_from(n2s, hes, gas, d, fs, lo, hi, stages)
            &&& tts == sum_durs(stages)
            &&& stages.len() <= fuel
            &&& forall|j: int| 0 <= j < stages.len() ==> (match #[trigger] stages[j] {
                Stage::Ascent { dur_sec, .. } => dur_sec <= STAGE_SEC_MAX,
                Stage::Stop { dur_sec, .. } => dur_sec <= STAGE_SEC_MAX,
            })
        }),
    decreases fuel,
{
    if d == 0 && ceiling_spec(n2s, hes, gf_at_spec(0, fs, lo, hi)) == 0 {
    } else {
        let tgt = first_allowed(n2s, hes, fs, lo, hi, 0);
        lemma_first_allowed(n2s, hes, fs, lo, hi, 0);
        if tgt < d {
            let dur = (d - tgt + 14) / 15;
            let mid = (d + tgt) / 2;
            let n2s2 = apply_n2(n2s, gas.n2_ppm_spec(), mid, dur as nat);
            let hes2 = apply_he(hes, gas.he_ppm as int, mid, dur as nat);
            lemma_plan_rec_sound(n2s2, hes2, gas, tgt, fs, lo, hi, (fuel - 1) as nat);
            let rest = plan_rec(n2s2, hes2, gas, tgt, fs, lo, hi, (fuel - 1) as nat)->Some_0;
            let stages = seq![Stage::Ascent { from_cm: d as u64, to_cm: tgt as u64, dur_sec: dur as u64 }] + rest.0;
            assert(stages.drop_first() =~= rest.0);
            assert(0 <= dur <= STAGE_SEC_MAX) by {
                vstd::arithmetic::div_mod::lemma_div_pos_is_pos(d - tgt + 14, 15);
                vstd::arithmetic::div_mod::lemma_div_is_ordered(d - tgt + 14, MAX_DEPTH_CM + 14, 15);
            }
        } else {
            let n2s2 = apply_n2(n2s, gas.n2_ppm_spec(), d, 60);
            let hes2 = apply_he(hes, gas.he_ppm as int, d, 60);
            lemma_plan_rec_sound(n2s2, hes2, gas, d, fs, lo, hi, (fuel - 1) as nat);
            let rest = plan_rec(n2s2, hes2, gas, d, fs, lo, hi, (fuel - 1) as nat)->Some_0;
            let stages = seq![Stage::Stop { depth_cm: d as u64, dur_sec: 60 }] + rest.0;
            assert(stages.drop_first() =~= rest.0);
        }
    }
}

/// Compute the staged ascent plan and its total time to surface, from the
/// given loadings at the given depth. `None` when the plan does not
/// converge within the budget. The reference first-stop depth for the
/// gradient-factor slope is the raw ceiling of the starting loadings.
pub fn plan(state: &TissueState, gas: &GasMix, start_depth_cm: u64, lo: u64, hi: u64) -> (r: Option<(Vec<Stage>, u64)>)
    requires
        state.wf(),
        gas.wf(),
        start_depth_cm <= MAX_DEPTH_CM,
        lo <= 100,
        hi <= 100,
    ensures
        ({
            let fs = ceiling_spec(state.n2@, state.he@, 100);
            let full = plan_rec(state.n2@, state.he@, *gas, start_depth_cm as int, fs, lo as int, hi as int, PLAN_FUEL as nat);
            match r {
                None => full is None,
                Some(st) => full == Some((st.0@, st.1 as int)),
            }
        }),
{
    let fs = ceiling_cm(state, 100);
    let mut sim = state.snapshot();
    let n2_ppm = gas.n2_ppm();
    let he_ppm = gas.he_ppm;
    let mut d = start_depth_cm;
    let mut fuel: u64 = PLAN_FUEL;
    let mut stages: Vec<Stage> = Vec::new();
    let mut tts: u64 = 0;
    let ghost full = plan_rec(state.n2@, state.he@, *gas, start_depth_cm as int, fs as int, lo as int, hi as int, PLAN_FUEL as nat);
    proof {
        assert(Seq::<Stage>::empty() + full->Some_0.0 =~= full->Some_0.0);
    }
    loop
        invariant
            sim.wf(),
            gas.wf(),
            n2_ppm == gas.n2_ppm_spec(),
            he_ppm == gas.he_ppm,
            d <= MAX_DEPTH_CM,
            fs == ceiling_spec(state.n2@, state.he@, 100),
            fs <= CEIL_MAX_CM,
            lo <= 100,
            hi <= 100,
            fuel <= PLAN_FUEL,
            tts <= (PLAN_FUEL - fuel) * STAGE_SEC_MAX,
            full == plan_rec(state.n2@, state.he@, *gas, start_depth_cm as int, fs as int, lo as int, hi as int, PLAN_FUEL as nat),
            ({
                let rest = plan_rec(sim.n2@, sim.he@, *gas, d as int, fs as int, lo as int, hi as int, fuel as nat);
                match rest {
                    None => full is None,
                    Some(rp) => full == Some((stages@ + rp.0, tts + rp.1)),
                }
            }),
        decreases fuel,
    {
        if d == 0 {
            let gf0 = gf_at(0, fs, lo, hi);
            let c0 = ceiling_cm(&sim, gf0);
            if c0 == 0 {
                proof {
                    assert(stages@ + Seq::<Stage>::empty() =~= stages@);
                }
                return Some((stages, tts));
            }
        }
        if fuel == 0 {
            return None;
        }
        let tgt = find_stop(&sim, fs, lo, hi);
        proof {
            assert((PLAN_FUEL - fuel) * STAGE_SEC_MAX + STAGE_SEC_MAX == (PLAN_FUEL - (fuel - 1)) * STAGE_SEC_MAX) by (nonlinear_arith);
            assert((PLAN_FUEL - fuel) * STAGE_SEC_MAX <= PLAN_FUEL * STAGE_SEC_MAX) by (nonlinear_arith)
                requires 0 <= PLAN_FUEL - fuel <= PLAN_FUEL;
        }
        if tgt < d {
            let dur = (d - tgt + 14) / 15;
            let mid = (d + tgt) / 2;
            proof {
                vstd::arithmetic::div_mod::lemma_div_is_ordered(d - tgt + 14, MAX_DEPTH_CM + 14, 15);
            }
            apply_exposure(&mut sim, n2_ppm, he_ppm, mid, dur);
            let st = Stage::Ascent { from_cm: d, to_cm: tgt, dur_sec: dur };
            proof {
                let rp = plan_rec(sim.n2@, sim.he@, *gas, tgt as int, fs as int, lo as int, hi as int, (fuel - 1) as nat);
                if rp is Some {
                    assert(stages@ + (seq![st] + rp->Some_0.0) =~= stages@.push(st) + rp->Some_0.0);
                }
            }
            stages.push(st);
            tts = tts + dur;
            d = tgt;
            fuel = fuel - 1;
        } else {
            apply_exposure(&mut sim, n2_ppm, he_ppm, d, 60);
            let st = Stage::Stop { depth_cm: d, dur_sec: 60 };
            proof {
                let rp = plan_rec(sim.n2@, sim.he@, *gas, d as int, fs as int, lo as int, hi as int, (fuel - 1) as nat);
                if rp is Some {
                    assert(stages@ + (seq![st] + rp->Some_0.0) =~= stages@.push(st) + rp->Some_0.0);
                }
            }
            stages.push(st);
            tts = tts + 60;
            fuel = fuel - 1;
        }
    }
}

/// One reported decompression stop.
#[derive(Clone, Copy, Debug, PartialEq, Eq, Structural)]
pub struct DecoStop {
    pub depth_cm: u64,
    pub duration_sec: u64,
}

/// The stops of a stage sequence: ascent legs drop out, consecutive stop
/// stages at one depth merge into a single stop.
pub open spec fn extract_from(stages: Seq<Stage>, acc: Seq<DecoStop>) -> Seq<DecoStop>
    decreases stages.len(),
{
    if stages.len() == 0 {
        acc
    } else {
        match stages[0] {
            Stage::Ascent { .. } => extract_from(stages.drop_first(), acc),
            Stage::Stop { depth_cm, dur_sec } => {
                if acc.len() > 0 && acc.last().depth_cm == depth_cm {
                    extract_from(
                        stages.drop_first(),
                        acc.drop_last().push(DecoStop {
                            depth_cm,
                            duration_sec: (acc.last().duration_sec + dur_sec) as u64,
                        }),
                    )
                } else {
                    extract_from(
                        stages.drop_first(),
                        acc.push(DecoStop { depth_cm, duration_sec: dur_sec }),
                    )
                }
            },
        }
    }
}

/// Merge a plan's stages into its list of reported stops.
pub fn extract_stops(stages: &Vec<Stage>) -> (r: Vec<DecoStop>)
    requires
        stages@.len() <= PLAN_FUEL,
        forall|j: int| 0 <= j < stages@.len() ==> (match #[trigger] stages@[j] {
            Stage::Ascent { dur_sec, .. } => dur_sec <= STAGE_SEC_MAX,
            Stage::Stop { dur_sec, .. } => dur_sec <= STAGE_SEC_MAX,
        }),
    ensures
        r@ == extract_from(stages@, Seq::empty()),
{
    let mut out: Vec<DecoStop> = Vec::new();
    let mut i: usize = 0;
    proof {
        assert(stages@.skip(0) =~= stages@);
    }
    while i < stages.len()
        invariant
            i <= stages@.len(),
            stages@.len() <= PLAN_FUEL,
            forall|j: int| 0 <= j < stages@.len() ==> (match #[trigger] stages@[j] {
                Stage::Ascent { dur_sec, .. } => dur_sec <= STAGE_SEC_MAX,
                Stage::Stop { dur_sec, .. } => dur_sec <= STAGE_SEC_MAX,
            }),
            forall|j: int| 0 <= j < out@.len() ==> (#[trigger] out@[j]).duration_sec <= i * STAGE_SEC_MAX,
            extract_from(stages@, Seq::empty()) == extract_from(stages@.skip(i as int), out@),
        decreases stages@.len() - i,
    {
        proof {
            assert(stages@.skip(i as int)[0] == stages@[i as int]);
            assert(stages@.skip(i as int).drop_first() =~= stages@.skip(i as int + 1));
            assert(i as int * STAGE_SEC_MAX + STAGE_SEC_MAX == (i as int + 1) * STAGE_SEC_MAX) by (nonlinear_arith);
            assert(i as int * STAGE_SEC_MAX <= PLAN_FUEL * STAGE_SEC_MAX) by (nonlinear_arith)
                requires 0 <= i as int <= PLAN_FUEL;
        }
        match stages[i] {
            Stage::Ascent { .. } => {},
            Stage::Stop { depth_cm, dur_sec } => {
                let mergeable = if out.len() > 0 {
                    out[out.len() - 1].depth_cm == depth_cm
                } else {
                    false
                };
                if mergeable {
                    let last = out[out.len() - 1];
                    let merged = DecoStop { depth_cm, duration_sec: last.duration_sec + dur_sec };
                    let n = out.len();
                    let ghost prev = out@;
                    out.set(n - 1, merged);
                    proof {
                        assert(out@ =~= prev.drop_last().push(merged));
                    }
                } else {
                    out.push(DecoStop { depth_cm, duration_sec: dur_sec });
                }
            },
        }
        i = i + 1;
    }
    proof {
        assert(stages@.skip(stages@.len() as int) =~= Seq::<Stage>::empty());
    }
    out
}

} // verus!
