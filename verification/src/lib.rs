//! Decompression status for a scuba dive profile.
//!
//! A multi-compartment inert-gas saturation model (Bühlmann ZH-L16C) with
//! gradient-factor ceiling smoothing, computed throughout in fixed-point
//! integer arithmetic so that every result is an exact function of the
//! input. From a sequence of constant-depth segments and one breathing gas
//! the crate derives the decompression ceiling, the no-decompression limit,
//! a staged ascent schedule and the total time to surface.
use vstd::prelude::*;

pub mod ceiling;
pub mod digest;
pub mod input;
pub mod ndl;
pub mod schedule;
pub mod tissue;
pub mod zhl;

use crate::ceiling::{ceiling_now, ceiling_now_spec};
use crate::input::{max_depth_cm, max_depth_spec, runtime_sec, runtime_spec, validate, validate_spec, GasMix, InputError, Profile, Segment};
use crate::ndl::{ndl_minutes, ndl_rec, NDL_CAP_MIN};
use crate::schedule::{extract_from, extract_stops, plan, plan_rec, lemma_plan_rec_sound, DecoStop, Stage, PLAN_FUEL};
use crate::tissue::{apply_exposure, apply_n2, apply_he, TissueState};
use crate::zhl::NCOMP;

verus! {

/// Nitrogen loadings at the surface, before any segment.
pub open spec fn init_n2s() -> Seq<u64> {
    Seq::new(NCOMP as nat, |i: int| TissueState::initial_n2() as u64)
}

/// Helium loadings at the surface: none.
pub open spec fn init_hes() -> Seq<u64> {
    Seq::new(NCOMP as nat, |i: int| 0u64)
}

/// Nitrogen loadings after running the whole profile, segment by segment.
pub open spec fn run_n2(segs: Seq<Segment>, gas: GasMix) -> Seq<u64>
    decreases segs.len(),
{
    if segs.len() == 0 {
        init_n2s()
    } else {
        apply_n2(run_n2(segs.drop_last(), gas), gas.n2_ppm_spec(), segs.last().depth_cm as int, segs.last().duration_sec as nat)
    }
}

/// Helium loadings after running the whole profile.
pub open spec fn run_he(segs: Seq<Segment>, gas: GasMix) -> Seq<u64>
    decreases segs.len(),
{
    if segs.len() == 0 {
        init_hes()
    } else {
        apply_he(run_he(segs.drop_last(), gas), gas.he_ppm as int, segs.last().depth_cm as int, segs.last().duration_sec as nat)
    }
}

/// Appending a zero-duration segment to a profile changes no loading, so
/// every output derived from the loadings is unchanged as well.
pub proof fn lemma_zero_duration_segment(segs: Seq<Segment>, gas: GasMix, depth_cm: u64)
    ensures
        run_n2(segs.push(Segment { depth_cm, duration_sec: 0 }), gas) == run_n2(segs, gas),
        run_he(segs.push(Segment { depth_cm, duration_sec: 0 }), gas) == run_he(segs, gas),
{
    let segs2 = segs.push(Segment { depth_cm, duration_sec: 0 });
    assert(segs2.drop_last() =~= segs);
    crate::tissue::lemma_zero_exposure_noop(run_n2(segs, gas), run_he(segs, gas), gas.n2_ppm_spec(), gas.he_ppm as int, depth_cm as int);
}

/// Running a profile keeps every loading within the model's range.
pub proof fn lemma_run_n2_wf(segs: Seq<Segment>, gas: GasMix)
    requires
        gas.wf(),
        forall|j: int| 0 <= j < segs.len() ==> (#[trigger] segs[j]).depth_cm <= crate::zhl::MAX_DEPTH_CM,
    ensures
        run_n2(segs, gas).len() == NCOMP,
        forall|i: int| 0 <= i < NCOMP ==> run_n2(segs, gas)[i] <= crate::zhl::P_MAX,
    decreases segs.len(),
{
    crate::zhl::lemma_insp_bounds(790_000, 0);
    if segs.len() == 0 {
    } else {
        lemma_run_n2_wf(segs.drop_last(), gas);
        crate::tissue::lemma_apply_n2_wf(
            run_n2(segs.drop_last(), gas), gas.n2_ppm_spec(),
            segs.last().depth_cm as int, segs.last().duration_sec as nat,
        );
    }
}

/// A helium-free gas leaves every helium loading at zero for the whole run.
pub proof fn lemma_run_he_zero(segs: Seq<Segment>, gas: GasMix)
    requires
        gas.he_ppm == 0,
    ensures
        run_he(segs, gas).len() == NCOMP,
        forall|i: int| 0 <= i < NCOMP ==> run_he(segs, gas)[i] == 0,
    decreases segs.len(),
{
    if segs.len() > 0 {
        lemma_run_he_zero(segs.drop_last(), gas);
        crate::tissue::lemma_apply_he_zero(
            run_he(segs.drop_last(), gas),
            segs.last().depth_cm as int, segs.last().duration_sec as nat,
        );
    }
}

/// Two profiles equal but for segment `k`, where the second is at least as
/// deep for the same time: the second never carries smaller loadings.
pub proof fn lemma_run_n2_mono_depth(segs1: Seq<Segment>, segs2: Seq<Segment>, gas: GasMix, k: int)
    requires
        gas.wf(),
        segs1.len() == segs2.len(),
        0 <= k < segs1.len(),
        forall|j: int| 0 <= j < segs1.len() && j != k ==> segs1[j] == segs2[j],
        segs1[k].duration_sec == segs2[k].duration_sec,
        segs1[k].depth_cm <= segs2[k].depth_cm,
        forall|j: int| 0 <= j < segs1.len() ==> (#[trigger] segs1[j]).depth_cm <= crate::zhl::MAX_DEPTH_CM,
        forall|j: int| 0 <= j < segs2.len() ==> (#[trigger] segs2[j]).depth_cm <= crate::zhl::MAX_DEPTH_CM,
    ensures
        forall|i: int| 0 <= i < NCOMP ==> run_n2(segs1, gas)[i] <= run_n2(segs2, gas)[i],
    decreases segs1.len(),
{
    let n = segs1.len() as int;
    lemma_run_n2_wf(segs1.drop_last(), gas);
    lemma_run_n2_wf(segs2.drop_last(), gas);
    if k == n - 1 {
        assert(segs1.drop_last() =~= segs2.drop_last());
        crate::tissue::lemma_apply_n2_mono(
            run_n2(segs1.drop_last(), gas), run_n2(segs2.drop_last(), gas),
            gas.n2_ppm_spec(),
            segs1.last().depth_cm as int, segs2.last().depth_cm as int,
            segs1.last().duration_sec as nat,
        );
    } else {
        lemma_run_n2_mono_depth(segs1.drop_last(), segs2.drop_last(), gas, k);
        assert(segs1.last() == segs2.last());
        crate::tissue::lemma_apply_n2_mono(
            run_n2(segs1.drop_last(), gas), run_n2(segs2.drop_last(), gas),
            gas.n2_ppm_spec(),
            segs1.last().depth_cm as int, segs2.last().depth_cm as int,
            segs1.last().duration_sec as nat,
        );
    }
}

/// Two profiles equal but for segment `k`, where the second stays longer at
/// the same depth, and segment `k` is on-gassing (no loading above the
/// alveolar pressure of its depth when it begins): the second never carries
/// smaller loadings.
pub proof fn lemma_run_n2_mono_duration(segs1: Seq<Segment>, segs2: Seq<Segment>, gas: GasMix, k: int)
    requires
        gas.wf(),
        segs1.len() == segs2.len(),
        0 <= k < segs1.len(),
        forall|j: int| 0 <= j < segs1.len() && j != k ==> segs1[j] == segs2[j],
        segs1[k].depth_cm == segs2[k].depth_cm,
        segs1[k].duration_sec <= segs2[k].duration_sec,
        forall|j: int| 0 <= j < segs1.len() ==> (#[trigger] segs1[j]).depth_cm <= crate::zhl::MAX_DEPTH_CM,
        forall|i: int| 0 <= i < NCOMP
            ==> run_n2(segs1.take(k), gas)[i]
                <= crate::zhl::insp_spec(gas.n2_ppm_spec(), segs1[k].depth_cm as int),
    ensures
        forall|i: int| 0 <= i < NCOMP ==> run_n2(segs1, gas)[i] <= run_n2(segs2, gas)[i],
    decreases segs1.len(),
{
    let n = segs1.len() as int;
    assert(forall|j: int| 0 <= j < segs2.len() ==> (#[trigger] segs2[j]).depth_cm <= crate::zhl::MAX_DEPTH_CM);
    lemma_run_n2_wf(segs1.drop_last(), gas);
    lemma_run_n2_wf(segs2.drop_last(), gas);
    if k == n - 1 {
        assert(segs1.drop_last() =~= segs2.drop_last());
        assert(segs1.take(k) =~= segs1.drop_last());
        crate::tissue::lemma_apply_n2_mono_time(
            run_n2(segs1.drop_last(), gas), gas.n2_ppm_spec(),
            segs1.last().depth_cm as int,
            segs1.last().duration_sec as nat, segs2.last().duration_sec as nat,
        );
    } else {
        assert(segs1.drop_last().take(k) =~= segs1.take(k));
        lemma_run_n2_mono_duration(segs1.drop_last(), segs2.drop_last(), gas, k);
        assert(segs1.last() == segs2.last());
        crate::tissue::lemma_apply_n2_mono(
            run_n2(segs1.drop_last(), gas), run_n2(segs2.drop_last(), gas),
            gas.n2_ppm_spec(),
            segs1.last().depth_cm as int, segs2.last().depth_cm as int,
            segs1.last().duration_sec as nat,
        );
    }
}

/// Monotonicity in depth: on a helium-free gas, under a fixed gradient
/// factor, making any one segment deeper never lowers the resulting
/// ceiling.
pub proof fn lemma_deeper_segment_never_lowers_ceiling(segs1: Seq<Segment>, segs2: Seq<Segment>, gas: GasMix, k: int, gf: int)
    requires
        gas.wf(),
        gas.he_ppm == 0,
        segs1.len() == segs2.len(),
        0 <= k < segs1.len(),
        forall|j: int| 0 <= j < segs1.len() && j != k ==> segs1[j] == segs2[j],
        segs1[k].duration_sec == segs2[k].duration_sec,
        segs1[k].depth_cm <= segs2[k].depth_cm,
        forall|j: int| 0 <= j < segs1.len() ==> (#[trigger] segs1[j]).depth_cm <= crate::zhl::MAX_DEPTH_CM,
        forall|j: int| 0 <= j < segs2.len() ==> (#[trigger] segs2[j]).depth_cm <= crate::zhl::MAX_DEPTH_CM,
        0 <= gf <= 100,
    ensures
        crate::ceiling::ceiling_spec(run_n2(segs1, gas), run_he(segs1, gas), gf)
            <= crate::ceiling::ceiling_spec(run_n2(segs2, gas), run_he(segs2, gas), gf),
{
    lemma_run_n2_mono_depth(segs1, segs2, gas, k);
    lemma_run_n2_wf(segs1, gas);
    lemma_run_n2_wf(segs2, gas);
    lemma_run_he_zero(segs1, gas);
    lemma_run_he_zero(segs2, gas);
    assert(run_he(segs1, gas) =~= run_he(segs2, gas));
    crate::ceiling::lemma_ceiling_mono_n2(run_n2(segs1, gas), run_n2(segs2, gas), run_he(segs1, gas), gf);
}

/// Monotonicity in duration: on a helium-free gas, under a fixed gradient
/// factor, staying longer at any one segment's depth never lowers the
/// resulting ceiling, provided that segment is on-gassing when it begins.
/// (A longer stay at a shallow depth while off-gassing genuinely lowers
/// the ceiling, so that case is excluded.)
pub proof fn lemma_longer_segment_never_lowers_ceiling(segs1: Seq<Segment>, segs2: Seq<Segment>, gas: GasMix, k: int, gf: int)
    requires
        gas.wf(),
        gas.he_ppm == 0,
        segs1.len() == segs2.len(),
        0 <= k < segs1.len(),
        forall|j: int| 0 <= j < segs1.len() && j != k ==> segs1[j] == segs2[j],
        segs1[k].depth_cm == segs2[k].depth_cm,
        segs1[k].duration_sec <= segs2[k].duration_sec,
        forall|j: int| 0 <= j < segs1.len() ==> (#[trigger] segs1[j]).depth_cm <= crate::zhl::MAX_DEPTH_CM,
        forall|i: int| 0 <= i < NCOMP
            ==> run_n2(segs1.take(k), gas)[i]
                <= crate::zhl::insp_spec(gas.n2_ppm_spec(), segs1[k].depth_cm as int),
        0 <= gf <= 100,
    ensures
        crate::ceiling::ceiling_spec(run_n2(segs1, gas), run_he(segs1, gas), gf)
            <= crate::ceiling::ceiling_spec(run_n2(segs2, gas), run_he(segs2, gas), gf),
{
    lemma_run_n2_mono_duration(segs1, segs2, gas, k);
    lemma_run_n2_wf(segs1, gas);
    lemma_run_n2_wf(segs2, gas);
    lemma_run_he_zero(segs1, gas);
    lemma_run_he_zero(segs2, gas);
    assert(run_he(segs1, gas) =~= run_he(segs2, gas));
    crate::ceiling::lemma_ceiling_mono_n2(run_n2(segs1, gas), run_n2(segs2, gas), run_he(segs1, gas), gf);
}

/// What the assessment reports.
#[derive(Debug)]
pub struct Report {
    /// Current decompression ceiling, in centimetres; zero when clear.
    pub ceiling_cm: u64,
    /// Whether staged decompression is required (`ceiling_cm > 0`).
    pub deco_required: bool,
    /// No-decompression limit in minutes, present exactly when no
    /// decompression is required, capped at `NDL_CAP_MIN`.
    pub ndl_min: Option<u64>,
    /// The planned ascent, stage by stage.
    pub stages: Vec<Stage>,
    /// The decompression stops of the plan: ascent legs removed,
    /// consecutive minutes at one depth merged. Never holds a
    /// zero-duration entry.
    pub stops: Vec<DecoStop>,
    /// Total time to surface along the plan, in seconds.
    pub tts_sec: u64,
    /// Deepest segment depth of the input, in centimetres.
    pub max_depth_cm: u64,
    /// Total duration of the input segments, in seconds.
    pub runtime_sec: u64,
}

/// Why no report was produced.
#[derive(Clone, Copy, Debug, PartialEq, Eq, Structural)]
pub enum EvalError {
    /// The profile failed validation.
    Invalid(InputError),
    /// The ascent plan did not converge within its budget; reported as a
    /// fault rather than truncated.
    ScheduleDivergence,
}

/// Everything the report must say, as a predicate over the result.
pub open spec fn evaluate_post(profile: Profile, r: Result<Report, EvalError>) -> bool {
    match validate_spec(profile.segments@, profile.gas, profile.gf_low as int, profile.gf_high as int) {
        Err(e) => r == Err::<Report, EvalError>(EvalError::Invalid(e)),
        Ok(()) => {
            let segs = profile.segments@;
            let gas = profile.gas;
            let lo = profile.gf_low as int;
            let hi = profile.gf_high as int;
            let n2s = run_n2(segs, gas);
            let hes = run_he(segs, gas);
            let dl = segs.last().depth_cm as int;
            let cnow = ceiling_now_spec(n2s, hes, dl, lo, hi);
            let fs = crate::ceiling::ceiling_spec(n2s, hes, 100);
            match plan_rec(n2s, hes, gas, dl, fs, lo, hi, PLAN_FUEL as nat) {
                None => r == Err::<Report, EvalError>(EvalError::ScheduleDivergence),
                Some(pt) => {
                    &&& r is Ok
                    &&& r->Ok_0.ceiling_cm == cnow
                    &&& r->Ok_0.deco_required == (cnow > 0)
                    &&& r->Ok_0.ndl_min == (if cnow > 0 {
                        Option::<u64>::None
                    } else {
                        Option::<u64>::Some(ndl_rec(n2s, hes, gas, dl, lo, hi, NDL_CAP_MIN as nat) as u64)
                    })
                    &&& r->Ok_0.stages@ == pt.0
                    &&& r->Ok_0.tts_sec == pt.1
                    &&& r->Ok_0.stops@ == extract_from(pt.0, Seq::empty())
                    &&& r->Ok_0.max_depth_cm == max_depth_spec(segs)
                    &&& r->Ok_0.runtime_sec == runtime_spec(segs)
                },
            }
        },
    }
}

/// Assess a dive profile: validate it, load the tissues through every
/// segment, and report ceiling, no-decompression limit, ascent plan,
/// stops and total time to surface. The whole result is an exact function
/// of the input, pinned by `evaluate_post`.
pub fn evaluate(profile: &Profile) -> (r: Result<Report, EvalError>)
    ensures
        evaluate_post(*profile, r),
{
    if let Err(e) = validate(profile) {
        return Err(EvalError::Invalid(e));
    }
    let gas = profile.gas;
    let lo = profile.gf_low;
    let hi = profile.gf_high;
    let n2_ppm = gas.n2_ppm();
    let he_ppm = gas.he_ppm;
    let mut state = TissueState::initialize();
    proof {
        assert(state.n2@ =~= init_n2s());
        assert(state.he@ =~= init_hes());
    }
    let segs = &profile.segments;
    let mut i: usize = 0;
    while i < segs.len()
        invariant
            i <= segs@.len(),
            crate::input::profile_ok(segs@, gas, lo as int, hi as int),
            gas.wf(),
            lo <= 100,
            hi <= 100,
            n2_ppm == gas.n2_ppm_spec(),
            he_ppm == gas.he_ppm,
            state.wf(),
            state.n2@ == run_n2(segs@.take(i as int), gas),
            state.he@ == run_he(segs@.take(i as int), gas),
        decreases segs@.len() - i,
    {
        proof {
            assert(segs@.take(i as int + 1).drop_last() =~= segs@.take(i as int));
            assert(segs@.take(i as int + 1).last() == segs@[i as int]);
        }
        let seg = segs[i];
        apply_exposure(&mut state, n2_ppm, he_ppm, seg.depth_cm, seg.duration_sec);
        i = i + 1;
    }
    proof {
        assert(segs@.take(segs@.len() as int) =~= segs@);
    }
    let dl = segs[segs.len() - 1].depth_cm;
    proof {
        assert(segs@.last() == segs@[segs@.len() - 1]);
    }
    let cnow = ceiling_now(&state, dl, lo, hi);
    let deco_required = cnow > 0;
    let ndl_min = if deco_required {
        None
    } else {
        Some(ndl_minutes(&state, &gas, dl, lo, hi))
    };
    match plan(&state, &gas, dl, lo, hi) {
        None => Err(EvalError::ScheduleDivergence),
        Some((stages, tts_sec)) => {
            proof {
                lemma_plan_rec_sound(
                    state.n2@, state.he@, gas, dl as int,
                    crate::ceiling::ceiling_spec(state.n2@, state.he@, 100),
                    lo as int, hi as int, PLAN_FUEL as nat,
                );
            }
            let stops = extract_stops(&stages);
            let max_depth = max_depth_cm(segs);
            let runtime = runtime_sec(segs);
            Ok(Report {
                ceiling_cm: cnow,
                deco_required,
                ndl_min,
                stages,
                stops,
                tts_sec,
                max_depth_cm: max_depth,
                runtime_sec: runtime,
            })
        },
    }
}

} // verus!
