use deco_core::input::{GasMix, InputError, Profile, Segment};
use deco_core::schedule::Stage;
use deco_core::{evaluate, EvalError};
use deco_core::ceiling::{ceiling_cm, gf_at};
use deco_core::tissue::{apply_exposure, TissueState};

fn air() -> GasMix {
    GasMix { o2_ppm: 210_000, he_ppm: 0 }
}

fn profile(segments: Vec<Segment>, gas: GasMix, gf_low: u64, gf_high: u64) -> Profile {
    Profile { segments, gas, gf_low, gf_high }
}

fn seg(depth_cm: u64, duration_sec: u64) -> Segment {
    Segment { depth_cm, duration_sec }
}

#[test]
fn surface_profile_is_clear() {
    let p = profile(vec![seg(0, 60)], air(), 100, 100);
    let r = evaluate(&p).unwrap();
    assert_eq!(r.ceiling_cm, 0);
    assert!(!r.deco_required);
    assert_eq!(r.ndl_min, Some(999));
    assert_eq!(r.tts_sec, 0);
    assert!(r.stops.is_empty());
}

#[test]
fn ndl_at_thirty_meters_on_air() {
    // one minute into a 30 m air dive at gradient factors 100/100 the
    // remaining no-deco time is 16 minutes (the ceiling first appears in
    // minute 17 of the whole exposure)
    let p = profile(vec![seg(3000, 60)], air(), 100, 100);
    let r = evaluate(&p).unwrap();
    assert!(!r.deco_required);
    assert_eq!(r.ndl_min, Some(16));
}

#[test]
fn ndl_boundary_at_thirty_meters() {
    // strictly shorter than the limit: still no ceiling
    let before = profile(vec![seg(3000, 16 * 60)], air(), 100, 100);
    let rb = evaluate(&before).unwrap();
    assert_eq!(rb.ceiling_cm, 0);
    assert!(!rb.deco_required);
    // one full step beyond the limit: a ceiling has appeared
    let after = profile(vec![seg(3000, 18 * 60)], air(), 100, 100);
    let ra = evaluate(&after).unwrap();
    assert!(ra.ceiling_cm > 0);
    assert!(ra.deco_required);
}

#[test]
fn deco_flag_matches_ceiling_and_ndl_presence() {
    for (dur, _) in [(16 * 60, false), (18 * 60, true)] {
        let p = profile(vec![seg(3000, dur)], air(), 100, 100);
        let r = evaluate(&p).unwrap();
        assert_eq!(r.deco_required, r.ceiling_cm > 0);
        assert_eq!(r.ndl_min.is_some(), !r.deco_required);
    }
}

#[test]
fn zero_duration_segment_changes_nothing() {
    let p1 = profile(vec![seg(4000, 1500)], air(), 30, 70);
    let p2 = profile(vec![seg(4000, 1500), seg(4000, 0)], air(), 30, 70);
    let r1 = evaluate(&p1).unwrap();
    let r2 = evaluate(&p2).unwrap();
    assert_eq!(r1.ceiling_cm, r2.ceiling_cm);
    assert_eq!(r1.deco_required, r2.deco_required);
    assert_eq!(r1.ndl_min, r2.ndl_min);
    assert_eq!(r1.tts_sec, r2.tts_sec);
    assert_eq!(r1.stops, r2.stops);
    assert_eq!(r1.stages, r2.stages);
}

#[test]
fn forty_meter_dive_end_to_end() {
    // 40 m for 25 min on air at gradient factors 30/70
    let p = profile(vec![seg(4000, 1500)], air(), 30, 70);
    let r = evaluate(&p).unwrap();
    assert!(r.deco_required);
    assert_eq!(r.ndl_min, None);
    assert_eq!(r.ceiling_cm, 1791);
    assert!(!r.stops.is_empty());
    // stops at strictly decreasing depths, ending in the 3-6 m band
    for w in r.stops.windows(2) {
        assert!(w[0].depth_cm > w[1].depth_cm);
    }
    let last = r.stops.last().unwrap();
    assert!(last.depth_cm >= 300 && last.depth_cm <= 600);
    // far longer than the bare four-minute ascent from 40 m
    assert!(r.tts_sec > 240);
    assert_eq!(r.tts_sec, 4407);
    let depths: Vec<u64> = r.stops.iter().map(|s| s.depth_cm).collect();
    assert_eq!(depths, vec![1800, 1500, 1200, 900, 600, 300]);
    let durs: Vec<u64> = r.stops.iter().map(|s| s.duration_sec).collect();
    assert_eq!(durs, vec![180, 300, 540, 780, 840, 1500]);
    assert_eq!(r.max_depth_cm, 4000);
    assert_eq!(r.runtime_sec, 1500);
}

#[test]
fn schedule_shape_is_sound() {
    let p = profile(vec![seg(4000, 1500)], air(), 30, 70);
    let r = evaluate(&p).unwrap();
    // every ascent goes strictly up and starts where the previous leg ended;
    // every stop holds the current depth; the plan ends at the surface
    let mut depth = 4000u64;
    for st in r.stages.iter() {
        match st {
            Stage::Ascent { from_cm, to_cm, dur_sec } => {
                assert_eq!(*from_cm, depth);
                assert!(*to_cm < depth);
                assert!(*dur_sec > 0);
                depth = *to_cm;
            }
            Stage::Stop { depth_cm, dur_sec } => {
                assert_eq!(*depth_cm, depth);
                assert_eq!(*dur_sec, 60);
            }
        }
    }
    assert_eq!(depth, 0);
    // no zero-duration stop is reported
    assert!(r.stops.iter().all(|s| s.duration_sec > 0));
    // total time is the sum of the stage durations
    let total: u64 = r
        .stages
        .iter()
        .map(|st| match st {
            Stage::Ascent { dur_sec, .. } => *dur_sec,
            Stage::Stop { dur_sec, .. } => *dur_sec,
        })
        .sum();
    assert_eq!(total, r.tts_sec);
}

#[test]
fn simulated_schedule_respects_its_ceilings() {
    // replay the produced schedule through the tissue model: every ascent
    // leg is begun only when the ceiling in force at its destination
    // allows it, and the schedule ends at the surface with no ceiling
    let gas = air();
    let (lo, hi) = (30u64, 70u64);
    let p = profile(vec![seg(4000, 1500)], gas, lo, hi);
    let r = evaluate(&p).unwrap();
    assert!(r.deco_required);

    let n2_ppm = 1_000_000 - gas.o2_ppm - gas.he_ppm;
    let mut state = TissueState::initialize();
    apply_exposure(&mut state, n2_ppm, gas.he_ppm, 4000, 1500);
    let fs = ceiling_cm(&state, 100);
    let mut depth = 4000u64;
    for st in r.stages.iter() {
        match st {
            Stage::Ascent { from_cm, to_cm, dur_sec } => {
                assert_eq!(*from_cm, depth);
                let c = ceiling_cm(&state, gf_at(*to_cm, fs, lo, hi));
                assert!(c <= *to_cm, "ascent to {to_cm} under ceiling {c}");
                apply_exposure(&mut state, n2_ppm, gas.he_ppm, (depth + to_cm) / 2, *dur_sec);
                depth = *to_cm;
            }
            Stage::Stop { depth_cm, dur_sec } => {
                assert_eq!(*depth_cm, depth);
                apply_exposure(&mut state, n2_ppm, gas.he_ppm, depth, *dur_sec);
            }
        }
    }
    assert_eq!(depth, 0);
    assert_eq!(ceiling_cm(&state, gf_at(0, fs, lo, hi)), 0);
}

#[test]
fn identical_input_identical_output() {
    let p = profile(vec![seg(4000, 1500), seg(1200, 300)], air(), 30, 70);
    let r1 = evaluate(&p).unwrap();
    let r2 = evaluate(&p).unwrap();
    assert_eq!(r1.ceiling_cm, r2.ceiling_cm);
    assert_eq!(r1.deco_required, r2.deco_required);
    assert_eq!(r1.ndl_min, r2.ndl_min);
    assert_eq!(r1.tts_sec, r2.tts_sec);
    assert_eq!(r1.stages, r2.stages);
    assert_eq!(r1.stops, r2.stops);
    assert_eq!(r1.max_depth_cm, r2.max_depth_cm);
    assert_eq!(r1.runtime_sec, r2.runtime_sec);
}

#[test]
fn trimix_profile_evaluates() {
    let gas = GasMix { o2_ppm: 180_000, he_ppm: 350_000 };
    let p = profile(vec![seg(4000, 1200)], gas, 30, 70);
    let r = evaluate(&p).unwrap();
    assert_eq!(r.deco_required, r.ceiling_cm > 0);
    assert_eq!(r.ndl_min.is_some(), !r.deco_required);
}

#[test]
fn tighter_gradient_factors_deepen_the_ceiling() {
    let dive = vec![seg(4000, 1500)];
    let strict = evaluate(&profile(dive.clone(), air(), 30, 70)).unwrap();
    let middle = evaluate(&profile(dive.clone(), air(), 85, 85)).unwrap();
    let raw = evaluate(&profile(dive, air(), 100, 100)).unwrap();
    assert_eq!(raw.ceiling_cm, 654);
    assert_eq!(middle.ceiling_cm, 848);
    assert_eq!(strict.ceiling_cm, 1791);
    assert!(strict.tts_sec >= raw.tts_sec);
}

#[test]
fn rejects_empty_segment_list() {
    let p = profile(vec![], air(), 30, 70);
    assert_eq!(evaluate(&p).unwrap_err(), EvalError::Invalid(InputError::EmptySegments));
}

#[test]
fn rejects_gas_fraction_out_of_range() {
    let gas = GasMix { o2_ppm: 1_000_001, he_ppm: 0 };
    let p = profile(vec![seg(1000, 60)], gas, 30, 70);
    assert_eq!(evaluate(&p).unwrap_err(), EvalError::Invalid(InputError::GasFractionRange));
}

#[test]
fn rejects_gas_fractions_exceeding_one() {
    let gas = GasMix { o2_ppm: 600_000, he_ppm: 600_000 };
    let p = profile(vec![seg(1000, 60)], gas, 30, 70);
    assert_eq!(evaluate(&p).unwrap_err(), EvalError::Invalid(InputError::GasFractionSum));
}

#[test]
fn rejects_gradient_factor_above_hundred() {
    let p = profile(vec![seg(1000, 60)], air(), 30, 101);
    assert_eq!(evaluate(&p).unwrap_err(), EvalError::Invalid(InputError::GradientFactorRange));
}

#[test]
fn rejects_depth_beyond_model_range() {
    let p = profile(vec![seg(100_001, 60)], air(), 30, 70);
    assert_eq!(evaluate(&p).unwrap_err(), EvalError::Invalid(InputError::DepthTooLarge));
}

#[test]
fn rejects_overlong_segment() {
    let p = profile(vec![seg(1000, 86_401)], air(), 30, 70);
    assert_eq!(evaluate(&p).unwrap_err(), EvalError::Invalid(InputError::DurationTooLarge));
}

#[test]
fn rejects_too_many_segments() {
    let segs = vec![seg(100, 1); 10_001];
    let p = profile(segs, air(), 30, 70);
    assert_eq!(evaluate(&p).unwrap_err(), EvalError::Invalid(InputError::TooManySegments));
}

#[test]
fn echoes_profile_metrics() {
    let p = profile(vec![seg(1000, 600), seg(3000, 300), seg(500, 60)], air(), 100, 100);
    let r = evaluate(&p).unwrap();
    assert_eq!(r.max_depth_cm, 3000);
    assert_eq!(r.runtime_sec, 960);
}
