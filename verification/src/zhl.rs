//! Fixed-point units and the ZH-L16C compartment table.
//!
//! Pressures are integers in hundredths of a microbar: `BAR_PU` units equal
//! one bar. Depths are integers in centimetres of seawater, with ten metres
//! of depth adding one bar of ambient pressure. Per-second inert-gas decay
//! factors are integers scaled by `FSCALE`: a compartment with half-time `h`
//! minutes carries the factor closest to `FSCALE * 2^(-1 / (60 h))`.
use vstd::prelude::*;

verus! {

/// Pressure units per bar.
pub const BAR_PU: u64 = 100_000_000;

/// Ambient pressure at the surface (one bar).
pub const SURFACE_PU: u64 = 100_000_000;

/// Alveolar water vapor pressure (0.0627 bar).
pub const WATER_VAPOR_PU: u64 = 6_270_000;

/// Pressure added by one centimetre of seawater.
pub const CM_PU: u64 = 100_000;

/// Gas fractions are in parts per million.
pub const PPM: u64 = 1_000_000;

/// Scale of the per-second decay factors (2^30).
pub const FSCALE: u64 = 1_073_741_824;

/// Deepest depth the model accepts, in centimetres (1000 m).
pub const MAX_DEPTH_CM: u64 = 100_000;

/// Longest single segment the model accepts, in seconds (24 h).
pub const MAX_SEG_SEC: u64 = 86_400;

/// Most segments a profile may hold.
pub const MAX_SEGS: u64 = 10_000;

/// Largest tissue or alveolar pressure that can arise: ambient at `MAX_DEPTH_CM`.
pub const P_MAX: u64 = 10_100_000_000;

/// Number of tissue compartments.
pub const NCOMP: u64 = 16;

/// Upper bound on every `a` coefficient.
pub const A_MAX: u64 = 175_000_000;

/// Lower bound on every `b` coefficient.
pub const B_MIN: u64 = 42_450_000;

/// `b` coefficients are fractions of this scale (so all are below it).
pub const B_SCALE: u64 = 100_000_000;

/// Per-compartment table: (N2 decay factor per second, N2 `a`, N2 `b`,
/// He decay factor per second, He `a`, He `b`). The `a` values are in
/// pressure units; the `b` values are fractions scaled by `B_SCALE`.
pub open spec fn params(i: int) -> (int, int, int, int, int, int) {
    if i == 0 { (1070645210, 125990000, 50500000, 1065558366, 174240000, 42450000) }
    else if i == 1 { (1072192399, 100000000, 65140000, 1069642269, 138300000, 57470000) }
    else if i == 2 { (1072749934, 86180000, 72220000, 1071116997, 119190000, 65270000) }
    else if i == 3 { (1073071528, 75620000, 78250000, 1071968704, 104580000, 72230000) }
    else if i == 4 { (1073282502, 62000000, 81260000, 1072527589, 92200000, 75820000) }
    else if i == 5 { (1073417999, 50430000, 84340000, 1072885511, 82050000, 79570000) }
    else if i == 6 { (1073513407, 44100000, 86930000, 1073137788, 73050000, 82790000) }
    else if i == 7 { (1073580741, 40000000, 89100000, 1073315789, 65020000, 85530000) }
    else if i == 8 { (1073628029, 37500000, 90920000, 1073440790, 59500000, 87570000) }
    else if i == 9 { (1073656866, 35000000, 92220000, 1073517090, 55450000, 89030000) }
    else if i == 10 { (1073675493, 32950000, 93190000, 1073566363, 53330000, 89970000) }
    else if i == 11 { (1073689924, 30650000, 94030000, 1073604525, 51890000, 90730000) }
    else if i == 12 { (1073701155, 28350000, 94770000, 1073634237, 51810000, 91220000) }
    else if i == 13 { (1073710018, 26100000, 95440000, 1073657684, 51760000, 91710000) }
    else if i == 14 { (1073716916, 24800000, 96020000, 1073675930, 51720000, 92170000) }
    else { (1073722290, 23270000, 96530000, 1073690147, 51190000, 92670000) }
}

/// Every table entry is bounded: decay factors are below `FSCALE`, `a`
/// coefficients are positive and at most `A_MAX`, `b` coefficients lie
/// between `B_MIN` and `B_SCALE`.
pub proof fn lemma_params_bounds(i: int)
    requires
        0 <= i < NCOMP,
    ensures
        0 < params(i).0 < FSCALE,
        0 < params(i).1 <= A_MAX,
        B_MIN <= params(i).2 < B_SCALE,
        0 < params(i).3 < FSCALE,
        0 < params(i).4 <= A_MAX,
        B_MIN <= params(i).5 < B_SCALE,
{
}

/// Table lookup for executable code.
pub fn comp_params(i: usize) -> (r: (u64, u64, u64, u64, u64, u64))
    requires
        i < NCOMP,
    ensures
        r.0 == params(i as int).0,
        r.1 == params(i as int).1,
        r.2 == params(i as int).2,
        r.3 == params(i as int).3,
        r.4 == params(i as int).4,
        r.5 == params(i as int).5,
{
    if i == 0 { (1070645210, 125990000, 50500000, 1065558366, 174240000, 42450000) }
    else if i == 1 { (1072192399, 100000000, 65140000, 1069642269, 138300000, 57470000) }
    else if i == 2 { (1072749934, 86180000, 72220000, 1071116997, 119190000, 65270000) }
    else if i == 3 { (1073071528, 75620000, 78250000, 1071968704, 104580000, 72230000) }
    else if i == 4 { (1073282502, 62000000, 81260000, 1072527589, 92200000, 75820000) }
    else if i == 5 { (1073417999, 50430000, 84340000, 1072885511, 82050000, 79570000) }
    else if i == 6 { (1073513407, 44100000, 86930000, 1073137788, 73050000, 82790000) }
    else if i == 7 { (1073580741, 40000000, 89100000, 1073315789, 65020000, 85530000) }
    else if i == 8 { (1073628029, 37500000, 90920000, 1073440790, 59500000, 87570000) }
    else if i == 9 { (1073656866, 35000000, 92220000, 1073517090, 55450000, 89030000) }
    else if i == 10 { (1073675493, 32950000, 93190000, 1073566363, 53330000, 89970000) }
    else if i == 11 { (1073689924, 30650000, 94030000, 1073604525, 51890000, 90730000) }
    else if i == 12 { (1073701155, 28350000, 94770000, 1073634237, 51810000, 91220000) }
    else if i == 13 { (1073710018, 26100000, 95440000, 1073657684, 51760000, 91710000) }
    else if i == 14 { (1073716916, 24800000, 96020000, 1073675930, 51720000, 92170000) }
    else { (1073722290, 23270000, 96530000, 1073690147, 51190000, 92670000) }
}

/// Ambient pressure at a depth.
pub open spec fn amb_spec(depth_cm: int) -> int {
    SURFACE_PU + depth_cm * CM_PU
}

pub fn ambient_pu(depth_cm: u64) -> (r: u64)
    requires
        depth_cm <= MAX_DEPTH_CM,
    ensures
        r == amb_spec(depth_cm as int),
        r <= P_MAX,
{
    SURFACE_PU + depth_cm * CM_PU
}

/// Alveolar partial pressure of a gas with fraction `ppm` at a depth:
/// the ambient pressure less water vapor, scaled by the fraction.
pub open spec fn insp_spec(ppm: int, depth_cm: int) -> int {
    ppm * (amb_spec(depth_cm) - WATER_VAPOR_PU) / (PPM as int)
}

pub fn inspired_pu(ppm: u64, depth_cm: u64) -> (r: u64)
    requires
        ppm <= PPM,
        depth_cm <= MAX_DEPTH_CM,
    ensures
        r == insp_spec(ppm as int, depth_cm as int),
        r <= P_MAX,
{
    let amb = ambient_pu(depth_cm);
    let dry = amb - WATER_VAPOR_PU;
    proof {
        assert(ppm * dry <= PPM * dry) by (nonlinear_arith)
            requires ppm <= PPM, dry >= 0;
        vstd::arithmetic::div_mod::lemma_div_is_ordered(ppm as int * dry as int, PPM as int * dry as int, PPM as int);
        vstd::arithmetic::div_mod::lemma_div_by_multiple(dry as int, PPM as int);
        assert(PPM as int * dry as int == dry as int * PPM as int) by (nonlinear_arith);
    }
    ppm * dry / PPM
}

/// The alveolar pressure of a gas fraction stays within the model's range.
pub proof fn lemma_insp_bounds(ppm: int, d: int)
    requires
        0 <= ppm <= PPM,
        0 <= d <= MAX_DEPTH_CM,
    ensures
        0 <= insp_spec(ppm, d) <= P_MAX,
{
    let dry = amb_spec(d) - WATER_VAPOR_PU;
    assert(ppm * dry <= PPM * dry) by (nonlinear_arith)
        requires ppm <= PPM, dry >= 0;
    vstd::arithmetic::div_mod::lemma_div_is_ordered(ppm * dry, PPM as int * dry, PPM as int);
    vstd::arithmetic::div_mod::lemma_div_by_multiple(dry, PPM as int);
    assert(PPM as int * dry == dry * (PPM as int)) by (nonlinear_arith);
    assert(ppm * dry >= 0) by (nonlinear_arith)
        requires ppm >= 0, dry >= 0;
    vstd::arithmetic::div_mod::lemma_div_pos_is_pos(ppm * dry, PPM as int);
}

/// Alveolar pressure never falls as depth grows.
pub proof fn lemma_insp_mono(ppm: int, d1: int, d2: int)
    requires
        0 <= ppm,
        0 <= d1 <= d2,
    ensures
        insp_spec(ppm, d1) <= insp_spec(ppm, d2),
{
    assert(ppm * (amb_spec(d1) - WATER_VAPOR_PU) <= ppm * (amb_spec(d2) - WATER_VAPOR_PU)) by (nonlinear_arith)
        requires 0 <= ppm, amb_spec(d1) <= amb_spec(d2);
    vstd::arithmetic::div_mod::lemma_div_is_ordered(
        ppm * (amb_spec(d1) - WATER_VAPOR_PU),
        ppm * (amb_spec(d2) - WATER_VAPOR_PU),
        PPM as int,
    );
}

} // verus!
