//! The dive profile: segments, gas mix, gradient factors, and validation.
//!
//! Depths are centimetres, durations seconds, gas fractions parts per
//! million, gradient factors whole percent. A profile is checked before the
//! model runs; the model itself assumes validated inputs.
use vstd::prelude::*;
use crate::zhl::{MAX_DEPTH_CM, MAX_SEG_SEC, MAX_SEGS, PPM};

verus! {

/// Breathing gas: oxygen and helium fractions in parts per million;
/// the remainder is inert nitrogen.
#[derive(Clone, Copy, Debug, PartialEq, Eq, Structural)]
pub struct GasMix {
    pub o2_ppm: u64,
    pub he_ppm: u64,
}

impl GasMix {
    /// Fractions are within range and sum to at most one.
    pub open spec fn wf(self) -> bool {
        &&& self.o2_ppm <= PPM
        &&& self.he_ppm <= PPM
        &&& self.o2_ppm + self.he_ppm <= PPM
    }

    /// The inert nitrogen fraction: whatever oxygen and helium leave.
    pub open spec fn n2_ppm_spec(self) -> int {
        PPM - self.o2_ppm - self.he_ppm
    }

    pub fn n2_ppm(&self) -> (r: u64)
        requires
            self.wf(),
        ensures
            r == self.n2_ppm_spec(),
            r <= PPM,
    {
        PPM - self.o2_ppm - self.he_ppm
    }
}

/// One constant-depth leg of the dive, in chronological order.
#[derive(Clone, Copy, Debug, PartialEq, Eq, Structural)]
pub struct Segment {
    pub depth_cm: u64,
    pub duration_sec: u64,
}

/// A whole dive profile.
pub struct Profile {
    pub segments: Vec<Segment>,
    pub gas: GasMix,
    pub gf_low: u64,
    pub gf_high: u64,
}

/// Why a profile was rejected.
#[derive(Clone, Copy, Debug, PartialEq, Eq, Structural)]
pub enum InputError {
    /// The segment list is empty.
    EmptySegments,
    /// An oxygen or helium fraction exceeds one.
    GasFractionRange,
    /// Oxygen and helium together exceed one.
    GasFractionSum,
    /// A gradient factor exceeds 100 percent.
    GradientFactorRange,
    /// More segments than the model accepts.
    TooManySegments,
    /// A segment is deeper than the model accepts.
    DepthTooLarge,
    /// A segment is longer than the model accepts.
    DurationTooLarge,
}

/// First fault among the segments, scanning in order, depth before duration.
pub open spec fn segments_check(segs: Seq<Segment>) -> Option<InputError>
    decreases segs.len(),
{
    if segs.len() == 0 {
        None
    } else if segs[0].depth_cm > MAX_DEPTH_CM {
        Some(InputError::DepthTooLarge)
    } else if segs[0].duration_sec > MAX_SEG_SEC {
        Some(InputError::DurationTooLarge)
    } else {
        segments_check(segs.drop_first())
    }
}

/// Outcome of validation: the first failing rule in a fixed order.
pub open spec fn validate_spec(segs: Seq<Segment>, gas: GasMix, gf_low: int, gf_high: int) -> Result<(), InputError> {
    if segs.len() == 0 {
        Err(InputError::EmptySegments)
    } else if gas.o2_ppm > PPM || gas.he_ppm > PPM {
        Err(InputError::GasFractionRange)
    } else if gas.o2_ppm + gas.he_ppm > PPM {
        Err(InputError::GasFractionSum)
    } else if gf_low > 100 || gf_high > 100 {
        Err(InputError::GradientFactorRange)
    } else if segs.len() > MAX_SEGS {
        Err(InputError::TooManySegments)
    } else {
        match segments_check(segs) {
            Some(e) => Err(e),
            None => Ok(()),
        }
    }
}

/// Everything the model relies on once validation has passed.
pub open spec fn profile_ok(segs: Seq<Segment>, gas: GasMix, gf_low: int, gf_high: int) -> bool {
    &&& segs.len() > 0
    &&& gas.wf()
    &&& 0 <= gf_low <= 100
    &&& 0 <= gf_high <= 100
    &&& segs.len() <= MAX_SEGS
    &&& forall|i: int| 0 <= i < segs.len() ==> (#[trigger] segs[i]).depth_cm <= MAX_DEPTH_CM
    &&& forall|i: int| 0 <= i < segs.len() ==> (#[trigger] segs[i]).duration_sec <= MAX_SEG_SEC
}

proof fn lemma_segments_check_ok(segs: Seq<Segment>)
    requires
        segments_check(segs) is None,
    ensures
        forall|i: int| 0 <= i < segs.len() ==> (#[trigger] segs[i]).depth_cm <= MAX_DEPTH_CM,
        forall|i: int| 0 <= i < segs.len() ==> (#[trigger] segs[i]).duration_sec <= MAX_SEG_SEC,
    decreases segs.len(),
{
    if segs.len() > 0 {
        lemma_segments_check_ok(segs.drop_first());
        assert forall|i: int| 0 <= i < segs.len() implies (#[trigger] segs[i]).depth_cm <= MAX_DEPTH_CM
            && segs[i].duration_sec <= MAX_SEG_SEC by {
            if i > 0 {
                assert(segs.drop_first()[i - 1] == segs[i]);
            }
        }
    }
}

/// Check a profile; `Ok` exactly when every rule of `validate_spec` holds.
pub fn validate(profile: &Profile) -> (r: Result<(), InputError>)
    ensures
        r == validate_spec(profile.segments@, profile.gas, profile.gf_low as int, profile.gf_high as int),
        r is Ok ==> profile_ok(profile.segments@, profile.gas, profile.gf_low as int, profile.gf_high as int),
{
    let segs = &profile.segments;
    if segs.len() == 0 {
        return Err(InputError::EmptySegments);
    }
    if profile.gas.o2_ppm > PPM || profile.gas.he_ppm > PPM {
        return Err(InputError::GasFractionRange);
    }
    if profile.gas.o2_ppm + profile.gas.he_ppm > PPM {
        return Err(InputError::GasFractionSum);
    }
    if profile.gf_low > 100 || profile.gf_high > 100 {
        return Err(InputError::GradientFactorRange);
    }
    if segs.len() > 10_000 {
        return Err(InputError::TooManySegments);
    }
    let mut i: usize = 0;
    proof {
        assert(segs@.skip(0) =~= segs@);
    }
    while i < segs.len()
        invariant
            i <= segs.len(),
            segs == &profile.segments,
            segs@.len() > 0,
            profile.gas.o2_ppm <= PPM,
            profile.gas.he_ppm <= PPM,
            profile.gas.o2_ppm + profile.gas.he_ppm <= PPM,
            profile.gf_low <= 100,
            profile.gf_high <= 100,
            segs@.len() <= MAX_SEGS,
            segments_check(segs@.skip(i as int)) == segments_check(segs@),
            forall|j: int| 0 <= j < i ==> (#[trigger] segs@[j]).depth_cm <= MAX_DEPTH_CM,
            forall|j: int| 0 <= j < i ==> (#[trigger] segs@[j]).duration_sec <= MAX_SEG_SEC,
        decreases segs.len() - i,
    {
        let s = segs[i];
        proof {
            assert(segs@.skip(i as int)[0] == segs@[i as int]);
            assert(segs@.skip(i as int).drop_first() =~= segs@.skip(i as int + 1));
        }
        if s.depth_cm > MAX_DEPTH_CM {
            return Err(InputError::DepthTooLarge);
        }
        if s.duration_sec > MAX_SEG_SEC {
            return Err(InputError::DurationTooLarge);
        }
        i = i + 1;
    }
    proof {
        assert(segs@.skip(segs@.len() as int) =~= Seq::<Segment>::empty());
        lemma_segments_check_ok(segs@);
    }
    Ok(())
}

/// Deepest depth over the segments.
pub open spec fn max_depth_spec(segs: Seq<Segment>) -> int
    decreases segs.len(),
{
    if segs.len() == 0 {
        0
    } else {
        let rest = max_depth_spec(segs.drop_last());
        if segs.last().depth_cm > rest {
            segs.last().depth_cm as int
        } else {
            rest
        }
    }
}

/// Total duration of the segments, in seconds.
pub open spec fn runtime_spec(segs: Seq<Segment>) -> int
    decreases segs.len(),
{
    if segs.len() == 0 {
        0
    } else {
        runtime_spec(segs.drop_last()) + segs.last().duration_sec
    }
}

/// Deepest segment depth, in centimetres.
pub fn max_depth_cm(segs: &Vec<Segment>) -> (r: u64)
    ensures
        r == max_depth_spec(segs@),
{
    let mut best: u64 = 0;
    let mut i: usize = 0;
    while i < segs.len()
        invariant
            i <= segs.len(),
            best == max_depth_spec(segs@.take(i as int)),
        decreases segs.len() - i,
    {
        proof {
            assert(segs@.take(i as int + 1).drop_last() =~= segs@.take(i as int));
            assert(segs@.take(i as int + 1).last() == segs@[i as int]);
        }
        if segs[i].depth_cm > best {
            best = segs[i].depth_cm;
        }
        i = i + 1;
    }
    proof {
        assert(segs@.take(segs@.len() as int) =~= segs@);
    }
    best
}

/// Total runtime of the profile, in seconds.
pub fn runtime_sec(segs: &Vec<Segment>) -> (r: u64)
    requires
        segs@.len() <= MAX_SEGS,
        forall|i: int| 0 <= i < segs@.len() ==> (#[trigger] segs@[i]).duration_sec <= MAX_SEG_SEC,
    ensures
        r == runtime_spec(segs@),
{
    let mut total: u64 = 0;
    let mut i: usize = 0;
    while i < segs.len()
        invariant
            i <= segs.len(),
            segs@.len() <= MAX_SEGS,
            forall|j: int| 0 <= j < segs@.len() ==> (#[trigger] segs@[j]).duration_sec <= MAX_SEG_SEC,
            total == runtime_spec(segs@.take(i as int)),
            total <= i * MAX_SEG_SEC,
        decreases segs.len() - i,
    {
        proof {
            assert(segs@.take(i as int + 1).drop_last() =~= segs@.take(i as int));
            assert(segs@.take(i as int + 1).last() == segs@[i as int]);
            assert(i as int * MAX_SEG_SEC + MAX_SEG_SEC == (i as int + 1) * MAX_SEG_SEC) by (nonlinear_arith);
            assert(i as int * MAX_SEG_SEC <= MAX_SEGS * MAX_SEG_SEC) by (nonlinear_arith)
                requires 0 <= i as int <= MAX_SEGS;
        }
        total = total + segs[i].duration_sec;
        i = i + 1;
    }
    proof {
        assert(segs@.take(segs@.len() as int) =~= segs@);
    }
    total
}

} // verus!
