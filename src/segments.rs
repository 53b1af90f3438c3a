use vstd::prelude::*;
use vstd::string::StringExecFns;

verus! {

/// How one `(length, mass)` pair of a chain compares with zero: `length_ok`
/// holds unless the length is `<= 0`, `mass_ok` unless the mass is `<= 0`.
#[derive(Clone, Copy, Debug, PartialEq, Eq, Structural)]
pub struct SegmentSigns {
    pub length_ok: bool,
    pub mass_ok: bool,
}

/// Why a list of segments cannot describe a chain.
#[derive(Clone, Copy, Debug, PartialEq, Eq, Structural)]
pub enum SegmentError {
    /// A chain needs at least two segments.
    TooFewSegments,
    /// Some rod length is zero or negative.
    NonPositiveLength,
    /// Some point mass is zero or negative.
    NonPositiveMass,
}

pub open spec fn segment_ok(s: SegmentSigns) -> bool {
    s.length_ok && s.mass_ok
}

/// Every pair of `s` has a positive length and a positive mass.
pub open spec fn all_segments_ok(s: Seq<SegmentSigns>) -> bool {
    forall|i: int| 0 <= i < s.len() ==> segment_ok(#[trigger] s[i])
}

/// `i` is the first pair of `s` that has a non-positive length or mass.
pub open spec fn first_bad_segment(s: Seq<SegmentSigns>, i: int) -> bool {
    &&& 0 <= i < s.len()
    &&& !segment_ok(s[i])
    &&& forall|j: int| 0 <= j < i ==> segment_ok(#[trigger] s[j])
}

/// The outcome of validating a chain description, pairs checked in order and,
/// within a pair, the length before the mass.
pub open spec fn validation_result(s: Seq<SegmentSigns>) -> Result<(), SegmentError> {
    if s.len() < 2 {
        Err(SegmentError::TooFewSegments)
    } else if all_segments_ok(s) {
        Ok(())
    } else {
        let i = choose|i: int| first_bad_segment(s, i);
        if !s[i].length_ok {
            Err(SegmentError::NonPositiveLength)
        } else {
            Err(SegmentError::NonPositiveMass)
        }
    }
}

proof fn lemma_first_bad_unique(s: Seq<SegmentSigns>, i: int, j: int)
    requires
        first_bad_segment(s, i),
        first_bad_segment(s, j),
    ensures
        i == j,
{
    if i < j {
        assert(segment_ok(s[i]));
    } else if j < i {
        assert(segment_ok(s[j]));
    }
}

/// A chain description with fewer than two pairs is refused for its count.
/// Any other is accepted exactly when every length and every mass is
/// positive, and otherwise refused for the first pair that is not: for its
/// length if that is non-positive, else for its mass.
pub proof fn lemma_construction_validation(s: Seq<SegmentSigns>)
    ensures
        s.len() < 2 ==> validation_result(s) == Err::<(), SegmentError>(SegmentError::TooFewSegments),
        validation_result(s) is Ok <==> (s.len() >= 2 && all_segments_ok(s)),
        forall|i: int|
            s.len() >= 2 && #[trigger] first_bad_segment(s, i) ==> validation_result(s) == if !s[i].length_ok {
                Err::<(), SegmentError>(SegmentError::NonPositiveLength)
            } else {
                Err::<(), SegmentError>(SegmentError::NonPositiveMass)
            },
{
    assert forall|i: int| s.len() >= 2 && #[trigger] first_bad_segment(s, i) implies validation_result(s)
        == if !s[i].length_ok {
        Err::<(), SegmentError>(SegmentError::NonPositiveLength)
    } else {
        Err::<(), SegmentError>(SegmentError::NonPositiveMass)
    } by {
        assert(!all_segments_ok(s));
        let k = choose|k: int| first_bad_segment(s, k);
        lemma_first_bad_unique(s, i, k);
    }
}

impl SegmentError {
    /// A human-readable description of the error.
    pub fn message(&self) -> (r: String)
        ensures
            *self == SegmentError::TooFewSegments ==> r@ == "N must be grater than 1"@,
            *self == SegmentError::NonPositiveLength ==> r@ == "length must be positive"@,
            *self == SegmentError::NonPositiveMass ==> r@ == "mass must be positive"@,
    {
        match self {
            SegmentError::TooFewSegments => String::from_str("N must be grater than 1"),
            SegmentError::NonPositiveLength => String::from_str("length must be positive"),
            SegmentError::NonPositiveMass => String::from_str("mass must be positive"),
        }
    }
}

/// Decides whether `signs`, one entry per `(length, mass)` pair, describes a
/// valid chain: at least two pairs, every length and every mass positive.
/// The error names the first problem met, the segment count first, then the
/// pairs in order, the length of a pair before its mass.
pub fn check_segments(signs: &[SegmentSigns]) -> (r: Result<(), SegmentError>)
    ensures
        r == validation_result(signs@),
        r is Ok <==> (signs@.len() >= 2 && all_segments_ok(signs@)),
        r == Err::<(), SegmentError>(SegmentError::TooFewSegments) <==> signs@.len() < 2,
{
    if signs.len() <= 1 {
        return Err(SegmentError::TooFewSegments);
    }
    let mut i: usize = 0;
    while i < signs.len()
        invariant
            0 <= i <= signs@.len(),
            signs@.len() >= 2,
            forall|j: int| 0 <= j < i ==> segment_ok(#[trigger] signs@[j]),
        decreases signs@.len() - i,
    {
        let s = signs[i];
        if !s.length_ok || !s.mass_ok {
            proof {
                assert(first_bad_segment(signs@, i as int));
                let k = choose|k: int| first_bad_segment(signs@, k);
                lemma_first_bad_unique(signs@, i as int, k);
                assert(!all_segments_ok(signs@));
            }
            if !s.length_ok {
                return Err(SegmentError::NonPositiveLength);
            } else {
                return Err(SegmentError::NonPositiveMass);
            }
        }
        i = i + 1;
    }
    Ok(())
}

} // verus!
