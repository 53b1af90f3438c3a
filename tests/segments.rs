use pendulum::segments::{check_segments, SegmentError, SegmentSigns};

fn signs(pairs: &[(bool, bool)]) -> Vec<SegmentSigns> {
    pairs
        .iter()
        .map(|&(length_ok, mass_ok)| SegmentSigns { length_ok, mass_ok })
        .collect()
}

#[test]
fn rejects_fewer_than_two_segments() {
    assert_eq!(check_segments(&signs(&[])), Err(SegmentError::TooFewSegments));
    assert_eq!(check_segments(&signs(&[(true, true)])), Err(SegmentError::TooFewSegments));
    // the count is checked before the values
    assert_eq!(check_segments(&signs(&[(false, false)])), Err(SegmentError::TooFewSegments));
}

#[test]
fn accepts_positive_segments() {
    assert_eq!(check_segments(&signs(&[(true, true), (true, true)])), Ok(()));
    assert_eq!(check_segments(&signs(&[(true, true); 10])), Ok(()));
}

#[test]
fn rejects_non_positive_length() {
    assert_eq!(
        check_segments(&signs(&[(true, true), (false, true), (true, true)])),
        Err(SegmentError::NonPositiveLength)
    );
    // within a pair the length comes first
    assert_eq!(
        check_segments(&signs(&[(false, false), (true, true)])),
        Err(SegmentError::NonPositiveLength)
    );
}

#[test]
fn rejects_non_positive_mass() {
    assert_eq!(
        check_segments(&signs(&[(true, true), (true, false)])),
        Err(SegmentError::NonPositiveMass)
    );
    // the first bad pair decides
    assert_eq!(
        check_segments(&signs(&[(true, false), (false, true)])),
        Err(SegmentError::NonPositiveMass)
    );
}

#[test]
fn validation_from_values() {
    let from_values = |pairs: &[(f64, f64)]| {
        let s: Vec<SegmentSigns> = pairs
            .iter()
            .map(|&(l, m)| SegmentSigns { length_ok: !(l <= 0.0), mass_ok: !(m <= 0.0) })
            .collect();
        check_segments(&s)
    };
    assert_eq!(from_values(&[(0.3, 1.0); 4]), Ok(()));
    assert_eq!(from_values(&[(0.3, 1.0), (0.0, 1.0)]), Err(SegmentError::NonPositiveLength));
    assert_eq!(from_values(&[(0.3, -1.0), (0.3, 1.0)]), Err(SegmentError::NonPositiveMass));
    assert_eq!(from_values(&[(0.3, 1.0)]), Err(SegmentError::TooFewSegments));
}

#[test]
fn error_messages() {
    assert_eq!(SegmentError::TooFewSegments.message(), "N must be grater than 1");
    assert_eq!(SegmentError::NonPositiveLength.message(), "length must be positive");
    assert_eq!(SegmentError::NonPositiveMass.message(), "mass must be positive");
}
