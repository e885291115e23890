//! Tests of the un-symmetrized one-dimensional filter bank and the
//! infinite mirror extensions.

use wsq::dwt::one_dimension::{
    HalfSampleSymmetricExtension, LinearTimeInvariantFilter, TwoChannelSubbandCoder,
    WholeSampleSymmetricExtension,
};
use wsq::numeric::Numeric;

const EPSILON: f64 = 0.001;

/// A double-precision sample for driving the generic transform.
#[derive(Clone, Copy, Debug, PartialEq)]
struct Fl(f64);

impl Numeric for Fl {
    fn zero() -> Fl {
        Fl(0.0)
    }
    fn add(self, other: Fl) -> Fl {
        Fl(self.0 + other.0)
    }
    fn mul(self, other: Fl) -> Fl {
        Fl(self.0 * other.0)
    }
    fn neg(self) -> Fl {
        Fl(-self.0)
    }
    fn sub(self, other: Fl) -> Fl {
        Fl(self.0 - other.0)
    }
    fn div(self, other: Fl) -> Fl {
        Fl(self.0 / other.0)
    }
    fn min(self, other: Fl) -> Fl {
        Fl(f64::min(self.0, other.0))
    }
    fn max(self, other: Fl) -> Fl {
        Fl(f64::max(self.0, other.0))
    }
    fn from_u64(v: u64) -> Fl {
        Fl(v as f64)
    }
    fn min_bound() -> Fl {
        Fl(f64::MIN)
    }
    fn max_bound() -> Fl {
        Fl(f64::MAX)
    }
    // Outside the verifier the specification twins are ordinary trait
    // methods; give them the same meaning as the operations themselves.
    fn spec_zero() -> Fl {
        Fl(0.0)
    }
    fn spec_add(self, other: Fl) -> Fl {
        Fl(self.0 + other.0)
    }
    fn spec_mul(self, other: Fl) -> Fl {
        Fl(self.0 * other.0)
    }
    fn spec_neg(self) -> Fl {
        Fl(-self.0)
    }
    fn spec_sub(self, other: Fl) -> Fl {
        Fl(self.0 - other.0)
    }
    fn spec_div(self, other: Fl) -> Fl {
        Fl(self.0 / other.0)
    }
    fn spec_min(self, other: Fl) -> Fl {
        Fl(f64::min(self.0, other.0))
    }
    fn spec_max(self, other: Fl) -> Fl {
        Fl(f64::max(self.0, other.0))
    }
    fn spec_from_u64(v: u64) -> Fl {
        Fl(v as f64)
    }
    fn spec_min_bound() -> Fl {
        Fl(f64::MIN)
    }
    fn spec_max_bound() -> Fl {
        Fl(f64::MAX)
    }
}

fn fl(values: &[f64]) -> Vec<Fl> {
    values.iter().map(|v| Fl(*v)).collect()
}

#[test]
fn test_convolution() {
    let input = fl(&[1.0, 2.0, 3.0, 4.0, 5.0]);
    let kernel = fl(&[0.2, 0.4, 0.2]);
    let expecteds = vec![0.2, 0.8, 1.6, 2.4, 3.2, 2.8, 1.0];
    let filter = LinearTimeInvariantFilter::new(kernel);
    let actuals = filter.apply(&input);
    assert_eq!(actuals.len(), expecteds.len());
    for (actual, expected) in actuals.iter().zip(expecteds) {
        assert!(f64::abs(actual.0 - expected) < EPSILON)
    }
}

#[test]
fn test_half_sample_extension() {
    let signal = fl(&[1., 2., 3., 4.]);
    let mut extension = HalfSampleSymmetricExtension::from(&signal);
    let actual = extension.take(13);
    let expected = fl(&[1., 2., 3., 4., 3., 2., 1., 2., 3., 4., 3., 2., 1.]);
    assert_eq!(actual, expected)
}

#[test]
fn test_whole_sample_extension() {
    let signal = fl(&[1., 2., 3., 4.]);
    let mut extension = WholeSampleSymmetricExtension::from(&signal);
    let actual = extension.take(16);
    let expected = fl(&[1., 2., 3., 4., 4., 3., 2., 1., 1., 2., 3., 4., 4., 3., 2., 1.]);
    assert_eq!(actual, expected)
}

#[test]
fn test_encoder_setup() {
    let h_lowpass =
        LinearTimeInvariantFilter::new(fl(&[0.0352, -0.0854, -0.1350, 0.4599, 0.8069, 0.3327]));
    let h_highpass =
        LinearTimeInvariantFilter::new(fl(&[-0.3327, 0.8069, -0.4599, -0.1350, 0.0854, 0.0352]));

    let encoder = TwoChannelSubbandCoder::new(h_lowpass, h_highpass);

    assert_eq!(
        fl(&[0.0352, 0.0854, -0.1350, -0.4599, 0.8069, -0.3327]),
        encoder.f_highpass.coefficients
    );
    assert_eq!(
        fl(&[0.3327, 0.8069, 0.4599, -0.1350, -0.0854, 0.0352]),
        encoder.f_lowpass.coefficients
    );
}

#[test]
fn test_two_channel_subband_coder() {
    // Analysis filters (simplified example)
    let h_lowpass =
        LinearTimeInvariantFilter::new(fl(&[0.0352, -0.0854, -0.1350, 0.4599, 0.8069, 0.3327]));
    let h_highpass =
        LinearTimeInvariantFilter::new(fl(&[-0.3327, 0.8069, -0.4599, -0.1350, 0.0854, 0.0352]));
    let encoder = TwoChannelSubbandCoder::new(h_lowpass, h_highpass);

    let signal = fl(&[1.0, 2.0, 3.0, 4.0, 5.0, 6.0, 1.0, 2.0, 3.0, 4.0, 5.0, 6.0]);

    // Encoding: Create subbands by filtering the original signal
    let (low_pass_subband, high_pass_subband) = encoder.analysis(&signal);

    // Decoding: Reconstruct the signal from subbands
    let reconstructed_signal = encoder.synthesis(&low_pass_subband, &high_pass_subband);
    assert_eq!(reconstructed_signal.len(), signal.len());
    for (x, y) in reconstructed_signal.iter().zip(signal) {
        assert!(f64::abs(x.0 - y.0) < EPSILON);
    }
}

#[test]
fn test_inversions() {
    let h_0 = LinearTimeInvariantFilter::new(fl(&[0.1, 0.2, 0.3, 0.4]));
    let h_1 = LinearTimeInvariantFilter::new(fl(&[0.5, 0.6, 0.7, 0.8]));

    let f_0 = h_1.invert_highpass();
    let f_1 = h_0.invert_lowpass();

    let expected_f_0 = fl(&[-0.5, 0.6, -0.7, 0.8]);
    let expected_f_1 = fl(&[0.1, -0.2, 0.3, -0.4]);

    assert_eq!(f_0.coefficients, expected_f_0);
    assert_eq!(f_1.coefficients, expected_f_1);
}

#[test]
fn test_downsample() {
    let signal = fl(&[0., 1., 2., 3., 4.]);
    let downsampled = TwoChannelSubbandCoder::downsample(&signal);
    assert_eq!(downsampled, fl(&[0., 2., 4.]));
}

#[test]
fn test_upsample() {
    let signal = fl(&[0., 1., 2., 3., 4.]);
    let upsampled = TwoChannelSubbandCoder::upsample(&signal);
    assert_eq!(upsampled, fl(&[0., 0., 1., 0., 2., 0., 3., 0., 4., 0.]));
}

#[test]
fn test_extensions_at_single_sample() {
    let signal = fl(&[5.]);
    let mut whole = WholeSampleSymmetricExtension::from(&signal);
    assert_eq!(whole.take(4), fl(&[5., 5., 5., 5.]));
    let mut half = HalfSampleSymmetricExtension::from(&signal);
    assert_eq!(half.take(4), fl(&[5., 5., 5., 5.]));
}

#[test]
fn test_extensions_at_two_samples() {
    let signal = fl(&[1., 2.]);
    let mut whole = WholeSampleSymmetricExtension::from(&signal);
    assert_eq!(whole.take(9), fl(&[1., 2., 2., 1., 1., 2., 2., 1., 1.]));
    let mut half = HalfSampleSymmetricExtension::from(&signal);
    assert_eq!(half.take(9), fl(&[1., 2., 1., 2., 1., 2., 1., 2., 1.]));
}
