//! Tests of the sample grid, its statistics, and the separable 2-D
//! subband coder.

use wsq::numeric::Numeric;
use wsq::swt::filter::Filter;
use wsq::swt::{FloatImage, TransformError, TwoChannelSubbandCoder};

const EPSILON: f64 = 0.001;

/// A double-precision sample for driving the generic transform.
#[derive(Clone, Copy, Debug, PartialEq)]
struct Fl(f64);

impl Numeric for Fl {
    fn zero() -> Fl {
        Fl(0.0)
    }
    fn add(self, other: Fl) -> Fl {
        Fl(self.0 + other.0)
    }
    fn mul(self, other: Fl) -> Fl {
        Fl(self.0 * other.0)
    }
    fn neg(self) -> Fl {
        Fl(-self.0)
    }
    fn sub(self, other: Fl) -> Fl {
        Fl(self.0 - other.0)
    }
    fn div(self, other: Fl) -> Fl {
        Fl(self.0 / other.0)
    }
    fn min(self, other: Fl) -> Fl {
        Fl(f64::min(self.0, other.0))
    }
    fn max(self, other: Fl) -> Fl {
        Fl(f64::max(self.0, other.0))
    }
    fn from_u64(v: u64) -> Fl {
        Fl(v as f64)
    }
    fn min_bound() -> Fl {
        Fl(f64::MIN)
    }
    fn max_bound() -> Fl {
        Fl(f64::MAX)
    }
    // Outside the verifier the specification twins are ordinary trait
    // methods; give them the same meaning as the operations themselves.
    fn spec_zero() -> Fl {
        Fl(0.0)
    }
    fn spec_add(self, other: Fl) -> Fl {
        Fl(self.0 + other.0)
    }
    fn spec_mul(self, other: Fl) -> Fl {
        Fl(self.0 * other.0)
    }
    fn spec_neg(self) -> Fl {
        Fl(-self.0)
    }
    fn spec_sub(self, other: Fl) -> Fl {
        Fl(self.0 - other.0)
    }
    fn spec_div(self, other: Fl) -> Fl {
        Fl(self.0 / other.0)
    }
    fn spec_min(self, other: Fl) -> Fl {
        Fl(f64::min(self.0, other.0))
    }
    fn spec_max(self, other: Fl) -> Fl {
        Fl(f64::max(self.0, other.0))
    }
    fn spec_from_u64(v: u64) -> Fl {
        Fl(v as f64)
    }
    fn spec_min_bound() -> Fl {
        Fl(f64::MIN)
    }
    fn spec_max_bound() -> Fl {
        Fl(f64::MAX)
    }
}

fn fl(values: &[f64]) -> Vec<Fl> {
    values.iter().map(|v| Fl(*v)).collect()
}

/// A unit-gain complementary pair with a half-sample axis: the lowpass
/// kernel averages neighbouring samples, the highpass kernel takes their
/// difference, both scaled so that analysis followed by synthesis keeps
/// the signal's magnitude.
fn unit_gain_coder() -> TwoChannelSubbandCoder<Fl> {
    let c = std::f64::consts::FRAC_1_SQRT_2;
    TwoChannelSubbandCoder::new(Filter::HSS(fl(&[c])), Filter::HSA(fl(&[c])))
}

#[test]
fn test_columns() {
    let image = FloatImage::from(vec![
        fl(&[1., 2., 3., 4., 5.]),
        fl(&[6., 7., 8., 9., 0.]),
        fl(&[1., 2., 3., 4., 5.]),
        fl(&[6., 7., 8., 9., 0.]),
        fl(&[1., 2., 3., 4., 5.]),
    ]);
    let mut cols = image.columns();
    assert_eq!(Some(fl(&[1., 6., 1., 6., 1.])), cols.next());
    assert_eq!(Some(fl(&[2., 7., 2., 7., 2.])), cols.next());
    assert_eq!(Some(fl(&[3., 8., 3., 8., 3.])), cols.next());
    assert_eq!(Some(fl(&[4., 9., 4., 9., 4.])), cols.next());
    assert_eq!(Some(fl(&[5., 0., 5., 0., 5.])), cols.next());
}

#[test]
fn test_columns_end() {
    let image = FloatImage::from(vec![fl(&[1., 2.]), fl(&[3., 4.])]);
    let mut cols = image.columns();
    assert_eq!(Some(fl(&[1., 3.])), cols.next());
    assert_eq!(Some(fl(&[2., 4.])), cols.next());
    assert_eq!(None, cols.next());
}

#[test]
fn test_rotate() {
    let mut image = FloatImage::from(vec![fl(&[1., 2., 3.]), fl(&[4., 5., 6.])]);
    image.rotate();
    assert_eq!(image.width, 2);
    assert_eq!(image.height, 3);
    assert_eq!(image.data, fl(&[1., 4., 2., 5., 3., 6.]));
}

#[test]
fn test_find_and_set_min_max() {
    let mut image = FloatImage::from(vec![fl(&[3.5, -2.0, 7.25]), fl(&[0.0, 1.0, -5.5])]);
    image.find_and_set_min_max();
    assert_eq!(image.min_value, Fl(-5.5));
    assert_eq!(image.max_value, Fl(7.25));
    // scanning again changes nothing: the declared range already equals
    // the scanned range
    image.find_and_set_min_max();
    assert_eq!(image.min_value, Fl(-5.5));
    assert_eq!(image.max_value, Fl(7.25));
}

#[test]
fn test_auto_normalize() {
    // mean 1, declared range [0, 1]: rescale = (1 - 0) / 128
    let mut image = FloatImage::from(vec![fl(&[0.0, 2.0])]);
    image.auto_normalize();
    assert_eq!(image.data, fl(&[-128.0, 128.0]));
}

#[test]
fn test_normalize_explicit() {
    let mut image = FloatImage::from(vec![fl(&[1.0, 3.0, 5.0])]);
    image.normalize(Fl(3.0), Fl(2.0));
    assert_eq!(image.data, fl(&[-1.0, 0.0, 1.0]));
}

#[test]
fn test_analysis_1d_dimensions() {
    let coder = unit_gain_coder();
    let signal = fl(&[3., 1., 4., 1., 5., 9., 2., 6., 5., 3., 5., 8.]);
    let (a_0, a_1) = coder.analysis_1d(&signal);
    assert_eq!(a_0.len(), 6);
    assert_eq!(a_1.len(), 6);
    // the first output position sees only the first kernel tap, so the
    // first lowpass sample is the first signal sample scaled by the gain
    assert!(f64::abs(a_0[0].0 - 3.0 * std::f64::consts::FRAC_1_SQRT_2) < EPSILON);
}

#[test]
fn test_round_trip_1d() {
    let coder = unit_gain_coder();
    let signal = fl(&[3., 1., 4., 1., 5., 9., 2., 6., 5., 3., 5., 8.]);
    let (a_0, a_1) = coder.analysis_1d(&signal);
    let reconstructed = coder.synthesis_1d(&a_0, &a_1);
    // the reconstruction is exact up to a one-sample delay at the boundary
    assert_eq!(reconstructed.len(), signal.len());
    assert!(f64::abs(reconstructed[0].0) < EPSILON);
    for i in 0..signal.len() - 1 {
        assert!(f64::abs(reconstructed[i + 1].0 - signal[i].0) < EPSILON);
    }
}

#[test]
fn test_round_trip_2d() {
    let coder = unit_gain_coder();
    let mut rows: Vec<Vec<Fl>> = Vec::new();
    for y in 0..6 {
        let mut row: Vec<Fl> = Vec::new();
        for x in 0..8 {
            row.push(Fl(((y * 7 + x * 3) % 11) as f64));
        }
        rows.push(row);
    }
    let image = FloatImage::from(rows.clone());
    let subbands = coder.analysis(&image).unwrap();
    assert_eq!(subbands.0.width, 4);
    assert_eq!(subbands.0.height, 3);
    let out = coder.synthesis(&subbands).unwrap();
    assert_eq!(out.width, 8);
    assert_eq!(out.height, 6);
    // the reconstruction is exact up to a one-sample delay along each axis
    for y in 0..6 {
        for x in 0..8 {
            let v = out.data[y * 8 + x].0;
            if y == 0 || x == 0 {
                assert!(f64::abs(v) < EPSILON, "border sample {} {} was {}", y, x, v);
            } else {
                let e = rows[y - 1][x - 1].0;
                assert!(f64::abs(v - e) < EPSILON, "sample {} {}: {} vs {}", y, x, v, e);
            }
        }
    }
}

#[test]
fn test_row_synthesis_shape_mismatch() {
    let coder = unit_gain_coder();
    let a = FloatImage::from(vec![fl(&[1., 2.])]);
    let b = FloatImage::from(vec![fl(&[1., 2., 3.])]);
    let r = coder.row_synthesis(&a, &b);
    assert!(matches!(r, Err(TransformError::ShapeMismatch)));
}

#[test]
fn test_column_synthesis_shape_mismatch() {
    let coder = unit_gain_coder();
    let a = FloatImage::from(vec![fl(&[1., 2.])]);
    let b = FloatImage::from(vec![fl(&[1., 2.]), fl(&[3., 4.])]);
    let r = coder.column_synthesis(&a, &b);
    assert!(matches!(r, Err(TransformError::ShapeMismatch)));
}

#[test]
fn test_synthesis_shape_mismatch() {
    let coder = unit_gain_coder();
    let image = FloatImage::from(vec![fl(&[1., 2., 3., 4.]), fl(&[5., 6., 7., 8.])]);
    let subbands = coder.analysis(&image).unwrap();
    let narrow = FloatImage::from(vec![fl(&[1.])]);
    let r = coder.synthesis(&(subbands.0, subbands.1, subbands.2, narrow));
    assert!(matches!(r, Err(TransformError::ShapeMismatch)));
}
