//! Tests of the four-class filters: mirrored extension, dual derivation,
//! and symmetry-aware convolution.

use wsq::numeric::Numeric;
use wsq::swt::filter::{Filter, FilterExtension};

const EPSILON: f64 = 0.001;

/// A double-precision sample for driving the generic transform.
#[derive(Clone, Copy, Debug, PartialEq)]
struct Fl(f64);

impl Numeric for Fl {
    fn zero() -> Fl {
        Fl(0.0)
    }
    fn add(self, other: Fl) -> Fl {
        Fl(self.0 + other.0)
    }
    fn mul(self, other: Fl) -> Fl {
        Fl(self.0 * other.0)
    }
    fn neg(self) -> Fl {
        Fl(-self.0)
    }
    fn sub(self, other: Fl) -> Fl {
        Fl(self.0 - other.0)
    }
    fn div(self, other: Fl) -> Fl {
        Fl(self.0 / other.0)
    }
    fn min(self, other: Fl) -> Fl {
        Fl(f64::min(self.0, other.0))
    }
    fn max(self, other: Fl) -> Fl {
        Fl(f64::max(self.0, other.0))
    }
    fn from_u64(v: u64) -> Fl {
        Fl(v as f64)
    }
    fn min_bound() -> Fl {
        Fl(f64::MIN)
    }
    fn max_bound() -> Fl {
        Fl(f64::MAX)
    }
    // Outside the verifier the specification twins are ordinary trait
    // methods; give them the same meaning as the operations themselves.
    fn spec_zero() -> Fl {
        Fl(0.0)
    }
    fn spec_add(self, other: Fl) -> Fl {
        Fl(self.0 + other.0)
    }
    fn spec_mul(self, other: Fl) -> Fl {
        Fl(self.0 * other.0)
    }
    fn spec_neg(self) -> Fl {
        Fl(-self.0)
    }
    fn spec_sub(self, other: Fl) -> Fl {
        Fl(self.0 - other.0)
    }
    fn spec_div(self, other: Fl) -> Fl {
        Fl(self.0 / other.0)
    }
    fn spec_min(self, other: Fl) -> Fl {
        Fl(f64::min(self.0, other.0))
    }
    fn spec_max(self, other: Fl) -> Fl {
        Fl(f64::max(self.0, other.0))
    }
    fn spec_from_u64(v: u64) -> Fl {
        Fl(v as f64)
    }
    fn spec_min_bound() -> Fl {
        Fl(f64::MIN)
    }
    fn spec_max_bound() -> Fl {
        Fl(f64::MAX)
    }
}

fn fl(values: &[f64]) -> Vec<Fl> {
    values.iter().map(|v| Fl(*v)).collect()
}

fn assert_close_enough(actual: &[Fl], expected: &[f64]) {
    assert_eq!(
        actual.len(),
        expected.len(),
        "len of {{ {:?} and {:?} }} not equal",
        actual,
        expected
    );
    for (a, e) in actual.iter().zip(expected) {
        assert!(
            f64::abs(a.0 - e) < EPSILON,
            "value {} and {} of {{ {:?} and {:?} }} not equal",
            a.0,
            e,
            actual,
            expected
        );
    }
}

#[test]
fn test_len() {
    let hss = Filter::HSS(fl(&[1.0, 2.0, 3.0]));
    assert_eq!(6, hss.len());
    let wss = Filter::WSS(fl(&[1.0, 2.0, 3.0]));
    assert_eq!(5, wss.len());
}

#[test]
fn test_wss_extension() {
    let wss = Filter::WSS(fl(&[3.0, 2.0, 1.0]));
    assert_eq!(5, wss.len());
    let extension = FilterExtension::from(&wss);
    let actual = extension.into_iter().collect();
    let expected = fl(&[1., 2., 3., 2., 1.]);
    assert_eq!(expected, actual);
}

#[test]
fn test_wsa_extension() {
    let filter = Filter::WSA(fl(&[3.0, 2.0, 1.0]));
    let extension = FilterExtension::from(&filter);
    let actual = extension.into_iter().collect();
    let expected = fl(&[-1., -2., 3., 2., 1.]);
    assert_eq!(expected, actual);
}

#[test]
fn test_hsa_extension() {
    let filter = Filter::HSA(fl(&[3.0, 2.0, 1.0]));
    let extension = FilterExtension::from(&filter);
    let actual = extension.into_iter().collect();
    let expected = fl(&[-1., -2., -3., 3., 2., 1.]);
    assert_eq!(expected, actual);
}

#[test]
fn test_hss_extension() {
    let hss = Filter::HSS(fl(&[3.0, 2.0, 1.0]));
    assert_eq!(6, hss.len());
    let extension = FilterExtension::from(&hss);
    let actual = extension.into_iter().collect();
    let expected = fl(&[1., 2., 3., 3., 2., 1.]);
    assert_eq!(actual, expected);
}

#[test]
fn test_invert_hsa() {
    let hss = Filter::HSA(fl(&[1.0, 2.0, 3.0]));
    let inverted = hss.invert();
    let expected = vec![3.0, -2.0, 1.0, 1.0, -2.0, 3.0];
    let actual = inverted.coefficients().take(expected.len());
    assert_close_enough(&actual, &expected)
}

#[test]
fn test_invert_wsa() {
    // f_0(n) = (-1)^n h_1(n-1)
    let wss = Filter::WSA(fl(&[1.0, 2.0, 3.0]));
    let inverted = wss.invert();
    let expected = vec![3.0, -2.0, 1.0, -2.0, 3.0];
    let actual = inverted.coefficients().take(expected.len());
    assert_close_enough(&actual, &expected)
}

#[test]
fn test_invert_hss() {
    // f_1(n) = (-1)^(n-1) h_0(n-1)
    let hss = Filter::HSS(fl(&[3.0, 2.0, 1.0]));
    let inverted = hss.invert();
    let expected = vec![1., -2., 3., -3., 2., -1.];
    let actual = inverted.coefficients().take(expected.len());
    assert_close_enough(&actual, &expected)
}

#[test]
fn test_invert_wss() {
    // f_1(n) = (-1)^(n-1) h_0(n-1)
    let wss = Filter::WSS(fl(&[3.0, 2.0, 1.0]));
    assert_eq!(wss.coefficients().collect(), fl(&[1., 2., 3., 2., 1.]));
    let inverted = wss.invert();
    let expected = vec![1., -2., -3., 2., -1.];
    let actual = inverted.coefficients().take(expected.len());
    assert_close_enough(&actual, &expected)
}

#[test]
fn test_apply_hsa_to_constant() {
    let hsa = Filter::HSA(fl(&[0.0, 0.1, 0.8]));
    let signal = fl(&[1., 1., 1., 1., 1., 1., 1., 1., 1., 1., 1., 1., 1., 1., 1., 1.]);
    let actual = hsa.apply(&signal);
    let expected = vec![
        -0.9, -0.9, -0.8, 0.0, 0.0, 0.0, 0.0, 0.0, 0.0, 0.0, 0.0, 0.0, 0.0, 0.0, 0.0, 0.0,
    ];
    assert_close_enough(&actual, &expected)
}
