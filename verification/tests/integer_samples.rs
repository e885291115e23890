//! Tests driving the transform with the crate's own integer sample type,
//! where every arithmetic step is exact.

use wsq::dwt::one_dimension::{LinearTimeInvariantFilter, TwoChannelSubbandCoder};
use wsq::dwt::{FloatImage, ImageSubbandCoder, IntegerImage};
use wsq::numeric::Numeric;

#[test]
fn test_integer_convolution_exact() {
    let filter = LinearTimeInvariantFilter::new(vec![1i64, 2]);
    let out = filter.apply(&[1i64, 2, 3]);
    assert_eq!(out, vec![1i64, 4, 7, 6]);
}

#[test]
fn test_integer_image_conversion() {
    let source = IntegerImage {
        data: vec![0u16, 1, 2, 3, 4, 5],
        width: 3,
        height: 2,
        max_value: 5,
    };
    let image: FloatImage<i64> = FloatImage::from(&source);
    assert_eq!(image.width, 3);
    assert_eq!(image.height, 2);
    assert_eq!(image.data, vec![0i64, 1, 2, 3, 4, 5]);
}

#[test]
fn test_integer_normalize() {
    let source = IntegerImage {
        data: vec![10u16, 20, 30, 40],
        width: 2,
        height: 2,
        max_value: 40,
    };
    let mut image: FloatImage<i64> = FloatImage::from(&source);
    image.normalize(10, 10);
    assert_eq!(image.data, vec![0i64, 1, 2, 3]);
}

#[test]
fn test_naive_row_analysis_layout() {
    let encoder = TwoChannelSubbandCoder::new(
        LinearTimeInvariantFilter::new(vec![1i64, 1]),
        LinearTimeInvariantFilter::new(vec![1i64, -1]),
    );
    let coder = ImageSubbandCoder::new(encoder);
    let source = IntegerImage {
        data: vec![1u16, 2, 3, 4, 5, 6, 7, 8],
        width: 4,
        height: 2,
        max_value: 8,
    };
    let image: FloatImage<i64> = FloatImage::from(&source);
    let (a_0, a_1) = coder.naive_row_analysis(&image);
    assert_eq!(a_0.width, 3);
    assert_eq!(a_0.height, 2);
    assert_eq!(a_0.data, vec![1i64, 5, 4, 5, 13, 8]);
    assert_eq!(a_1.width, 3);
    assert_eq!(a_1.data, vec![1i64, 1, -4, 5, 1, -8]);
    let joined = coder.naive_synthesis(&a_0, &a_1);
    assert_eq!(joined.width, 6);
    assert_eq!(joined.height, 2);
    assert_eq!(joined.data, vec![1i64, 5, 4, 1, 1, -4, 5, 13, 8, 5, 1, -8]);
}

#[test]
fn test_integer_sample_arithmetic() {
    assert_eq!(Numeric::add(i64::MAX, 1), i64::MIN);
    assert_eq!(Numeric::mul(1i64 << 62, 4), 0);
    assert_eq!(Numeric::neg(5i64), -5);
    assert_eq!(Numeric::div(7i64, 2), 3);
    assert_eq!(Numeric::div(-7i64, 2), -3);
    assert_eq!(Numeric::div(5i64, 0), 0);
    assert_eq!(Numeric::min(3i64, -4), -4);
    assert_eq!(Numeric::max(3i64, -4), 3);
    assert_eq!(<i64 as Numeric>::from_u64(3), 3);
    assert_eq!(<i64 as Numeric>::zero(), 0);
}
