//! Discrete wavelet transformation: the un-symmetrized one-dimensional
//! filter bank and its naive image-level wrapper.

pub mod one_dimension;

pub use crate::dwt::one_dimension::LinearTimeInvariantFilter;
pub use crate::dwt::one_dimension::TwoChannelSubbandCoder;

use vstd::prelude::*;

use crate::dwt::one_dimension::spec_downsample;
use crate::numeric::Numeric;

verus! {

/// A placeholder for the transform-table marker segment of the compressed
/// stream.
#[derive(Debug)]
pub struct TransformTable {}

/// A decoded grayscale raster: non-negative integer samples in row-major
/// order with a declared maximum sample value. This is the shape in which
/// an image-decoding collaborator hands pixels to the transform.
pub struct IntegerImage {
    pub data: Vec<u16>,
    pub width: usize,
    pub height: usize,
    pub max_value: u16,
}

impl IntegerImage {
    /// The sample buffer covers the grid exactly.
    pub open spec fn wf(self) -> bool {
        self.data@.len() == self.width * self.height
    }
}

/// A rectangular grid of samples in row-major order.
pub struct FloatImage<F> {
    pub data: Vec<F>,
    pub width: usize,
    pub height: usize,
}

impl<F: Numeric> FloatImage<F> {
    /// The sample buffer covers the grid exactly.
    pub open spec fn wf(self) -> bool {
        self.data@.len() == self.width * self.height
    }

    /// The sample in row `y`, column `x`.
    pub open spec fn at(self, y: int, x: int) -> F {
        self.data@[y * (self.width as int) + x]
    }

    /// Row `y`, left to right.
    pub open spec fn row_s(self, y: int) -> Seq<F> {
        Seq::new(self.width as nat, |x: int| self.at(y, x))
    }

    /// A grid of the given shape holding the additive identity everywhere.
    fn new(width: usize, height: usize) -> (r: FloatImage<F>)
        requires
            width * height <= usize::MAX,
        ensures
            r.wf(),
            r.width == width,
            r.height == height,
            forall|i: int| 0 <= i < r.data@.len() ==> r.data@[i] == F::spec_zero(),
    {
        let total = width * height;
        let mut data: Vec<F> = Vec::new();
        let mut i: usize = 0;
        while i < total
            invariant
                i <= total,
                data@.len() == i,
                forall|t: int| 0 <= t < i ==> data@[t] == F::spec_zero(),
            decreases total - i,
        {
            data.push(F::zero());
            i = i + 1;
        }
        FloatImage { data, width, height }
    }

    /// Assembles a grid from equally long rows.
    fn from_rows(value: Vec<Vec<F>>) -> (r: FloatImage<F>)
        requires
            value@.len() >= 1,
            forall|y: int|
                0 <= y < value@.len() ==> (#[trigger] value@[y])@.len() == value@[0]@.len(),
        ensures
            r.wf(),
            r.height == value@.len(),
            r.width == value@[0]@.len(),
            forall|y: int, x: int|
                0 <= y < value@.len() && 0 <= x < value@[0]@.len() ==> r.at(y, x)
                    == value@[y]@[x],
    {
        let width = value[0].len();
        let height = value.len();
        let mut data: Vec<F> = Vec::new();
        let mut y: usize = 0;
        while y < height
            invariant
                width == value@[0]@.len(),
                height == value@.len(),
                forall|t: int|
                    0 <= t < value@.len() ==> (#[trigger] value@[t])@.len() == value@[0]@.len(),
                y <= height,
                data@.len() == y * width,
                forall|t: int|
                    0 <= t < data@.len() ==> #[trigger] data@[t] == value@[t / (width as int)]@[t
                        % (width as int)],
            decreases height - y,
        {
            let row = &value[y];
            let mut x: usize = 0;
            while x < width
                invariant
                    width == value@[0]@.len(),
                    height == value@.len(),
                    forall|t: int|
                        0 <= t < value@.len() ==> (#[trigger] value@[t])@.len()
                            == value@[0]@.len(),
                    y < height,
                    x <= width,
                    row == value@[y as int],
                    data@.len() == y * width + x,
                    forall|t: int|
                        0 <= t < data@.len() ==> #[trigger] data@[t] == value@[t / (
                        width as int)]@[t % (width as int)],
                decreases width - x,
            {
                proof {
                    crate::swt::lemma_grid_index(width as int, height as int, y as int, x as int);
                }
                data.push(row[x]);
                x = x + 1;
            }
            proof {
                assert((y as int + 1) * (width as int) == (y as int) * (width as int) + (
                width as int)) by (nonlinear_arith);
            }
            y = y + 1;
        }
        let r = FloatImage { data, width, height };
        proof {
            assert(r.wf()) by (nonlinear_arith)
                requires
                    r.data@.len() == (height as int) * (width as int),
                    r.width == width,
                    r.height == height,
            ;
            assert forall|y2: int, x2: int|
                0 <= y2 < value@.len() && 0 <= x2 < value@[0]@.len() implies r.at(y2, x2)
                == value@[y2]@[x2] by {
                crate::swt::lemma_grid_index(width as int, height as int, y2, x2);
            }
        }
        r
    }

    /// Row `y`, copied out of the grid.
    fn row(&self, y: usize) -> (r: Vec<F>)
        requires
            self.wf(),
            y < self.height,
        ensures
            r@ == self.row_s(y as int),
    {
        let mut r: Vec<F> = Vec::new();
        let mut x: usize = 0;
        proof {
            vstd::std_specs::vec::axiom_spec_len(&self.data);
        }
        while x < self.width
            invariant
                self.wf(),
                self.data@.len() <= usize::MAX,
                y < self.height,
                x <= self.width,
                r@.len() == x,
                forall|t: int| 0 <= t < x ==> r@[t] == self.row_s(y as int)[t],
            decreases self.width - x,
        {
            proof {
                crate::swt::lemma_grid_index(
                    self.width as int,
                    self.height as int,
                    y as int,
                    x as int,
                );
            }
            r.push(self.data[y * self.width + x]);
            x = x + 1;
        }
        proof {
            assert(r@ =~= self.row_s(y as int));
        }
        r
    }

    /// Converts a decoded integer raster into a sample grid, one sample per
    /// pixel.
    pub fn from(source: &IntegerImage) -> (r: FloatImage<F>)
        requires
            source.wf(),
            source.width * source.height <= usize::MAX,
        ensures
            r.wf(),
            r.width == source.width,
            r.height == source.height,
            forall|i: int|
                0 <= i < r.data@.len() ==> r.data@[i] == F::spec_from_u64(
                    source.data@[i] as u64,
                ),
    {
        let total = source.width * source.height;
        let mut data: Vec<F> = Vec::new();
        let mut i: usize = 0;
        while i < total
            invariant
                source.wf(),
                total == source.data@.len(),
                i <= total,
                data@.len() == i,
                forall|t: int|
                    0 <= t < i ==> data@[t] == F::spec_from_u64(source.data@[t] as u64),
            decreases total - i,
        {
            data.push(F::from_u64(source.data[i] as u64));
            i = i + 1;
        }
        FloatImage { data, width: source.width, height: source.height }
    }

    /// Maps every sample to `(sample - midpoint) / rescale`.
    pub fn normalize(&mut self, midpoint: F, rescale: F)
        ensures
            final(self).width == old(self).width,
            final(self).height == old(self).height,
            final(self).data@.len() == old(self).data@.len(),
            forall|i: int|
                0 <= i < old(self).data@.len() ==> final(self).data@[i] == old(
                    self,
                ).data@[i].spec_sub(midpoint).spec_div(rescale),
    {
        let mut i: usize = 0;
        while i < self.data.len()
            invariant
                self.width == old(self).width,
                self.height == old(self).height,
                self.data@.len() == old(self).data@.len(),
                i <= self.data@.len(),
                forall|t: int|
                    i <= t < self.data@.len() ==> self.data@[t] == old(self).data@[t],
                forall|t: int|
                    0 <= t < i ==> self.data@[t] == old(self).data@[t].spec_sub(
                        midpoint,
                    ).spec_div(rescale),
            decreases self.data@.len() - i,
        {
            let v = self.data[i].sub(midpoint).div(rescale);
            self.data[i] = v;
            i = i + 1;
        }
    }
}

/// The un-symmetrized filter bank applied row-wise to an image, with the
/// two subbands of each row laid side by side on reconstruction.
pub struct ImageSubbandCoder<F> {
    pub encoder: TwoChannelSubbandCoder<F>,
}

impl<F: Numeric> ImageSubbandCoder<F> {
    /// Wraps a one-dimensional bank for image use.
    pub fn new(encoder: TwoChannelSubbandCoder<F>) -> (r: Self)
        ensures
            r.encoder == encoder,
    {
        ImageSubbandCoder { encoder }
    }

    /// Lays the rows of the two subband images side by side: each output
    /// row is the lowpass row followed by the highpass row.
    pub fn naive_synthesis(&self, a_0: &FloatImage<F>, a_1: &FloatImage<F>) -> (r: FloatImage<
        F,
    >)
        requires
            a_0.wf(),
            a_1.wf(),
            a_0.height == a_1.height,
            1 <= a_0.height,
            a_0.width + a_1.width <= usize::MAX,
        ensures
            r.wf(),
            r.width == a_0.width + a_1.width,
            r.height == a_0.height,
            forall|y: int|
                0 <= y < a_0.height ==> r.row_s(y) == a_0.row_s(y) + a_1.row_s(y),
    {
        let mut data: Vec<Vec<F>> = Vec::new();
        let mut y: usize = 0;
        while y < a_0.height
            invariant
                a_0.wf(),
                a_1.wf(),
                a_0.height == a_1.height,
                a_0.width + a_1.width <= usize::MAX,
                y <= a_0.height,
                data@.len() == y,
                forall|t: int|
                    0 <= t < y ==> (#[trigger] data@[t])@ == a_0.row_s(t) + a_1.row_s(t),
                forall|t: int|
                    0 <= t < y ==> (#[trigger] data@[t])@.len() == a_0.width + a_1.width,
            decreases a_0.height - y,
        {
            let mut joined = a_0.row(y);
            let mut high = a_1.row(y);
            let mut k: usize = 0;
            while k < high.len()
                invariant
                    high@.len() == a_1.width,
                    k <= high@.len(),
                    joined@ == a_0.row_s(y as int) + high@.take(k as int),
                decreases high@.len() - k,
            {
                joined.push(high[k]);
                proof {
                    assert(joined@ =~= a_0.row_s(y as int) + high@.take(k + 1));
                }
                k = k + 1;
            }
            proof {
                assert(high@.take(high@.len() as int) =~= high@);
            }
            data.push(joined);
            y = y + 1;
        }
        let r = FloatImage::from_rows(data);
        proof {
            assert forall|t: int| 0 <= t < a_0.height implies r.row_s(t) == a_0.row_s(t)
                + a_1.row_s(t) by {
                assert(r.row_s(t) =~= a_0.row_s(t) + a_1.row_s(t));
            }
        }
        r
    }

    /// Splits every row of the image through the bank's analysis filters,
    /// producing a lowpass image and a highpass image of the per-row
    /// subband widths.
    pub fn naive_row_analysis(&self, image: &FloatImage<F>) -> (r: (FloatImage<F>, FloatImage<
        F,
    >))
        requires
            image.wf(),
            1 <= image.height,
            self.encoder.h_lowpass.coefficients@.len() >= 1,
            self.encoder.h_highpass.coefficients@.len() >= 1,
            image.width <= usize::MAX / 4,
            self.encoder.h_lowpass.coefficients@.len() <= usize::MAX / 4,
            self.encoder.h_highpass.coefficients@.len() <= usize::MAX / 4,
        ensures
            r.0.wf(),
            r.0.height == image.height,
            r.0.width == (image.width + self.encoder.h_lowpass.coefficients@.len()) / 2,
            forall|y: int|
                0 <= y < image.height ==> r.0.row_s(y) == spec_downsample(
                    self.encoder.h_lowpass.spec_apply(image.row_s(y)),
                ),
            r.1.wf(),
            r.1.height == image.height,
            r.1.width == (image.width + self.encoder.h_highpass.coefficients@.len()) / 2,
            forall|y: int|
                0 <= y < image.height ==> r.1.row_s(y) == spec_downsample(
                    self.encoder.h_highpass.spec_apply(image.row_s(y)),
                ),
    {
        let mut a_0_rows: Vec<Vec<F>> = Vec::new();
        let mut a_1_rows: Vec<Vec<F>> = Vec::new();
        let mut y: usize = 0;
        while y < image.height
            invariant
                image.wf(),
                self.encoder.h_lowpass.coefficients@.len() >= 1,
                self.encoder.h_highpass.coefficients@.len() >= 1,
                image.width <= usize::MAX / 4,
                self.encoder.h_lowpass.coefficients@.len() <= usize::MAX / 4,
                self.encoder.h_highpass.coefficients@.len() <= usize::MAX / 4,
                y <= image.height,
                a_0_rows@.len() == y,
                a_1_rows@.len() == y,
                forall|t: int|
                    0 <= t < y ==> (#[trigger] a_0_rows@[t])@ == spec_downsample(
                        self.encoder.h_lowpass.spec_apply(image.row_s(t)),
                    ),
                forall|t: int|
                    0 <= t < y ==> (#[trigger] a_1_rows@[t])@ == spec_downsample(
                        self.encoder.h_highpass.spec_apply(image.row_s(t)),
                    ),
                forall|t: int|
                    0 <= t < y ==> (#[trigger] a_0_rows@[t])@.len() == (image.width
                        + self.encoder.h_lowpass.coefficients@.len()) / 2,
                forall|t: int|
                    0 <= t < y ==> (#[trigger] a_1_rows@[t])@.len() == (image.width
                        + self.encoder.h_highpass.coefficients@.len()) / 2,
            decreases image.height - y,
        {
            let row = image.row(y);
            let (a_0, a_1) = self.encoder.analysis(row.as_slice());
            a_0_rows.push(a_0);
            a_1_rows.push(a_1);
            y = y + 1;
        }
        let a_0 = FloatImage::from_rows(a_0_rows);
        let a_1 = FloatImage::from_rows(a_1_rows);
        proof {
            assert forall|t: int| 0 <= t < image.height implies a_0.row_s(t) == spec_downsample(
                self.encoder.h_lowpass.spec_apply(image.row_s(t)),
            ) by {
                assert(a_0.row_s(t) =~= spec_downsample(
                    self.encoder.h_lowpass.spec_apply(image.row_s(t)),
                ));
            }
            assert forall|t: int| 0 <= t < image.height implies a_1.row_s(t) == spec_downsample(
                self.encoder.h_highpass.spec_apply(image.row_s(t)),
            ) by {
                assert(a_1.row_s(t) =~= spec_downsample(
                    self.encoder.h_highpass.spec_apply(image.row_s(t)),
                ));
            }
        }
        (a_0, a_1)
    }
}

} // verus!
