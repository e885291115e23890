//! Symmetric wavelet transform: a rectangular sample grid with its
//! statistics, and the separable two-channel subband coder that decomposes
//! it into four quadrant subbands and reconstructs it.

pub mod filter;
pub mod signal;

use vstd::prelude::*;

use crate::dwt::one_dimension::{spec_downsample, spec_upsample};
use crate::numeric::Numeric;
use crate::swt::filter::{negate_even_indexed, negate_odd_indexed, Filter};

verus! {

/// The typed failures of the transform: operations pairing two subband
/// grids fail when the grids do not have the same shape.
#[derive(Clone, Copy, Debug, PartialEq, Eq, Structural)]
pub enum TransformError {
    ShapeMismatch,
}

/// The running sum of `s`, folded to the left from the additive identity,
/// matching the executable accumulation order.
pub open spec fn sum_of<F: Numeric>(s: Seq<F>) -> F
    decreases s.len(),
{
    if s.len() == 0 {
        F::spec_zero()
    } else {
        sum_of(s.drop_last()).spec_add(s.last())
    }
}

/// The running minimum of `s`, folded to the left from the largest
/// representable sample.
pub open spec fn min_of<F: Numeric>(s: Seq<F>) -> F
    decreases s.len(),
{
    if s.len() == 0 {
        F::spec_max_bound()
    } else {
        min_of(s.drop_last()).spec_min(s.last())
    }
}

/// The running maximum of `s`, folded to the left from the smallest
/// representable sample.
pub open spec fn max_of<F: Numeric>(s: Seq<F>) -> F
    decreases s.len(),
{
    if s.len() == 0 {
        F::spec_min_bound()
    } else {
        max_of(s.drop_last()).spec_max(s.last())
    }
}

/// Places a flat row-major position under its row and column: for a grid of
/// width `w` with at least `h` rows, position `y * w + x` lies inside the
/// grid and decomposes back into `y` and `x`.
pub proof fn lemma_grid_index(w: int, h: int, y: int, x: int)
    requires
        1 <= w,
        0 <= y < h,
        0 <= x < w,
    ensures
        0 <= y * w + x,
        y * w + x < h * w,
        y * w + x < w * h,
        (y * w + x) / w == y,
        (y * w + x) % w == x,
{
    vstd::arithmetic::div_mod::lemma_fundamental_div_mod_converse(y * w + x, w, y, x);
    vstd::arithmetic::mul::lemma_mul_inequality(y + 1, h, w);
    assert((y + 1) * w == y * w + w) by (nonlinear_arith);
    assert(h * w == w * h) by (nonlinear_arith);
    assert(y * w >= 0) by (nonlinear_arith)
        requires
            y >= 0,
            w >= 1,
    ;
}

/// A rectangular grid of samples in row-major order, together with the
/// declared range of its values. The declared range is what display and
/// integer conversion rescale by; it is refreshed by scanning after each
/// transform stage.
pub struct FloatImage<F> {
    pub data: Vec<F>,
    pub width: usize,
    pub height: usize,
    pub min_value: F,
    pub max_value: F,
}

impl<F: Numeric> FloatImage<F> {
    /// The sample buffer covers the grid exactly.
    pub open spec fn wf(self) -> bool {
        self.data@.len() == self.width * self.height
    }

    /// The sample in row `y`, column `x`.
    pub open spec fn at(self, y: int, x: int) -> F {
        self.data@[y * (self.width as int) + x]
    }

    /// Row `y`, left to right.
    pub open spec fn row_s(self, y: int) -> Seq<F> {
        Seq::new(self.width as nat, |x: int| self.at(y, x))
    }

    /// Column `x`, top to bottom.
    pub open spec fn col_s(self, x: int) -> Seq<F> {
        Seq::new(self.height as nat, |y: int| self.at(y, x))
    }

    /// Assembles an image from equally long rows. The declared range starts
    /// as the unit range.
    pub fn from(value: Vec<Vec<F>>) -> (r: FloatImage<F>)
        requires
            value@.len() >= 1,
            forall|y: int|
                0 <= y < value@.len() ==> (#[trigger] value@[y])@.len() == value@[0]@.len(),
        ensures
            r.wf(),
            r.height == value@.len(),
            r.width == value@[0]@.len(),
            forall|y: int, x: int|
                0 <= y < value@.len() && 0 <= x < value@[0]@.len() ==> r.at(y, x) == value@[y]@[x],
            r.min_value == F::spec_zero(),
            r.max_value == F::spec_from_u64(1),
    {
        let width = value[0].len();
        let height = value.len();
        let mut data: Vec<F> = Vec::new();
        let mut y: usize = 0;
        while y < height
            invariant
                width == value@[0]@.len(),
                height == value@.len(),
                forall|t: int|
                    0 <= t < value@.len() ==> (#[trigger] value@[t])@.len() == value@[0]@.len(),
                y <= height,
                data@.len() == y * width,
                forall|t: int|
                    0 <= t < data@.len() ==> #[trigger] data@[t] == value@[t / (width as int)]@[t
                        % (width as int)],
            decreases height - y,
        {
            let row = &value[y];
            let mut x: usize = 0;
            while x < width
                invariant
                    width == value@[0]@.len(),
                    height == value@.len(),
                    forall|t: int|
                        0 <= t < value@.len() ==> (#[trigger] value@[t])@.len()
                            == value@[0]@.len(),
                    y < height,
                    x <= width,
                    row == value@[y as int],
                    data@.len() == y * width + x,
                    forall|t: int|
                        0 <= t < data@.len() ==> #[trigger] data@[t] == value@[t / (
                        width as int)]@[t % (width as int)],
                decreases width - x,
            {
                proof {
                    lemma_grid_index(width as int, height as int, y as int, x as int);
                }
                data.push(row[x]);
                x = x + 1;
            }
            proof {
                assert((y as int + 1) * (width as int) == (y as int) * (width as int) + (
                width as int)) by (nonlinear_arith);
            }
            y = y + 1;
        }
        let r = FloatImage {
            data,
            width,
            height,
            min_value: F::zero(),
            max_value: F::from_u64(1u64),
        };
        proof {
            assert(r.wf()) by (nonlinear_arith)
                requires
                    r.data@.len() == (height as int) * (width as int),
                    r.width == width,
                    r.height == height,
            ;
            assert forall|y2: int, x2: int|
                0 <= y2 < value@.len() && 0 <= x2 < value@[0]@.len() implies r.at(y2, x2)
                == value@[y2]@[x2] by {
                lemma_grid_index(width as int, height as int, y2, x2);
            }
        }
        r
    }

    /// Row `y`, copied out of the grid.
    pub fn row(&self, y: usize) -> (r: Vec<F>)
        requires
            self.wf(),
            y < self.height,
        ensures
            r@ == self.row_s(y as int),
    {
        let mut r: Vec<F> = Vec::new();
        let mut x: usize = 0;
        proof {
            vstd::std_specs::vec::axiom_spec_len(&self.data);
        }
        while x < self.width
            invariant
                self.wf(),
                self.data@.len() <= usize::MAX,
                y < self.height,
                x <= self.width,
                r@.len() == x,
                forall|t: int| 0 <= t < x ==> r@[t] == self.row_s(y as int)[t],
            decreases self.width - x,
        {
            proof {
                lemma_grid_index(self.width as int, self.height as int, y as int, x as int);
            }
            r.push(self.data[y * self.width + x]);
            x = x + 1;
        }
        proof {
            assert(r@ =~= self.row_s(y as int));
        }
        r
    }

    /// Column `x`, gathered with stride `width`.
    pub fn column(&self, x: usize) -> (r: Vec<F>)
        requires
            self.wf(),
            x < self.width,
        ensures
            r@ == self.col_s(x as int),
    {
        let mut r: Vec<F> = Vec::new();
        let mut y: usize = 0;
        proof {
            vstd::std_specs::vec::axiom_spec_len(&self.data);
        }
        while y < self.height
            invariant
                self.wf(),
                self.data@.len() <= usize::MAX,
                x < self.width,
                y <= self.height,
                r@.len() == y,
                forall|t: int| 0 <= t < y ==> r@[t] == self.col_s(x as int)[t],
            decreases self.height - y,
        {
            proof {
                lemma_grid_index(self.width as int, self.height as int, y as int, x as int);
            }
            r.push(self.data[y * self.width + x]);
            y = y + 1;
        }
        proof {
            assert(r@ =~= self.col_s(x as int));
        }
        r
    }

    /// Transposes the grid in place: columns become rows and the two
    /// dimensions swap. The declared range is kept.
    pub fn rotate(&mut self)
        requires
            old(self).wf(),
        ensures
            final(self).wf(),
            final(self).width == old(self).height,
            final(self).height == old(self).width,
            forall|y: int, x: int|
                0 <= y < old(self).width && 0 <= x < old(self).height ==> final(self).at(y, x)
                    == old(self).at(x, y),
            final(self).min_value == old(self).min_value,
            final(self).max_value == old(self).max_value,
    {
        let mut data: Vec<F> = Vec::new();
        let mut x: usize = 0;
        proof {
            vstd::std_specs::vec::axiom_spec_len(&self.data);
        }
        while x < self.width
            invariant
                self.wf(),
                self.data@.len() <= usize::MAX,
                self == old(self),
                x <= self.width,
                data@.len() == x * self.height,
                forall|t: int|
                    0 <= t < data@.len() ==> #[trigger] data@[t] == old(self).at(
                        t % (self.height as int),
                        t / (self.height as int),
                    ),
            decreases self.width - x,
        {
            let mut y: usize = 0;
            while y < self.height
                invariant
                    self.wf(),
                    self.data@.len() <= usize::MAX,
                    self == old(self),
                    x < self.width,
                    y <= self.height,
                    data@.len() == x * self.height + y,
                    forall|t: int|
                        0 <= t < data@.len() ==> #[trigger] data@[t] == old(self).at(
                            t % (self.height as int),
                            t / (self.height as int),
                        ),
                decreases self.height - y,
            {
                proof {
                    lemma_grid_index(self.height as int, self.width as int, x as int, y as int);
                    lemma_grid_index(self.width as int, self.height as int, y as int, x as int);
                }
                data.push(self.data[y * self.width + x]);
                y = y + 1;
            }
            proof {
                assert((x as int + 1) * (self.height as int) == (x as int) * (self.height as int)
                    + (self.height as int)) by (nonlinear_arith);
            }
            x = x + 1;
        }
        let tmp = self.width;
        self.width = self.height;
        self.height = tmp;
        self.data = data;
        proof {
            let w_old = old(self).width as int;
            let h_old = old(self).height as int;
            assert(self.data@.len() == w_old * h_old);
            assert(w_old * h_old == h_old * w_old) by (nonlinear_arith);
            assert(self.wf());
            assert forall|y2: int, x2: int|
                0 <= y2 < old(self).width && 0 <= x2 < old(self).height implies self.at(y2, x2)
                == old(self).at(x2, y2) by {
                lemma_grid_index(old(self).height as int, old(self).width as int, y2, x2);
            }
        }
    }

    /// The columns of the grid, yielded left to right.
    pub fn columns(&self) -> (r: Columns<'_, F>)
        requires
            self.wf(),
            1 <= self.width,
        ensures
            r.wf(),
            r.buffer() == self.data@,
            r.grid_width() == self.width as int,
            r.current() == 0,
    {
        proof {
            vstd::arithmetic::div_mod::lemma_mod_multiples_basic(
                self.height as int,
                self.width as int,
            );
            assert((self.height as int) * (self.width as int) == (self.width as int) * (
            self.height as int)) by (nonlinear_arith);
        }
        Columns::new(self.data.as_slice(), self.width)
    }

    /// The mean of all samples, and the rescale step that maps the declared
    /// range to roughly plus or minus half the unit dynamic range.
    pub fn get_mean_and_rescale(&self) -> (r: (F, F))
        ensures
            r.0 == sum_of(self.data@).spec_div(F::spec_from_u64(self.data@.len() as u64)),
            r.1 == self.max_value.spec_sub(r.0).spec_max(
                r.0.spec_sub(self.min_value),
            ).spec_div(F::spec_from_u64(128)),
    {
        let mut acc = F::zero();
        let mut i: usize = 0;
        while i < self.data.len()
            invariant
                i <= self.data@.len(),
                acc == sum_of(self.data@.take(i as int)),
            decreases self.data@.len() - i,
        {
            proof {
                assert(self.data@.take(i + 1).drop_last() =~= self.data@.take(i as int));
            }
            acc = acc.add(self.data[i]);
            i = i + 1;
        }
        proof {
            assert(self.data@.take(self.data@.len() as int) =~= self.data@);
        }
        let mean = acc.div(F::from_u64(self.data.len() as u64));
        let rescale = self.max_value.sub(mean).max(mean.sub(self.min_value)).div(
            F::from_u64(128u64),
        );
        (mean, rescale)
    }

    /// Centers and scales every sample by the grid's own mean and declared
    /// range.
    pub fn auto_normalize(&mut self)
        ensures
            final(self).width == old(self).width,
            final(self).height == old(self).height,
            final(self).min_value == old(self).min_value,
            final(self).max_value == old(self).max_value,
            final(self).data@.len() == old(self).data@.len(),
            ({
                let mean = sum_of(old(self).data@).spec_div(
                    F::spec_from_u64(old(self).data@.len() as u64),
                );
                let rescale = old(self).max_value.spec_sub(mean).spec_max(
                    mean.spec_sub(old(self).min_value),
                ).spec_div(F::spec_from_u64(128));
                forall|i: int|
                    0 <= i < old(self).data@.len() ==> final(self).data@[i] == old(
                        self,
                    ).data@[i].spec_sub(mean).spec_div(rescale)
            }),
    {
        let (mean, rescale) = self.get_mean_and_rescale();
        self.normalize(mean, rescale)
    }

    /// Maps every sample to `(sample - mean) / rescale`.
    pub fn normalize(&mut self, mean: F, rescale: F)
        ensures
            final(self).width == old(self).width,
            final(self).height == old(self).height,
            final(self).min_value == old(self).min_value,
            final(self).max_value == old(self).max_value,
            final(self).data@.len() == old(self).data@.len(),
            forall|i: int|
                0 <= i < old(self).data@.len() ==> final(self).data@[i] == old(
                    self,
                ).data@[i].spec_sub(mean).spec_div(rescale),
    {
        let mut i: usize = 0;
        while i < self.data.len()
            invariant
                self.width == old(self).width,
                self.height == old(self).height,
                self.min_value == old(self).min_value,
                self.max_value == old(self).max_value,
                self.data@.len() == old(self).data@.len(),
                i <= self.data@.len(),
                forall|t: int|
                    i <= t < self.data@.len() ==> self.data@[t] == old(self).data@[t],
                forall|t: int|
                    0 <= t < i ==> self.data@[t] == old(self).data@[t].spec_sub(mean).spec_div(
                        rescale,
                    ),
            decreases self.data@.len() - i,
        {
            let v = self.data[i].sub(mean).div(rescale);
            self.data[i] = v;
            i = i + 1;
        }
    }

    /// The smallest and largest sample actually present, scanned from the
    /// representable bounds.
    pub fn find_min_max(&self) -> (r: (F, F))
        ensures
            r.0 == min_of(self.data@),
            r.1 == max_of(self.data@),
    {
        let mut min = F::max_bound();
        let mut max = F::min_bound();
        let mut i: usize = 0;
        while i < self.data.len()
            invariant
                i <= self.data@.len(),
                min == min_of(self.data@.take(i as int)),
                max == max_of(self.data@.take(i as int)),
            decreases self.data@.len() - i,
        {
            proof {
                assert(self.data@.take(i + 1).drop_last() =~= self.data@.take(i as int));
            }
            min = min.min(self.data[i]);
            max = max.max(self.data[i]);
            i = i + 1;
        }
        proof {
            assert(self.data@.take(self.data@.len() as int) =~= self.data@);
        }
        (min, max)
    }

    /// Refreshes the declared range from the samples themselves: afterwards
    /// the declared minimum and maximum equal the scanned minimum and
    /// maximum of the data, exactly.
    pub fn find_and_set_min_max(&mut self)
        ensures
            final(self).data == old(self).data,
            final(self).width == old(self).width,
            final(self).height == old(self).height,
            final(self).min_value == min_of(old(self).data@),
            final(self).max_value == max_of(old(self).data@),
    {
        let (min, max) = self.find_min_max();
        self.min_value = min;
        self.max_value = max;
    }
}

/// A two-channel filter bank over symmetry-classed filters: two analysis
/// filters, and the two synthesis filters derived from them by dual
/// derivation, so that the bank reconstructs perfectly.
pub struct TwoChannelSubbandCoder<F> {
    pub h_lowpass: Filter<F>,
    pub h_highpass: Filter<F>,
    pub f_lowpass: Filter<F>,
    pub f_highpass: Filter<F>,
}

impl<F: Numeric> TwoChannelSubbandCoder<F> {
    /// All four filters are usable, and small enough for the convolution
    /// index arithmetic of this machine.
    pub open spec fn wf(self) -> bool {
        &&& self.h_lowpass.wf()
        &&& self.h_highpass.wf()
        &&& self.f_lowpass.wf()
        &&& self.f_highpass.wf()
        &&& self.h_lowpass.coef().len() <= usize::MAX / 8
        &&& self.h_highpass.coef().len() <= usize::MAX / 8
        &&& self.f_lowpass.coef().len() <= usize::MAX / 8
        &&& self.f_highpass.coef().len() <= usize::MAX / 8
    }

    /// The lowpass subband of a signal: filter with the analysis lowpass,
    /// keep every second sample.
    pub open spec fn spec_analysis_low(self, s: Seq<F>) -> Seq<F> {
        spec_downsample(self.h_lowpass.spec_apply(s))
    }

    /// The highpass subband of a signal.
    pub open spec fn spec_analysis_high(self, s: Seq<F>) -> Seq<F> {
        spec_downsample(self.h_highpass.spec_apply(s))
    }

    /// The reconstruction of a signal from its two subbands: each subband
    /// is upsampled and run through its synthesis filter, and the two
    /// results are summed pointwise as far as both reach.
    pub open spec fn spec_synthesis_1d(self, a_0: Seq<F>, a_1: Seq<F>) -> Seq<F> {
        let x_0 = self.f_lowpass.spec_apply(spec_upsample(a_0));
        let x_1 = self.f_highpass.spec_apply(spec_upsample(a_1));
        let m = if x_0.len() <= x_1.len() {
            x_0.len()
        } else {
            x_1.len()
        };
        Seq::new(m, |i: int| x_0[i].spec_add(x_1[i]))
    }

    /// Builds the bank from its analysis pair, deriving synthesis-lowpass
    /// as the dual of analysis-highpass and synthesis-highpass as the dual
    /// of analysis-lowpass.
    pub fn new(h_lowpass: Filter<F>, h_highpass: Filter<F>) -> (r: Self)
        ensures
            r.h_lowpass == h_lowpass,
            r.h_highpass == h_highpass,
            r.f_lowpass.whole_sample() == h_highpass.whole_sample(),
            r.f_lowpass.antisymmetric() == !h_highpass.antisymmetric(),
            r.f_lowpass.coef() == if h_highpass.antisymmetric() {
                negate_odd_indexed(h_highpass.coef())
            } else {
                negate_even_indexed(h_highpass.coef())
            },
            r.f_highpass.whole_sample() == h_lowpass.whole_sample(),
            r.f_highpass.antisymmetric() == !h_lowpass.antisymmetric(),
            r.f_highpass.coef() == if h_lowpass.antisymmetric() {
                negate_odd_indexed(h_lowpass.coef())
            } else {
                negate_even_indexed(h_lowpass.coef())
            },
            (h_lowpass.wf() && h_highpass.wf() && h_lowpass.coef().len() <= usize::MAX / 8
                && h_highpass.coef().len() <= usize::MAX / 8) ==> r.wf(),
    {
        let f_lowpass = h_highpass.invert();
        let f_highpass = h_lowpass.invert();
        Self { h_lowpass, h_highpass, f_lowpass, f_highpass }
    }

    /// Every second sample of a signal, starting with the first.
    fn downsample(signal: &[F]) -> (r: Vec<F>)
        ensures
            r@ == spec_downsample(signal@),
    {
        let count = signal.len() / 2 + signal.len() % 2;
        let mut r: Vec<F> = Vec::new();
        let mut i: usize = 0;
        while i < count
            invariant
                signal@.len() <= usize::MAX,
                count == (signal@.len() + 1) / 2,
                i <= count,
                r@.len() == i,
                forall|t: int| 0 <= t < i ==> r@[t] == spec_downsample(signal@)[t],
            decreases count - i,
        {
            proof {
                assert(2 * count <= signal@.len() + 1);
                assert(2 * (i as int) < signal@.len());
            }
            r.push(signal[2 * i]);
            i = i + 1;
        }
        proof {
            assert(r@ =~= spec_downsample(signal@));
        }
        r
    }

    /// A signal with a zero stuffed after every sample.
    fn upsample(signal: &[F]) -> (r: Vec<F>)
        requires
            signal@.len() <= usize::MAX / 2,
        ensures
            r@ == spec_upsample(signal@),
    {
        let mut r: Vec<F> = Vec::new();
        let mut i: usize = 0;
        while i < signal.len()
            invariant
                i <= signal@.len(),
                signal@.len() <= usize::MAX / 2,
                r@.len() == 2 * i,
                forall|t: int| 0 <= t < 2 * i ==> r@[t] == spec_upsample(signal@)[t],
            decreases signal@.len() - i,
        {
            r.push(signal[i]);
            r.push(F::zero());
            i = i + 1;
        }
        proof {
            assert(r@ =~= spec_upsample(signal@));
        }
        r
    }

    /// Splits a signal into its lowpass and highpass subbands.
    pub fn analysis_1d(&self, signal: &[F]) -> (r: (Vec<F>, Vec<F>))
        requires
            self.wf(),
            1 <= signal@.len(),
            signal@.len() <= usize::MAX / 4,
        ensures
            r.0@ == self.spec_analysis_low(signal@),
            r.1@ == self.spec_analysis_high(signal@),
            r.0@.len() == (signal@.len() + 1) / 2,
            r.1@.len() == (signal@.len() + 1) / 2,
    {
        let lowpassed = self.h_lowpass.apply(signal);
        let highpassed = self.h_highpass.apply(signal);
        let lowpassed = Self::downsample(lowpassed.as_slice());
        let highpassed = Self::downsample(highpassed.as_slice());
        (lowpassed, highpassed)
    }

    /// Sample `(y, x)` of the row-lowpassed intermediate of `image`.
    pub open spec fn spec_row_low_at(self, image: FloatImage<F>, y: int, x: int) -> F {
        self.spec_analysis_low(image.row_s(y))[x]
    }

    /// Sample `(y, x)` of the row-highpassed intermediate of `image`.
    pub open spec fn spec_row_high_at(self, image: FloatImage<F>, y: int, x: int) -> F {
        self.spec_analysis_high(image.row_s(y))[x]
    }

    /// Column `x` of the row-lowpassed intermediate of `image`.
    pub open spec fn spec_row_low_col(self, image: FloatImage<F>, x: int) -> Seq<F> {
        Seq::new(image.height as nat, |y: int| self.spec_row_low_at(image, y, x))
    }

    /// Column `x` of the row-highpassed intermediate of `image`.
    pub open spec fn spec_row_high_col(self, image: FloatImage<F>, x: int) -> Seq<F> {
        Seq::new(image.height as nat, |y: int| self.spec_row_high_at(image, y, x))
    }

    /// Row `y` of the image column-synthesized from the subband pair
    /// `(lo, hi)`.
    pub open spec fn spec_column_synthesis_row(
        self,
        lo: FloatImage<F>,
        hi: FloatImage<F>,
        y: int,
    ) -> Seq<F> {
        Seq::new(lo.width as nat, |x: int| self.spec_synthesis_1d(lo.col_s(x), hi.col_s(x))[y])
    }

    /// Reconstructs a signal from its two subbands.
    pub fn synthesis_1d(&self, a_0: &[F], a_1: &[F]) -> (r: Vec<F>)
        requires
            self.wf(),
            1 <= a_0@.len(),
            a_0@.len() <= usize::MAX / 8,
            1 <= a_1@.len(),
            a_1@.len() <= usize::MAX / 8,
        ensures
            r@ == self.spec_synthesis_1d(a_0@, a_1@),
            r@.len() == if 2 * a_0@.len() <= 2 * a_1@.len() {
                2 * a_0@.len()
            } else {
                2 * a_1@.len()
            },
    {
        let up_0 = Self::upsample(a_0);
        let up_1 = Self::upsample(a_1);
        let x_hat_0 = self.f_lowpass.apply(up_0.as_slice());
        let x_hat_1 = self.f_highpass.apply(up_1.as_slice());
        let m = if x_hat_0.len() <= x_hat_1.len() {
            x_hat_0.len()
        } else {
            x_hat_1.len()
        };
        let mut r: Vec<F> = Vec::new();
        let mut i: usize = 0;
        while i < m
            invariant
                m <= x_hat_0@.len(),
                m <= x_hat_1@.len(),
                i <= m,
                r@.len() == i,
                forall|t: int|
                    0 <= t < i ==> r@[t] == x_hat_0@[t].spec_add(x_hat_1@[t]),
            decreases m - i,
        {
            r.push(x_hat_0[i].add(x_hat_1[i]));
            i = i + 1;
        }
        proof {
            assert(r@ =~= self.spec_synthesis_1d(a_0@, a_1@));
        }
        r
    }

    /// Splits every row of the image, producing the row-lowpassed and
    /// row-highpassed intermediates of half the width.
    pub fn row_analysis(&self, image: &FloatImage<F>) -> (r: Result<
        (FloatImage<F>, FloatImage<F>),
        TransformError,
    >)
        requires
            self.wf(),
            image.wf(),
            1 <= image.width,
            image.width <= usize::MAX / 4,
            1 <= image.height,
        ensures
            match r {
                Ok(pair) => {
                    &&& pair.0.wf()
                    &&& pair.0.width == (image.width + 1) / 2
                    &&& pair.0.height == image.height
                    &&& forall|y: int|
                        0 <= y < image.height ==> pair.0.row_s(y) == self.spec_analysis_low(
                            image.row_s(y),
                        )
                    &&& pair.0.min_value == F::spec_zero()
                    &&& pair.0.max_value == F::spec_from_u64(1)
                    &&& pair.1.wf()
                    &&& pair.1.width == (image.width + 1) / 2
                    &&& pair.1.height == image.height
                    &&& forall|y: int|
                        0 <= y < image.height ==> pair.1.row_s(y) == self.spec_analysis_high(
                            image.row_s(y),
                        )
                    &&& pair.1.min_value == F::spec_zero()
                    &&& pair.1.max_value == F::spec_from_u64(1)
                },
                Err(_) => false,
            },
    {
        let mut rows_lowpass: Vec<Vec<F>> = Vec::new();
        let mut rows_highpass: Vec<Vec<F>> = Vec::new();
        let mut y: usize = 0;
        while y < image.height
            invariant
                self.wf(),
                image.wf(),
                1 <= image.width,
                image.width <= usize::MAX / 4,
                y <= image.height,
                rows_lowpass@.len() == y,
                rows_highpass@.len() == y,
                forall|t: int|
                    0 <= t < y ==> (#[trigger] rows_lowpass@[t])@ == self.spec_analysis_low(
                        image.row_s(t),
                    ),
                forall|t: int|
                    0 <= t < y ==> (#[trigger] rows_highpass@[t])@ == self.spec_analysis_high(
                        image.row_s(t),
                    ),
                forall|t: int|
                    0 <= t < y ==> (#[trigger] rows_lowpass@[t])@.len() == (image.width + 1) / 2,
                forall|t: int|
                    0 <= t < y ==> (#[trigger] rows_highpass@[t])@.len() == (image.width + 1)
                        / 2,
            decreases image.height - y,
        {
            let row = image.row(y);
            let (lowpassed, highpassed) = self.analysis_1d(row.as_slice());
            rows_lowpass.push(lowpassed);
            rows_highpass.push(highpassed);
            y = y + 1;
        }
        let rows_lowpass_image = FloatImage::from(rows_lowpass);
        let rows_highpass_image = FloatImage::from(rows_highpass);
        proof {
            assert forall|t: int| 0 <= t < image.height implies rows_lowpass_image.row_s(t)
                == self.spec_analysis_low(image.row_s(t)) by {
                assert(rows_lowpass_image.row_s(t) =~= self.spec_analysis_low(image.row_s(t)));
            }
            assert forall|t: int| 0 <= t < image.height implies rows_highpass_image.row_s(t)
                == self.spec_analysis_high(image.row_s(t)) by {
                assert(rows_highpass_image.row_s(t) =~= self.spec_analysis_high(image.row_s(t)));
            }
        }
        Ok((rows_lowpass_image, rows_highpass_image))
    }

    /// Splits every column of the image, producing the column-lowpassed and
    /// column-highpassed intermediates of half the height.
    pub fn column_analysis(&self, image: &FloatImage<F>) -> (r: Result<
        (FloatImage<F>, FloatImage<F>),
        TransformError,
    >)
        requires
            self.wf(),
            image.wf(),
            1 <= image.width,
            1 <= image.height,
            image.height <= usize::MAX / 4,
        ensures
            match r {
                Ok(pair) => {
                    &&& pair.0.wf()
                    &&& pair.0.width == image.width
                    &&& pair.0.height == (image.height + 1) / 2
                    &&& forall|x: int|
                        0 <= x < image.width ==> pair.0.col_s(x) == self.spec_analysis_low(
                            image.col_s(x),
                        )
                    &&& pair.0.min_value == F::spec_zero()
                    &&& pair.0.max_value == F::spec_from_u64(1)
                    &&& pair.1.wf()
                    &&& pair.1.width == image.width
                    &&& pair.1.height == (image.height + 1) / 2
                    &&& forall|x: int|
                        0 <= x < image.width ==> pair.1.col_s(x) == self.spec_analysis_high(
                            image.col_s(x),
                        )
                    &&& pair.1.min_value == F::spec_zero()
                    &&& pair.1.max_value == F::spec_from_u64(1)
                },
                Err(_) => false,
            },
    {
        let mut cols_lowpass: Vec<Vec<F>> = Vec::new();
        let mut cols_highpass: Vec<Vec<F>> = Vec::new();
        let mut x: usize = 0;
        while x < image.width
            invariant
                self.wf(),
                image.wf(),
                1 <= image.height,
                image.height <= usize::MAX / 4,
                x <= image.width,
                cols_lowpass@.len() == x,
                cols_highpass@.len() == x,
                forall|t: int|
                    0 <= t < x ==> (#[trigger] cols_lowpass@[t])@ == self.spec_analysis_low(
                        image.col_s(t),
                    ),
                forall|t: int|
                    0 <= t < x ==> (#[trigger] cols_highpass@[t])@ == self.spec_analysis_high(
                        image.col_s(t),
                    ),
                forall|t: int|
                    0 <= t < x ==> (#[trigger] cols_lowpass@[t])@.len() == (image.height + 1)
                        / 2,
                forall|t: int|
                    0 <= t < x ==> (#[trigger] cols_highpass@[t])@.len() == (image.height + 1)
                        / 2,
            decreases image.width - x,
        {
            let col = image.column(x);
            let (lowpassed, highpassed) = self.analysis_1d(col.as_slice());
            cols_lowpass.push(lowpassed);
            cols_highpass.push(highpassed);
            x = x + 1;
        }
        let mut rows_lowpass_image = FloatImage::from(cols_lowpass);
        let mut rows_highpass_image = FloatImage::from(cols_highpass);
        rows_lowpass_image.rotate();
        rows_highpass_image.rotate();
        proof {
            assert forall|t: int| 0 <= t < image.width implies rows_lowpass_image.col_s(t)
                == self.spec_analysis_low(image.col_s(t)) by {
                assert(rows_lowpass_image.col_s(t) =~= self.spec_analysis_low(image.col_s(t)));
            }
            assert forall|t: int| 0 <= t < image.width implies rows_highpass_image.col_s(t)
                == self.spec_analysis_high(image.col_s(t)) by {
                assert(rows_highpass_image.col_s(t) =~= self.spec_analysis_high(image.col_s(t)));
            }
        }
        Ok((rows_lowpass_image, rows_highpass_image))
    }

    /// Decomposes an image into its four quadrant subbands: the rows are
    /// split first, then the columns of each intermediate.
    pub fn analysis(&self, image: &FloatImage<F>) -> (r: Result<
        (FloatImage<F>, FloatImage<F>, FloatImage<F>, FloatImage<F>),
        TransformError,
    >)
        requires
            self.wf(),
            image.wf(),
            1 <= image.width,
            image.width <= usize::MAX / 4,
            1 <= image.height,
            image.height <= usize::MAX / 4,
        ensures
            match r {
                Ok(q) => {
                    &&& q.0.wf() && q.1.wf() && q.2.wf() && q.3.wf()
                    &&& q.0.width == (image.width + 1) / 2 && q.0.height == (image.height + 1)
                        / 2
                    &&& q.1.width == (image.width + 1) / 2 && q.1.height == (image.height + 1)
                        / 2
                    &&& q.2.width == (image.width + 1) / 2 && q.2.height == (image.height + 1)
                        / 2
                    &&& q.3.width == (image.width + 1) / 2 && q.3.height == (image.height + 1)
                        / 2
                    &&& forall|x: int|
                        0 <= x < (image.width + 1) / 2 ==> q.0.col_s(x)
                            == self.spec_analysis_low(self.spec_row_low_col(*image, x))
                    &&& forall|x: int|
                        0 <= x < (image.width + 1) / 2 ==> q.1.col_s(x)
                            == self.spec_analysis_high(self.spec_row_low_col(*image, x))
                    &&& forall|x: int|
                        0 <= x < (image.width + 1) / 2 ==> q.2.col_s(x)
                            == self.spec_analysis_low(self.spec_row_high_col(*image, x))
                    &&& forall|x: int|
                        0 <= x < (image.width + 1) / 2 ==> q.3.col_s(x)
                            == self.spec_analysis_high(self.spec_row_high_col(*image, x))
                    &&& q.0.min_value == F::spec_zero() && q.0.max_value == F::spec_from_u64(1)
                    &&& q.1.min_value == F::spec_zero() && q.1.max_value == F::spec_from_u64(1)
                    &&& q.2.min_value == F::spec_zero() && q.2.max_value == F::spec_from_u64(1)
                    &&& q.3.min_value == F::spec_zero() && q.3.max_value == F::spec_from_u64(1)
                },
                Err(_) => false,
            },
    {
        let a_row = match self.row_analysis(image) {
            Ok(pair) => pair,
            Err(e) => {
                proof {
                    assert(false);
                }
                return Err(e);
            },
        };
        let a_0 = match self.column_analysis(&a_row.0) {
            Ok(pair) => pair,
            Err(e) => {
                proof {
                    assert(false);
                }
                return Err(e);
            },
        };
        let a_1 = match self.column_analysis(&a_row.1) {
            Ok(pair) => pair,
            Err(e) => {
                proof {
                    assert(false);
                }
                return Err(e);
            },
        };
        proof {
            assert forall|x: int| 0 <= x < (image.width + 1) / 2 implies a_row.0.col_s(x)
                == self.spec_row_low_col(*image, x) by {
                assert forall|y: int| 0 <= y < image.height implies a_row.0.col_s(x)[y]
                    == self.spec_row_low_col(*image, x)[y] by {
                    assert(a_row.0.row_s(y) == self.spec_analysis_low(image.row_s(y)));
                    assert(a_row.0.row_s(y)[x] == a_row.0.at(y, x));
                }
                assert(a_row.0.col_s(x) =~= self.spec_row_low_col(*image, x));
            }
            assert forall|x: int| 0 <= x < (image.width + 1) / 2 implies a_row.1.col_s(x)
                == self.spec_row_high_col(*image, x) by {
                assert forall|y: int| 0 <= y < image.height implies a_row.1.col_s(x)[y]
                    == self.spec_row_high_col(*image, x)[y] by {
                    assert(a_row.1.row_s(y) == self.spec_analysis_high(image.row_s(y)));
                    assert(a_row.1.row_s(y)[x] == a_row.1.at(y, x));
                }
                assert(a_row.1.col_s(x) =~= self.spec_row_high_col(*image, x));
            }
        }
        Ok((a_0.0, a_0.1, a_1.0, a_1.1))
    }

    /// Rejoins a subband pair along the rows, doubling the width. The pair
    /// must agree in shape; the declared maximum of the result averages the
    /// two declared maxima.
    pub fn row_synthesis(&self, image_lowpass: &FloatImage<F>, image_highpass: &FloatImage<F>)
        -> (r: Result<FloatImage<F>, TransformError>)
        requires
            self.wf(),
            image_lowpass.wf(),
            image_highpass.wf(),
            1 <= image_lowpass.width,
            image_lowpass.width <= usize::MAX / 8,
            1 <= image_lowpass.height,
        ensures
            r is Err <==> !(image_lowpass.width == image_highpass.width
                && image_lowpass.height == image_highpass.height),
            match r {
                Ok(img) => {
                    &&& img.wf()
                    &&& img.width == 2 * image_lowpass.width
                    &&& img.height == image_lowpass.height
                    &&& forall|y: int|
                        0 <= y < img.height ==> img.row_s(y) == self.spec_synthesis_1d(
                            image_lowpass.row_s(y),
                            image_highpass.row_s(y),
                        )
                    &&& img.min_value == F::spec_zero()
                    &&& img.max_value == image_highpass.max_value.spec_add(
                        image_lowpass.max_value,
                    ).spec_div(F::spec_from_u64(2))
                },
                Err(e) => e == TransformError::ShapeMismatch,
            },
    {
        if image_lowpass.width != image_highpass.width || image_lowpass.height
            != image_highpass.height {
            return Err(TransformError::ShapeMismatch);
        }
        let mut data: Vec<Vec<F>> = Vec::new();
        let mut y: usize = 0;
        while y < image_lowpass.height
            invariant
                self.wf(),
                image_lowpass.wf(),
                image_highpass.wf(),
                1 <= image_lowpass.width,
                image_lowpass.width <= usize::MAX / 8,
                image_lowpass.width == image_highpass.width,
                image_lowpass.height == image_highpass.height,
                y <= image_lowpass.height,
                data@.len() == y,
                forall|t: int|
                    0 <= t < y ==> (#[trigger] data@[t])@ == self.spec_synthesis_1d(
                        image_lowpass.row_s(t),
                        image_highpass.row_s(t),
                    ),
                forall|t: int|
                    0 <= t < y ==> (#[trigger] data@[t])@.len() == 2 * image_lowpass.width,
            decreases image_lowpass.height - y,
        {
            let a_0 = image_lowpass.row(y);
            let a_1 = image_highpass.row(y);
            let reconstructed = self.synthesis_1d(a_0.as_slice(), a_1.as_slice());
            data.push(reconstructed);
            y = y + 1;
        }
        let ghost rows_s = data@;
        let mut result = FloatImage::from(data);
        let ghost built = result;
        result.max_value = image_highpass.max_value.add(image_lowpass.max_value).div(
            F::from_u64(2u64),
        );
        proof {
            assert forall|t: int| 0 <= t < image_lowpass.height implies result.row_s(t)
                == self.spec_synthesis_1d(image_lowpass.row_s(t), image_highpass.row_s(t)) by {
                assert forall|x2: int| 0 <= x2 < result.width implies result.row_s(t)[x2]
                    == self.spec_synthesis_1d(
                    image_lowpass.row_s(t),
                    image_highpass.row_s(t),
                )[x2] by {
                    assert(built.at(t, x2) == rows_s[t]@[x2]);
                    assert(result.at(t, x2) == built.at(t, x2));
                }
                assert(result.row_s(t) =~= self.spec_synthesis_1d(
                    image_lowpass.row_s(t),
                    image_highpass.row_s(t),
                ));
            }
        }
        Ok(result)
    }

    /// Rejoins a subband pair along the columns, doubling the height. The
    /// pair must agree in shape; the declared maximum of the result
    /// averages the two declared maxima.
    pub fn column_synthesis(&self, image_lowpass: &FloatImage<F>, image_highpass: &FloatImage<F>)
        -> (r: Result<FloatImage<F>, TransformError>)
        requires
            self.wf(),
            image_lowpass.wf(),
            image_highpass.wf(),
            1 <= image_lowpass.width,
            1 <= image_lowpass.height,
            image_lowpass.height <= usize::MAX / 8,
        ensures
            r is Err <==> !(image_lowpass.width == image_highpass.width
                && image_lowpass.height == image_highpass.height),
            match r {
                Ok(img) => {
                    &&& img.wf()
                    &&& img.width == image_lowpass.width
                    &&& img.height == 2 * image_lowpass.height
                    &&& forall|x: int|
                        0 <= x < img.width ==> img.col_s(x) == self.spec_synthesis_1d(
                            image_lowpass.col_s(x),
                            image_highpass.col_s(x),
                        )
                    &&& img.min_value == F::spec_zero()
                    &&& img.max_value == image_highpass.max_value.spec_add(
                        image_lowpass.max_value,
                    ).spec_div(F::spec_from_u64(2))
                },
                Err(e) => e == TransformError::ShapeMismatch,
            },
    {
        if image_lowpass.width != image_highpass.width || image_lowpass.height
            != image_highpass.height {
            return Err(TransformError::ShapeMismatch);
        }
        let mut data: Vec<Vec<F>> = Vec::new();
        let mut x: usize = 0;
        while x < image_lowpass.width
            invariant
                self.wf(),
                image_lowpass.wf(),
                image_highpass.wf(),
                1 <= image_lowpass.height,
                image_lowpass.height <= usize::MAX / 8,
                image_lowpass.width == image_highpass.width,
                image_lowpass.height == image_highpass.height,
                x <= image_lowpass.width,
                data@.len() == x,
                forall|t: int|
                    0 <= t < x ==> (#[trigger] data@[t])@ == self.spec_synthesis_1d(
                        image_lowpass.col_s(t),
                        image_highpass.col_s(t),
                    ),
                forall|t: int|
                    0 <= t < x ==> (#[trigger] data@[t])@.len() == 2 * image_lowpass.height,
            decreases image_lowpass.width - x,
        {
            let a_0 = image_lowpass.column(x);
            let a_1 = image_highpass.column(x);
            let reconstructed = self.synthesis_1d(a_0.as_slice(), a_1.as_slice());
            data.push(reconstructed);
            x = x + 1;
        }
        let ghost cols_s = data@;
        let mut result = FloatImage::from(data);
        result.rotate();
        let ghost rotated = result;
        result.max_value = image_highpass.max_value.add(image_lowpass.max_value).div(
            F::from_u64(2u64),
        );
        proof {
            assert forall|t: int| 0 <= t < image_lowpass.width implies result.col_s(t)
                == self.spec_synthesis_1d(image_lowpass.col_s(t), image_highpass.col_s(t)) by {
                assert forall|y2: int| 0 <= y2 < result.height implies result.col_s(t)[y2]
                    == self.spec_synthesis_1d(
                    image_lowpass.col_s(t),
                    image_highpass.col_s(t),
                )[y2] by {
                    assert(rotated.at(y2, t) == cols_s[t]@[y2]);
                    assert(result.at(y2, t) == rotated.at(y2, t));
                }
                assert(result.col_s(t) =~= self.spec_synthesis_1d(
                    image_lowpass.col_s(t),
                    image_highpass.col_s(t),
                ));
            }
        }
        Ok(result)
    }

    /// Reconstructs an image from its four quadrant subbands: the column
    /// pass is undone first, pair by pair, then the row pass.
    pub fn synthesis(&self, a: &(FloatImage<F>, FloatImage<F>, FloatImage<F>, FloatImage<F>))
        -> (r: Result<FloatImage<F>, TransformError>)
        requires
            self.wf(),
            a.0.wf(),
            a.1.wf(),
            a.2.wf(),
            a.3.wf(),
            1 <= a.0.width,
            a.0.width <= usize::MAX / 8,
            1 <= a.0.height,
            a.0.height <= usize::MAX / 8,
            1 <= a.2.width,
            1 <= a.2.height,
            a.2.height <= usize::MAX / 8,
        ensures
            r is Err <==> !(a.0.width == a.1.width && a.0.height == a.1.height && a.2.width
                == a.3.width && a.2.height == a.3.height && a.0.width == a.2.width && a.0.height
                == a.2.height),
            match r {
                Ok(img) => {
                    &&& img.wf()
                    &&& img.width == 2 * a.0.width
                    &&& img.height == 2 * a.0.height
                    &&& forall|y: int|
                        0 <= y < img.height ==> img.row_s(y) == self.spec_synthesis_1d(
                            self.spec_column_synthesis_row(a.0, a.1, y),
                            self.spec_column_synthesis_row(a.2, a.3, y),
                        )
                    &&& img.min_value == F::spec_zero()
                    &&& img.max_value == ({
                        let y_0_max = a.1.max_value.spec_add(a.0.max_value).spec_div(
                            F::spec_from_u64(2),
                        );
                        let y_1_max = a.3.max_value.spec_add(a.2.max_value).spec_div(
                            F::spec_from_u64(2),
                        );
                        y_1_max.spec_add(y_0_max).spec_div(F::spec_from_u64(2))
                    })
                },
                Err(e) => e == TransformError::ShapeMismatch,
            },
    {
        let y_0 = match self.column_synthesis(&a.0, &a.1) {
            Ok(img) => img,
            Err(e) => {
                return Err(e);
            },
        };
        let y_1 = match self.column_synthesis(&a.2, &a.3) {
            Ok(img) => img,
            Err(e) => {
                return Err(e);
            },
        };
        let x_hat = match self.row_synthesis(&y_0, &y_1) {
            Ok(img) => img,
            Err(e) => {
                return Err(e);
            },
        };
        proof {
            assert forall|y: int| 0 <= y < 2 * a.0.height implies y_0.row_s(y)
                == self.spec_column_synthesis_row(a.0, a.1, y) by {
                assert forall|x: int| 0 <= x < a.0.width implies y_0.row_s(y)[x]
                    == self.spec_column_synthesis_row(a.0, a.1, y)[x] by {
                    assert(y_0.col_s(x) == self.spec_synthesis_1d(a.0.col_s(x), a.1.col_s(x)));
                    assert(y_0.col_s(x)[y] == y_0.at(y, x));
                }
                assert(y_0.row_s(y) =~= self.spec_column_synthesis_row(a.0, a.1, y));
            }
            assert forall|y: int| 0 <= y < 2 * a.0.height implies y_1.row_s(y)
                == self.spec_column_synthesis_row(a.2, a.3, y) by {
                assert forall|x: int| 0 <= x < a.2.width implies y_1.row_s(y)[x]
                    == self.spec_column_synthesis_row(a.2, a.3, y)[x] by {
                    assert(y_1.col_s(x) == self.spec_synthesis_1d(a.2.col_s(x), a.3.col_s(x)));
                    assert(y_1.col_s(x)[y] == y_1.at(y, x));
                }
                assert(y_1.row_s(y) =~= self.spec_column_synthesis_row(a.2, a.3, y));
            }
        }
        Ok(x_hat)
    }
}

/// The columns of a row-major sample buffer, yielded left to right.
pub struct Columns<'a, F> {
    data: &'a [F],
    width: usize,
    col: usize,
}

impl<'a, F: Numeric> Columns<'a, F> {
    /// The underlying buffer.
    pub closed spec fn buffer(self) -> Seq<F> {
        self.data@
    }

    /// The grid width the columns are gathered under.
    pub closed spec fn grid_width(self) -> int {
        self.width as int
    }

    /// The next column to yield.
    pub closed spec fn current(self) -> int {
        self.col as int
    }

    /// Column `x` of the buffer: every `width`-th sample, starting at `x`.
    pub open spec fn col_of(self, x: int) -> Seq<F> {
        Seq::new(((self.buffer().len() as int) / self.grid_width()) as nat, |y: int|
            self.buffer()[y * self.grid_width() + x])
    }

    /// The buffer holds whole rows of the grid.
    pub open spec fn wf(self) -> bool {
        &&& self.grid_width() >= 1
        &&& (self.buffer().len() as int) % self.grid_width() == 0
        &&& self.current() >= 0
    }

    /// Starts yielding columns of `data` under grid width `width`.
    pub fn new(data: &'a [F], width: usize) -> (r: Self)
        ensures
            r.buffer() == data@,
            r.grid_width() == width as int,
            r.current() == 0,
    {
        Self { data, width, col: 0 }
    }

    /// Yields the next column, `None` once all columns are out.
    pub fn next(&mut self) -> (r: Option<Vec<F>>)
        requires
            old(self).wf(),
        ensures
            final(self).wf(),
            final(self).buffer() == old(self).buffer(),
            final(self).grid_width() == old(self).grid_width(),
            old(self).current() >= old(self).grid_width() ==> {
                &&& r is None
                &&& final(self).current() == old(self).current()
            },
            old(self).current() < old(self).grid_width() ==> {
                &&& final(self).current() == old(self).current() + 1
                &&& (match r {
                    Some(v) => v@ == old(self).col_of(old(self).current()),
                    None => false,
                })
            },
    {
        if self.col >= self.width {
            return None;
        }
        let rows = self.data.len() / self.width;
        let mut col: Vec<F> = Vec::new();
        let mut y: usize = 0;
        while y < rows
            invariant
                self.wf(),
                self.buffer().len() <= usize::MAX,
                self.col < self.width,
                rows == (self.buffer().len() as int) / self.grid_width(),
                y <= rows,
                col@.len() == y,
                forall|t: int| 0 <= t < y ==> col@[t] == self.col_of(self.current())[t],
            decreases rows - y,
        {
            proof {
                lemma_grid_index(
                    self.grid_width(),
                    rows as int,
                    y as int,
                    self.col as int,
                );
                vstd::arithmetic::div_mod::lemma_fundamental_div_mod(
                    self.buffer().len() as int,
                    self.grid_width(),
                );
                assert((rows as int) * self.grid_width() == self.grid_width() * (
                rows as int)) by (nonlinear_arith);
            }
            col.push(self.data[y * self.width + self.col]);
            y = y + 1;
        }
        proof {
            assert(col@ =~= self.col_of(self.current()));
        }
        self.col = self.col + 1;
        Some(col)
    }
}

} // verus!
