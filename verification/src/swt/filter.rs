//! FIR filters in four symmetry classes, their mirrored coefficient
//! extension, dual-filter derivation, and symmetry-aware convolution.
//!
//! A filter stores half of a symmetric (or antisymmetric) kernel and a class
//! tag saying where the mirror axis sits. The full kernel is recovered by
//! mirroring the stored coefficients, negating the mirrored half for the
//! antisymmetric classes. The dual of a filter — the synthesis-side companion
//! that makes a two-channel bank reconstruct perfectly — is derived by
//! negating every other coefficient and flipping the class between symmetric
//! and antisymmetric.

use vstd::prelude::*;

use crate::numeric::Numeric;
use crate::swt::signal::{extension_window, SignalExtension};

verus! {

/// The full mirrored kernel implied by stored coefficients `c`:
/// first the reflected half (negated for antisymmetric kernels), then the
/// stored half. A whole-sample axis keeps the axis coefficient single, so
/// the reflection leaves it out; a half-sample axis repeats the edge
/// coefficient.
pub open spec fn mirrored_coefficients<F: Numeric>(
    c: Seq<F>,
    whole_sample: bool,
    negate_mirror: bool,
) -> Seq<F> {
    let l = c.len() as int;
    let mirrored = if whole_sample {
        l - 1
    } else {
        l
    };
    Seq::new(
        (l + mirrored) as nat,
        |i: int|
            if i < mirrored {
                if negate_mirror {
                    c[l - 1 - i].spec_neg()
                } else {
                    c[l - 1 - i]
                }
            } else {
                c[i - mirrored]
            },
    )
}

/// The coefficients of `c` with every even-indexed entry negated.
pub open spec fn negate_even_indexed<F: Numeric>(c: Seq<F>) -> Seq<F> {
    Seq::new(c.len(), |i: int| if i % 2 == 0 {
        c[i].spec_neg()
    } else {
        c[i]
    })
}

/// The coefficients of `c` with every odd-indexed entry negated.
pub open spec fn negate_odd_indexed<F: Numeric>(c: Seq<F>) -> Seq<F> {
    Seq::new(c.len(), |i: int| if i % 2 == 1 {
        c[i].spec_neg()
    } else {
        c[i]
    })
}

/// One anti-diagonal partial sum of the convolution grid: the sum of
/// `kernel[j] * signal[i - j]` over `j < count`, taken in ascending `j`,
/// skipping grid cells outside either sequence. Accumulation starts at the
/// additive identity and folds to the left, matching the executable order.
pub open spec fn diagonal_sum<F: Numeric>(
    signal: Seq<F>,
    kernel: Seq<F>,
    i: int,
    count: int,
) -> F
    decreases count,
{
    if count <= 0 {
        F::spec_zero()
    } else {
        let j = count - 1;
        let acc = diagonal_sum(signal, kernel, i, j);
        if 0 <= i - j < signal.len() && j < kernel.len() {
            acc.spec_add(kernel[j].spec_mul(signal[i - j]))
        } else {
            acc
        }
    }
}

/// An FIR kernel given by its stored coefficient half and a symmetry class:
/// whole- or half-sample mirror axis, symmetric or antisymmetric reflection.
pub enum Filter<F> {
    WSS(Vec<F>),
    HSS(Vec<F>),
    WSA(Vec<F>),
    HSA(Vec<F>),
}

impl<F: Numeric> Filter<F> {
    /// The stored coefficient half.
    pub open spec fn coef(self) -> Seq<F> {
        match self {
            Filter::WSS(c) => c@,
            Filter::HSS(c) => c@,
            Filter::WSA(c) => c@,
            Filter::HSA(c) => c@,
        }
    }

    /// Whether the mirror axis falls on a sample.
    pub open spec fn whole_sample(self) -> bool {
        self matches Filter::WSS(_) || self matches Filter::WSA(_)
    }

    /// Whether the mirrored half is negated.
    pub open spec fn antisymmetric(self) -> bool {
        self matches Filter::WSA(_) || self matches Filter::HSA(_)
    }

    /// The length of the full mirrored kernel.
    pub open spec fn spec_len(self) -> int {
        if self.whole_sample() {
            2 * (self.coef().len() as int) - 1
        } else {
            2 * (self.coef().len() as int)
        }
    }

    /// A usable filter: a non-empty coefficient half, and at least two
    /// coefficients when the axis sits on a sample, so that the mirrored
    /// kernel spans at least two taps.
    pub open spec fn wf(self) -> bool {
        &&& self.coef().len() >= 1
        &&& (self.whole_sample() ==> self.coef().len() >= 2)
    }

    /// The full mirrored kernel.
    pub open spec fn mirrored(self) -> Seq<F> {
        mirrored_coefficients(self.coef(), self.whole_sample(), self.antisymmetric())
    }

    /// The boundary extension window of `signal` matching this filter's
    /// axis: whole-sample kernels pair with the whole-sample signal
    /// extension, half-sample kernels with the half-sample one.
    pub open spec fn signal_window(self, signal: Seq<F>) -> Seq<F> {
        extension_window(signal, !self.whole_sample())
    }

    /// What convolving `signal` with this filter yields: anti-diagonal sums
    /// over the extended signal and the mirrored kernel, trimmed at the
    /// front by half the kernel length less one, and at the back where the
    /// diagonals run out.
    pub open spec fn spec_apply(self, signal: Seq<F>) -> Seq<F> {
        let sig = self.signal_window(signal);
        let ker = self.mirrored();
        let max_size = (sig.len() + ker.len() - 1) / 2;
        let boundary = self.spec_len() / 2 - 1;
        Seq::new(
            (if boundary <= max_size {
                max_size - boundary
            } else {
                0
            }) as nat,
            |k: int| diagonal_sum(sig, ker, boundary + k, boundary + k + 1),
        )
    }

    /// The length of the full mirrored kernel.
    pub fn len(&self) -> (r: usize)
        requires
            self.coef().len() >= 1,
            self.coef().len() <= usize::MAX / 2,
        ensures
            r == self.spec_len(),
    {
        match self {
            Filter::WSS(c) => c.len() * 2 - 1,
            Filter::WSA(c) => c.len() * 2 - 1,
            Filter::HSS(c) => c.len() * 2,
            Filter::HSA(c) => c.len() * 2,
        }
    }

    /// The full mirrored kernel, as an iterator over its coefficients.
    pub fn coefficients<'a>(&'a self) -> (it: FilterIter<'a, F>)
        requires
            self.coef().len() >= 1,
            self.coef().len() <= usize::MAX / 2,
        ensures
            it.wf(),
            it.pos() == 0,
            it.target() == self.mirrored(),
    {
        match self {
            Filter::WSS(c) => FilterExtension::WholeSampleLowpass(c.as_slice()).into_iter(),
            Filter::HSS(c) => FilterExtension::HalfSampleLowpass(c.as_slice()).into_iter(),
            Filter::WSA(c) => FilterExtension::WholeSampleHighpass(c.as_slice()).into_iter(),
            Filter::HSA(c) => FilterExtension::HalfSampleHighpass(c.as_slice()).into_iter(),
        }
    }

    /// `coefficients` with every even-indexed entry negated.
    pub fn invert_even_negative(coefficients: &[F]) -> (r: Vec<F>)
        ensures
            r@ == negate_even_indexed(coefficients@),
    {
        let mut r: Vec<F> = Vec::new();
        let mut i: usize = 0;
        while i < coefficients.len()
            invariant
                i <= coefficients@.len(),
                r@.len() == i,
                forall|k: int| 0 <= k < i ==> r@[k] == negate_even_indexed(coefficients@)[k],
            decreases coefficients@.len() - i,
        {
            if i % 2 == 0 {
                r.push(coefficients[i].neg());
            } else {
                r.push(coefficients[i]);
            }
            i = i + 1;
        }
        proof {
            assert(r@ =~= negate_even_indexed(coefficients@));
        }
        r
    }

    /// `coefficients` with every odd-indexed entry negated.
    pub fn invert_odd_negative(coefficients: &[F]) -> (r: Vec<F>)
        ensures
            r@ == negate_odd_indexed(coefficients@),
    {
        let mut r: Vec<F> = Vec::new();
        let mut i: usize = 0;
        while i < coefficients.len()
            invariant
                i <= coefficients@.len(),
                r@.len() == i,
                forall|k: int| 0 <= k < i ==> r@[k] == negate_odd_indexed(coefficients@)[k],
            decreases coefficients@.len() - i,
        {
            if i % 2 == 1 {
                r.push(coefficients[i].neg());
            } else {
                r.push(coefficients[i]);
            }
            i = i + 1;
        }
        proof {
            assert(r@ =~= negate_odd_indexed(coefficients@));
        }
        r
    }

    /// The perfect-reconstruction dual: every other coefficient negated
    /// (even-indexed for a symmetric filter, odd-indexed for an
    /// antisymmetric one) and the class flipped between symmetric and
    /// antisymmetric at the same axis.
    pub fn invert(&self) -> (r: Self)
        ensures
            r.whole_sample() == self.whole_sample(),
            r.antisymmetric() == !self.antisymmetric(),
            r.coef() == if self.antisymmetric() {
                negate_odd_indexed(self.coef())
            } else {
                negate_even_indexed(self.coef())
            },
            self.wf() ==> r.wf(),
    {
        match self {
            Filter::WSS(c) => Filter::WSA(Self::invert_even_negative(c.as_slice())),
            Filter::WSA(c) => Filter::WSS(Self::invert_odd_negative(c.as_slice())),
            Filter::HSS(c) => Filter::HSA(Self::invert_even_negative(c.as_slice())),
            Filter::HSA(c) => Filter::HSS(Self::invert_odd_negative(c.as_slice())),
        }
    }

    /// Convolves `signal` with this filter: the signal is mirror-extended to
    /// match the filter's axis, the kernel is the mirrored coefficient
    /// sequence, and each output sample is one anti-diagonal sum of their
    /// product grid, with edge transients trimmed so that the output is as
    /// long as the input.
    pub fn apply(&self, signal: &[F]) -> (r: Vec<F>)
        requires
            self.wf(),
            1 <= signal@.len(),
            signal@.len() <= usize::MAX / 4,
            self.coef().len() <= usize::MAX / 4,
        ensures
            r@ == self.spec_apply(signal@),
            r@.len() == signal@.len(),
    {
        let ker: Vec<F> = self.coefficients().collect();
        let ext = match self {
            Filter::WSS(_) => SignalExtension::WholeSample(signal),
            Filter::WSA(_) => SignalExtension::WholeSample(signal),
            Filter::HSS(_) => SignalExtension::HalfSample(signal),
            Filter::HSA(_) => SignalExtension::HalfSample(signal),
        };
        let sig: Vec<F> = ext.into_iter().collect();
        let s_len = sig.len();
        let p = ker.len();
        let max_size = (s_len + p - 1) / 2;
        let boundary = p / 2 - 1;
        let ghost sig_s = self.signal_window(signal@);
        let ghost ker_s = self.mirrored();
        let mut r: Vec<F> = Vec::new();
        let mut i = boundary;
        while i < max_size
            invariant
                sig@ == sig_s,
                ker@ == ker_s,
                s_len == sig@.len(),
                p == ker@.len(),
                boundary <= i <= max_size || i == boundary,
                max_size == (s_len + p - 1) / 2,
                s_len + p <= usize::MAX,
                r@.len() == i - boundary,
                forall|k: int|
                    0 <= k < r@.len() ==> r@[k] == diagonal_sum(
                        sig_s,
                        ker_s,
                        boundary + k,
                        boundary + k + 1,
                    ),
            decreases max_size - i,
        {
            let mut acc = F::zero();
            let mut j: usize = 0;
            while j <= i
                invariant
                    sig@ == sig_s,
                    ker@ == ker_s,
                    s_len == sig@.len(),
                    p == ker@.len(),
                    i < max_size,
                    max_size == (s_len + p - 1) / 2,
                    s_len + p <= usize::MAX,
                    j <= i + 1,
                    acc == diagonal_sum(sig_s, ker_s, i as int, j as int),
                decreases i + 1 - j,
            {
                if i - j < s_len && j < p {
                    acc = acc.add(ker[j].mul(sig[i - j]));
                }
                j = j + 1;
            }
            r.push(acc);
            i = i + 1;
        }
        proof {
            assert(r@ =~= self.spec_apply(signal@));
        }
        r
    }
}

/// A filter's stored coefficients together with the axis and sign rule
/// their mirrored extension uses.
#[derive(Clone, Copy)]
pub enum FilterExtension<'a, F> {
    HalfSampleLowpass(&'a [F]),
    WholeSampleLowpass(&'a [F]),
    HalfSampleHighpass(&'a [F]),
    WholeSampleHighpass(&'a [F]),
}

impl<'a, F: Numeric> FilterExtension<'a, F> {
    /// The stored coefficient half.
    pub open spec fn coef(self) -> Seq<F> {
        match self {
            FilterExtension::HalfSampleLowpass(c) => c@,
            FilterExtension::WholeSampleLowpass(c) => c@,
            FilterExtension::HalfSampleHighpass(c) => c@,
            FilterExtension::WholeSampleHighpass(c) => c@,
        }
    }

    /// Whether the mirror axis falls on a sample.
    pub open spec fn whole_sample(self) -> bool {
        self matches FilterExtension::WholeSampleLowpass(_)
            || self matches FilterExtension::WholeSampleHighpass(_)
    }

    /// Whether the mirrored half is negated.
    pub open spec fn highpass(self) -> bool {
        self matches FilterExtension::HalfSampleHighpass(_)
            || self matches FilterExtension::WholeSampleHighpass(_)
    }

    /// The length of one full mirrored kernel.
    pub open spec fn spec_period(self) -> int {
        if self.whole_sample() {
            2 * (self.coef().len() as int) - 1
        } else {
            2 * (self.coef().len() as int)
        }
    }

    /// The full mirrored kernel.
    pub open spec fn mirrored(self) -> Seq<F> {
        mirrored_coefficients(self.coef(), self.whole_sample(), self.highpass())
    }

    /// Reads a filter as the extension of its stored coefficients.
    pub fn from(value: &'a Filter<F>) -> (r: Self)
        ensures
            r.coef() == value.coef(),
            r.whole_sample() == value.whole_sample(),
            r.highpass() == value.antisymmetric(),
    {
        match value {
            Filter::HSS(c) => Self::HalfSampleLowpass(c.as_slice()),
            Filter::WSS(c) => Self::WholeSampleLowpass(c.as_slice()),
            Filter::WSA(c) => Self::WholeSampleHighpass(c.as_slice()),
            Filter::HSA(c) => Self::HalfSampleHighpass(c.as_slice()),
        }
    }

    /// The length of one full mirrored kernel.
    pub fn period(&self) -> (r: usize)
        requires
            self.whole_sample() ==> self.coef().len() >= 1,
            self.coef().len() <= usize::MAX / 2,
        ensures
            r == self.spec_period(),
    {
        match self {
            FilterExtension::WholeSampleLowpass(c) => c.len() * 2 - 1,
            FilterExtension::HalfSampleLowpass(c) => c.len() * 2,
            FilterExtension::WholeSampleHighpass(c) => c.len() * 2 - 1,
            FilterExtension::HalfSampleHighpass(c) => c.len() * 2,
        }
    }

    /// Starts iteration over the mirrored kernel.
    pub fn into_iter(self) -> (it: FilterIter<'a, F>)
        requires
            self.whole_sample() ==> self.coef().len() >= 1,
            self.coef().len() <= usize::MAX / 2,
        ensures
            it.wf(),
            it.pos() == 0,
            it.target() == self.mirrored(),
    {
        let period = self.period();
        FilterIter { extension: self, index: 0, period }
    }
}

/// Iteration state over a mirrored kernel: how many coefficients have been
/// emitted, and the period at which iteration stops.
pub struct FilterIter<'a, F> {
    extension: FilterExtension<'a, F>,
    index: usize,
    period: usize,
}

impl<'a, F: Numeric> FilterIter<'a, F> {
    /// The full mirrored kernel this iterator emits.
    pub closed spec fn target(self) -> Seq<F> {
        self.extension.mirrored()
    }

    /// How many coefficients have been emitted so far.
    pub closed spec fn pos(self) -> int {
        self.index as int
    }

    /// The iteration state is consistent: the stop mark equals the mirrored
    /// kernel length and the position has not run past it.
    pub closed spec fn wf(self) -> bool {
        &&& self.period == self.extension.spec_period()
        &&& (self.extension.whole_sample() ==> self.extension.coef().len() >= 1)
        &&& self.index <= self.period
    }

    /// Emits the next mirrored coefficient, `None` once one full kernel has
    /// been emitted.
    pub fn next(&mut self) -> (r: Option<F>)
        requires
            old(self).wf(),
        ensures
            final(self).wf(),
            final(self).target() == old(self).target(),
            old(self).pos() >= old(self).target().len() ==> {
                &&& r is None
                &&& final(self).pos() == old(self).pos()
            },
            old(self).pos() < old(self).target().len() ==> {
                &&& final(self).pos() == old(self).pos() + 1
                &&& r == Some(old(self).target()[old(self).pos()])
            },
    {
        if self.index >= self.period {
            return None;
        }
        let (ext, highpass, whole_sample_offset): (&[F], bool, usize) = match self.extension {
            FilterExtension::HalfSampleLowpass(e) => (e, false, 0),
            FilterExtension::WholeSampleLowpass(e) => (e, false, 1),
            FilterExtension::HalfSampleHighpass(e) => (e, true, 0),
            FilterExtension::WholeSampleHighpass(e) => (e, true, 1),
        };
        let last_mirrored = ext.len() - whole_sample_offset;
        let r = if self.index < last_mirrored {
            let coefficient = ext[ext.len() - self.index - 1];
            if highpass {
                coefficient.neg()
            } else {
                coefficient
            }
        } else {
            ext[self.index - last_mirrored]
        };
        self.index = self.index + 1;
        Some(r)
    }

    /// Emits the whole mirrored kernel at once.
    pub fn collect(self) -> (v: Vec<F>)
        requires
            self.wf(),
            self.pos() == 0,
        ensures
            v@ == self.target(),
    {
        let mut it = self;
        let mut v: Vec<F> = Vec::new();
        while it.index < it.period
            invariant
                it.wf(),
                it.target() == self.target(),
                it.pos() == v@.len(),
                v@ == self.target().take(it.pos()),
            decreases it.period - it.index,
        {
            let r = it.next();
            match r {
                Some(x) => v.push(x),
                None => {
                    proof {
                        assert(false);
                    }
                },
            }
        }
        proof {
            assert(v@ =~= self.target());
        }
        v
    }

    /// Emits up to `n` mirrored coefficients, fewer when the kernel ends
    /// first.
    pub fn take(self, n: usize) -> (v: Vec<F>)
        requires
            self.wf(),
            self.pos() == 0,
        ensures
            v@ == self.target().take(if n <= self.target().len() {
                n as int
            } else {
                self.target().len() as int
            }),
    {
        let mut it = self;
        let mut v: Vec<F> = Vec::new();
        let mut k: usize = 0;
        while k < n && it.index < it.period
            invariant
                it.wf(),
                it.target() == self.target(),
                it.pos() == v@.len(),
                k == v@.len(),
                k <= n,
                v@ == self.target().take(it.pos()),
            decreases n - k,
        {
            let r = it.next();
            match r {
                Some(x) => v.push(x),
                None => {
                    proof {
                        assert(false);
                    }
                },
            }
            k = k + 1;
        }
        proof {
            assert(v@ =~= self.target().take(if n <= self.target().len() {
                n as int
            } else {
                self.target().len() as int
            }));
        }
        v
    }
}

} // verus!
