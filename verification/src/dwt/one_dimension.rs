//! One-dimensional two-channel subband coding over plain FIR filters.
//!
//! This is the un-symmetrized filter bank: a linear time-invariant filter is
//! a bare coefficient vector, convolution is the full discrete convolution,
//! and the synthesis side trims the transient samples that the filter length
//! asymmetry introduces. The infinite mirror extensions of a signal live here
//! too, as small direction-flipping state machines.

use vstd::prelude::*;

use crate::numeric::Numeric;
use crate::swt::filter::{negate_even_indexed, negate_odd_indexed};
use crate::swt::signal::{extension_index, mirror_period};

verus! {

/// The sum of `input[i] * kernel[k - i]` over `i < count`, taken in
/// ascending `i`, skipping pairs whose kernel index falls outside the
/// kernel. Accumulation starts at the additive identity and folds to the
/// left, matching the executable order.
pub open spec fn convolution_sum<F: Numeric>(
    input: Seq<F>,
    kernel: Seq<F>,
    k: int,
    count: int,
) -> F
    decreases count,
{
    if count <= 0 {
        F::spec_zero()
    } else {
        let i = count - 1;
        let acc = convolution_sum(input, kernel, k, i);
        if 0 <= k - i < kernel.len() && i < input.len() {
            acc.spec_add(input[i].spec_mul(kernel[k - i]))
        } else {
            acc
        }
    }
}

/// Every second sample of `s`, starting with the first.
pub open spec fn spec_downsample<F>(s: Seq<F>) -> Seq<F> {
    Seq::new(((s.len() + 1) / 2) as nat, |i: int| s[2 * i])
}

/// `s` with a zero stuffed after every sample.
pub open spec fn spec_upsample<F: Numeric>(s: Seq<F>) -> Seq<F> {
    Seq::new((2 * s.len()) as nat, |i: int| if i % 2 == 0 {
        s[i / 2]
    } else {
        F::spec_zero()
    })
}

/// Downsampling is a left inverse of upsampling: stuffing a zero after
/// every sample and then keeping only the even-indexed samples returns the
/// signal unchanged. The converse does not hold: upsampling a downsampled
/// signal loses the odd-indexed samples.
pub proof fn lemma_downsample_inverts_upsample<F: Numeric>(s: Seq<F>)
    ensures
        spec_downsample(spec_upsample(s)) == s,
{
    assert(spec_downsample(spec_upsample(s)) =~= s);
}

/// An FIR filter as a bare coefficient vector.
pub struct LinearTimeInvariantFilter<F> {
    pub coefficients: Vec<F>,
}

impl<F: Numeric> LinearTimeInvariantFilter<F> {
    /// What the full convolution of `input` with this filter yields:
    /// `input.len() + kernel.len() - 1` samples, each the sum of the
    /// products aligned at its position.
    pub open spec fn spec_apply(self, input: Seq<F>) -> Seq<F> {
        Seq::new(
            (input.len() + self.coefficients@.len() - 1) as nat,
            |k: int| convolution_sum(input, self.coefficients@, k, input.len() as int),
        )
    }

    /// Wraps a coefficient vector as a filter.
    pub fn new(coefficients: Vec<F>) -> (r: Self)
        ensures
            r.coefficients == coefficients,
    {
        Self { coefficients }
    }

    /// Full discrete convolution of `input` with this filter.
    pub fn apply(&self, input: &[F]) -> (r: Vec<F>)
        requires
            self.coefficients@.len() >= 1,
            input@.len() <= usize::MAX / 4,
            self.coefficients@.len() <= usize::MAX / 4,
        ensures
            r@ == self.spec_apply(input@),
            r@.len() == input@.len() + self.coefficients@.len() - 1,
    {
        let signal_len = input.len();
        let kernel_len = self.coefficients.len();
        let out_len = signal_len + kernel_len - 1;
        let mut r: Vec<F> = Vec::new();
        let mut k: usize = 0;
        while k < out_len
            invariant
                signal_len == input@.len(),
                kernel_len == self.coefficients@.len(),
                1 <= kernel_len,
                out_len == signal_len + kernel_len - 1,
                out_len <= usize::MAX / 2,
                k <= out_len,
                r@.len() == k,
                forall|t: int|
                    0 <= t < k ==> r@[t] == convolution_sum(
                        input@,
                        self.coefficients@,
                        t,
                        signal_len as int,
                    ),
            decreases out_len - k,
        {
            let mut acc = F::zero();
            let mut i: usize = 0;
            while i < signal_len
                invariant
                    signal_len == input@.len(),
                    kernel_len == self.coefficients@.len(),
                    i <= signal_len,
                    acc == convolution_sum(input@, self.coefficients@, k as int, i as int),
                decreases signal_len - i,
            {
                if i <= k && k - i < kernel_len {
                    acc = acc.add(input[i].mul(self.coefficients[k - i]));
                }
                i = i + 1;
            }
            r.push(acc);
            k = k + 1;
        }
        proof {
            assert(r@ =~= self.spec_apply(input@));
        }
        r
    }

    /// The synthesis lowpass companion of an analysis highpass filter:
    /// every even-indexed coefficient negated.
    pub fn invert_highpass(&self) -> (r: LinearTimeInvariantFilter<F>)
        ensures
            r.coefficients@ == negate_even_indexed(self.coefficients@),
    {
        let mut inverted_coefficients: Vec<F> = Vec::new();
        let mut i: usize = 0;
        while i < self.coefficients.len()
            invariant
                i <= self.coefficients@.len(),
                inverted_coefficients@.len() == i,
                forall|t: int|
                    0 <= t < i ==> inverted_coefficients@[t] == negate_even_indexed(
                        self.coefficients@,
                    )[t],
            decreases self.coefficients@.len() - i,
        {
            if i % 2 == 1 {
                inverted_coefficients.push(self.coefficients[i]);
            } else {
                inverted_coefficients.push(self.coefficients[i].neg());
            }
            i = i + 1;
        }
        proof {
            assert(inverted_coefficients@ =~= negate_even_indexed(self.coefficients@));
        }
        LinearTimeInvariantFilter { coefficients: inverted_coefficients }
    }

    /// The synthesis highpass companion of an analysis lowpass filter:
    /// every odd-indexed coefficient negated.
    pub fn invert_lowpass(&self) -> (r: LinearTimeInvariantFilter<F>)
        ensures
            r.coefficients@ == negate_odd_indexed(self.coefficients@),
    {
        let mut inverted_coeffs: Vec<F> = Vec::new();
        let mut i: usize = 0;
        while i < self.coefficients.len()
            invariant
                i <= self.coefficients@.len(),
                inverted_coeffs@.len() == i,
                forall|t: int|
                    0 <= t < i ==> inverted_coeffs@[t] == negate_odd_indexed(
                        self.coefficients@,
                    )[t],
            decreases self.coefficients@.len() - i,
        {
            if i % 2 == 0 {
                inverted_coeffs.push(self.coefficients[i]);
            } else {
                inverted_coeffs.push(self.coefficients[i].neg());
            }
            i = i + 1;
        }
        proof {
            assert(inverted_coeffs@ =~= negate_odd_indexed(self.coefficients@));
        }
        LinearTimeInvariantFilter { coefficients: inverted_coeffs }
    }
}

/// A two-channel filter bank: two analysis filters, and the two synthesis
/// filters derived from them so that the bank reconstructs perfectly.
pub struct TwoChannelSubbandCoder<F> {
    pub h_lowpass: LinearTimeInvariantFilter<F>,
    pub h_highpass: LinearTimeInvariantFilter<F>,
    pub f_lowpass: LinearTimeInvariantFilter<F>,
    pub f_highpass: LinearTimeInvariantFilter<F>,
}

impl<F: Numeric> TwoChannelSubbandCoder<F> {
    /// Builds the bank from its analysis pair, deriving synthesis-lowpass
    /// from analysis-highpass and synthesis-highpass from analysis-lowpass.
    pub fn new(
        h_lowpass: LinearTimeInvariantFilter<F>,
        h_highpass: LinearTimeInvariantFilter<F>,
    ) -> (r: Self)
        ensures
            r.h_lowpass == h_lowpass,
            r.h_highpass == h_highpass,
            r.f_lowpass.coefficients@ == negate_even_indexed(h_highpass.coefficients@),
            r.f_highpass.coefficients@ == negate_odd_indexed(h_lowpass.coefficients@),
    {
        let f_lowpass = h_highpass.invert_highpass();
        let f_highpass = h_lowpass.invert_lowpass();
        Self { h_lowpass, h_highpass, f_lowpass, f_highpass }
    }

    /// Doubles a signal by stuffing a zero after every sample.
    pub fn upsample(input: &[F]) -> (r: Vec<F>)
        requires
            input@.len() <= usize::MAX / 2,
        ensures
            r@ == spec_upsample(input@),
    {
        let mut r: Vec<F> = Vec::new();
        let mut i: usize = 0;
        while i < input.len()
            invariant
                i <= input@.len(),
                input@.len() <= usize::MAX / 2,
                r@.len() == 2 * i,
                forall|t: int| 0 <= t < 2 * i ==> r@[t] == spec_upsample(input@)[t],
            decreases input@.len() - i,
        {
            r.push(input[i]);
            r.push(F::zero());
            i = i + 1;
        }
        proof {
            assert(r@ =~= spec_upsample(input@));
        }
        r
    }

    /// Halves a signal by keeping only the even-indexed samples.
    pub fn downsample(input: &[F]) -> (r: Vec<F>)
        ensures
            r@ == spec_downsample(input@),
    {
        let count = input.len() / 2 + input.len() % 2;
        let mut r: Vec<F> = Vec::new();
        let mut i: usize = 0;
        while i < count
            invariant
                input@.len() <= usize::MAX,
                count == (input@.len() + 1) / 2,
                i <= count,
                r@.len() == i,
                forall|t: int| 0 <= t < i ==> r@[t] == spec_downsample(input@)[t],
            decreases count - i,
        {
            proof {
                assert(2 * count <= input@.len() + 1);
                assert(2 * (i as int) < input@.len());
            }
            r.push(input[2 * i]);
            i = i + 1;
        }
        proof {
            assert(r@ =~= spec_downsample(input@));
        }
        r
    }

    /// Splits a signal into its lowpass and highpass subbands: filter with
    /// each analysis filter, then keep every second sample.
    pub fn analysis(&self, input: &[F]) -> (r: (Vec<F>, Vec<F>))
        requires
            self.h_lowpass.coefficients@.len() >= 1,
            self.h_highpass.coefficients@.len() >= 1,
            input@.len() <= usize::MAX / 4,
            self.h_lowpass.coefficients@.len() <= usize::MAX / 4,
            self.h_highpass.coefficients@.len() <= usize::MAX / 4,
        ensures
            r.0@ == spec_downsample(self.h_lowpass.spec_apply(input@)),
            r.1@ == spec_downsample(self.h_highpass.spec_apply(input@)),
    {
        let y_0 = self.h_lowpass.apply(input);
        let y_1 = self.h_highpass.apply(input);
        let a_0 = Self::downsample(y_0.as_slice());
        let a_1 = Self::downsample(y_1.as_slice());
        (a_0, a_1)
    }

    /// What reconstructing from subbands `a_0` and `a_1` yields: each
    /// subband is upsampled and run through its synthesis filter, the two
    /// results are summed pointwise, and the transient samples introduced
    /// by the filter lengths are trimmed from both ends.
    pub open spec fn spec_synthesis(self, a_0: Seq<F>, a_1: Seq<F>) -> Seq<F> {
        let x_0 = self.f_lowpass.spec_apply(spec_upsample(a_0));
        let x_1 = self.f_highpass.spec_apply(spec_upsample(a_1));
        let start_skip = self.f_lowpass.coefficients@.len() as int - 1;
        let end_skip = self.f_highpass.coefficients@.len() as int;
        let kept = if x_0.len() - end_skip <= x_1.len() as int {
            x_0.len() - end_skip
        } else {
            x_1.len() as int
        };
        Seq::new(
            (if start_skip <= kept {
                kept - start_skip
            } else {
                0
            }) as nat,
            |k: int| x_0[start_skip + k].spec_add(x_1[start_skip + k]),
        )
    }

    /// Reconstructs a signal from its two subbands.
    pub fn synthesis(&self, a_0: &[F], a_1: &[F]) -> (r: Vec<F>)
        requires
            self.f_lowpass.coefficients@.len() >= 1,
            self.f_highpass.coefficients@.len() >= 1,
            a_0@.len() <= usize::MAX / 8,
            a_1@.len() <= usize::MAX / 8,
            self.f_lowpass.coefficients@.len() <= usize::MAX / 8,
            self.f_highpass.coefficients@.len() <= usize::MAX / 8,
            self.f_highpass.coefficients@.len() <= 2 * a_0@.len()
                + self.f_lowpass.coefficients@.len() - 1,
        ensures
            r@ == self.spec_synthesis(a_0@, a_1@),
    {
        let y_0 = Self::upsample(a_0);
        let y_1 = Self::upsample(a_1);
        let x_0 = self.f_lowpass.apply(y_0.as_slice());
        let x_1 = self.f_highpass.apply(y_1.as_slice());
        let start_skip = self.f_lowpass.coefficients.len() - 1;
        let end_skip = self.f_highpass.coefficients.len();
        let kept = if x_0.len() - end_skip <= x_1.len() {
            x_0.len() - end_skip
        } else {
            x_1.len()
        };
        let mut r: Vec<F> = Vec::new();
        if start_skip < kept {
            let count = kept - start_skip;
            let mut k: usize = 0;
            while k < count
                invariant
                    count == kept - start_skip,
                    start_skip <= kept,
                    kept <= x_0@.len(),
                    kept <= x_1@.len(),
                    k <= count,
                    r@.len() == k,
                    forall|t: int|
                        0 <= t < k ==> r@[t] == x_0@[start_skip + t].spec_add(
                            x_1@[start_skip + t],
                        ),
                decreases count - k,
            {
                r.push(x_0[start_skip + k].add(x_1[start_skip + k]));
                k = k + 1;
            }
        }
        proof {
            assert(r@ =~= self.spec_synthesis(a_0@, a_1@));
        }
        r
    }
}

/// Relates the phase of a step counter to the phase one step later:
/// within a mirror period the phase advances by one, and at the period
/// boundary it wraps to zero.
proof fn lemma_phase_step(e: int, p: int)
    requires
        0 <= e,
        2 <= p,
    ensures
        (e % p) + 1 < p ==> (e + 1) % p == (e % p) + 1,
        (e % p) + 1 == p ==> (e + 1) % p == 0,
{
    vstd::arithmetic::div_mod::lemma_mod_bound(e, p);
    vstd::arithmetic::div_mod::lemma_add_mod_noop(e, 1, p);
    vstd::arithmetic::div_mod::lemma_small_mod(1nat, p as nat);
    if (e % p) + 1 < p {
        vstd::arithmetic::div_mod::lemma_small_mod(((e % p) + 1) as nat, p as nat);
    } else {
        vstd::arithmetic::div_mod::lemma_mod_self_0(p);
    }
}

/// The endlessly repeating extension of a signal that mirrors about an axis
/// half a sample past each end: every sample, the end samples included, is
/// repeated on reflection, giving period `2 * len`. Iteration walks the
/// signal back and forth, flipping direction at the ends without moving.
pub struct WholeSampleSymmetricExtension<'a, F> {
    inner: &'a [F],
    index: usize,
    forward: bool,
    steps: Ghost<nat>,
}

impl<'a, F: Copy> WholeSampleSymmetricExtension<'a, F> {
    /// The underlying samples.
    pub closed spec fn signal(self) -> Seq<F> {
        self.inner@
    }

    /// How many extended samples have been emitted so far.
    pub closed spec fn emitted(self) -> nat {
        self.steps@
    }

    /// The sample this extension shows at position `i`.
    pub open spec fn at(self, i: int) -> F {
        self.signal()[extension_index(self.signal().len() as int, true, i)]
    }

    /// The walking state matches the phase of the position within the
    /// mirror period: forward over the signal in the first half, backward
    /// at the reflected sample in the second.
    pub closed spec fn wf(self) -> bool {
        let n = self.signal().len() as int;
        let phase = (self.steps@ as int) % mirror_period(n, true);
        &&& n >= 1
        &&& self.index < n
        &&& (phase < n ==> self.index == phase && self.forward)
        &&& (phase >= n ==> self.index == 2 * n - 1 - phase && !self.forward)
    }

    /// Starts the extension at the first sample.
    pub fn from(signal: &'a [F]) -> (r: Self)
        requires
            signal@.len() >= 1,
        ensures
            r.wf(),
            r.signal() == signal@,
            r.emitted() == 0,
    {
        proof {
            vstd::arithmetic::div_mod::lemma_small_mod(
                0nat,
                mirror_period(signal@.len() as int, true) as nat,
            );
        }
        Self { inner: signal, index: 0, forward: true, steps: Ghost(0) }
    }

    /// Emits the next extended sample; the extension never ends.
    pub fn next(&mut self) -> (r: Option<&'a F>)
        requires
            old(self).wf(),
        ensures
            final(self).wf(),
            final(self).signal() == old(self).signal(),
            final(self).emitted() == old(self).emitted() + 1,
            match r {
                Some(v) => *v == old(self).at(old(self).emitted() as int),
                None => false,
            },
    {
        let result = &self.inner[self.index];
        proof {
            lemma_phase_step(
                self.steps@ as int,
                mirror_period(self.signal().len() as int, true),
            );
        }
        if self.index == 0 && !self.forward {
            self.forward = true;
        } else if self.index == self.inner.len() - 1 && self.forward {
            self.forward = false;
        } else {
            self.index = if self.forward {
                self.index + 1
            } else {
                self.index - 1
            };
        }
        self.steps = Ghost(self.steps@ + 1);
        Some(result)
    }

    /// Emits the next `n` extended samples.
    pub fn take(&mut self, n: usize) -> (v: Vec<F>)
        requires
            old(self).wf(),
        ensures
            final(self).wf(),
            final(self).signal() == old(self).signal(),
            final(self).emitted() == old(self).emitted() + n,
            v@.len() == n,
            forall|i: int|
                0 <= i < n ==> v@[i] == old(self).at(old(self).emitted() + i),
    {
        let mut v: Vec<F> = Vec::new();
        let mut k: usize = 0;
        while k < n
            invariant
                self.wf(),
                self.signal() == old(self).signal(),
                k <= n,
                self.emitted() == old(self).emitted() + k,
                v@.len() == k,
                forall|i: int|
                    0 <= i < k ==> v@[i] == old(self).at(old(self).emitted() + i),
            decreases n - k,
        {
            let r = self.next();
            match r {
                Some(x) => v.push(*x),
                None => {
                    proof {
                        assert(false);
                    }
                },
            }
            k = k + 1;
        }
        v
    }
}

/// The endlessly repeating extension of a signal that mirrors about the end
/// samples themselves: each endpoint appears once per period, giving period
/// `2 * len - 2`. Iteration walks the signal back and forth, stepping past
/// the end sample as it flips direction. A one-sample signal extends to the
/// constant sequence.
pub struct HalfSampleSymmetricExtension<'a, F> {
    inner: &'a [F],
    index: usize,
    forward: bool,
    steps: Ghost<nat>,
}

impl<'a, F: Copy> HalfSampleSymmetricExtension<'a, F> {
    /// The underlying samples.
    pub closed spec fn signal(self) -> Seq<F> {
        self.inner@
    }

    /// How many extended samples have been emitted so far.
    pub closed spec fn emitted(self) -> nat {
        self.steps@
    }

    /// The sample this extension shows at position `i`.
    pub open spec fn at(self, i: int) -> F {
        self.signal()[extension_index(self.signal().len() as int, false, i)]
    }

    /// The walking state matches the phase of the position within the
    /// mirror period: at the first sample where the phase wraps, forward
    /// through the ascent, backward at the reflected sample otherwise.
    pub closed spec fn wf(self) -> bool {
        let n = self.signal().len() as int;
        let phase = (self.steps@ as int) % mirror_period(n, false);
        &&& n >= 1
        &&& self.index < n
        &&& (n == 1 ==> self.index == 0)
        &&& (n >= 2 ==> {
            &&& (phase == 0 ==> self.index == 0)
            &&& (1 <= phase < n ==> self.index == phase && self.forward)
            &&& (phase >= n ==> self.index == 2 * n - 2 - phase && !self.forward)
        })
    }

    /// Starts the extension at the first sample.
    pub fn from(signal: &'a [F]) -> (r: Self)
        requires
            signal@.len() >= 1,
        ensures
            r.wf(),
            r.signal() == signal@,
            r.emitted() == 0,
    {
        proof {
            vstd::arithmetic::div_mod::lemma_small_mod(
                0nat,
                mirror_period(signal@.len() as int, false) as nat,
            );
        }
        Self { inner: signal, index: 0, forward: true, steps: Ghost(0) }
    }

    /// Emits the next extended sample; the extension never ends.
    pub fn next(&mut self) -> (r: Option<&'a F>)
        requires
            old(self).wf(),
        ensures
            final(self).wf(),
            final(self).signal() == old(self).signal(),
            final(self).emitted() == old(self).emitted() + 1,
            match r {
                Some(v) => *v == old(self).at(old(self).emitted() as int),
                None => false,
            },
    {
        let result = &self.inner[self.index];
        let n = self.inner.len();
        if n > 1 {
            proof {
                lemma_phase_step(
                    self.steps@ as int,
                    mirror_period(self.signal().len() as int, false),
                );
            }
            if self.index == 0 && !self.forward {
                self.forward = true;
            } else if self.index == n - 1 && self.forward {
                self.forward = false;
            }
            self.index = if self.forward {
                self.index + 1
            } else {
                self.index - 1
            };
        }
        self.steps = Ghost(self.steps@ + 1);
        Some(result)
    }

    /// Emits the next `n` extended samples.
    pub fn take(&mut self, n: usize) -> (v: Vec<F>)
        requires
            old(self).wf(),
        ensures
            final(self).wf(),
            final(self).signal() == old(self).signal(),
            final(self).emitted() == old(self).emitted() + n,
            v@.len() == n,
            forall|i: int|
                0 <= i < n ==> v@[i] == old(self).at(old(self).emitted() + i),
    {
        let mut v: Vec<F> = Vec::new();
        let mut k: usize = 0;
        while k < n
            invariant
                self.wf(),
                self.signal() == old(self).signal(),
                k <= n,
                self.emitted() == old(self).emitted() + k,
                v@.len() == k,
                forall|i: int|
                    0 <= i < k ==> v@[i] == old(self).at(old(self).emitted() + i),
            decreases n - k,
        {
            let r = self.next();
            match r {
                Some(x) => v.push(*x),
                None => {
                    proof {
                        assert(false);
                    }
                },
            }
            k = k + 1;
        }
        v
    }
}

} // verus!
