//! Mirror-periodic boundary extension of a finite signal.
//!
//! Filtering near a signal boundary needs samples past the ends. The two
//! extension kinds reflect the signal about its endpoints: the whole-sample
//! kind mirrors about the end samples themselves (each endpoint appears once
//! per period), the half-sample kind mirrors about an axis half a sample past
//! each end (each endpoint repeats before the reflection). Iteration is a
//! small state machine that walks the signal, flips direction at each mirror
//! boundary, and stops after emitting the window the convolution consumes.

use vstd::prelude::*;

verus! {

/// The period of the mirrored repetition of a signal of length `len`.
/// With duplicated ends (half-sample axis) every sample appears twice per
/// period; without (whole-sample axis) the two end samples appear once.
pub open spec fn mirror_period(len: int, duplicate_ends: bool) -> int {
    if duplicate_ends {
        2 * len
    } else if len == 1 {
        1
    } else {
        2 * len - 2
    }
}

/// Which sample of the signal stands at `phase` within one mirror period:
/// first the signal runs forward, then it runs backward, with the end sample
/// repeated exactly when the ends are duplicated.
pub open spec fn mirror_index(len: int, duplicate_ends: bool, phase: int) -> int {
    if phase < len {
        phase
    } else if duplicate_ends {
        2 * len - 1 - phase
    } else {
        2 * len - 2 - phase
    }
}

/// Which sample of the signal stands at position `i` of the infinite
/// mirror-periodic extension.
pub open spec fn extension_index(len: int, duplicate_ends: bool, i: int) -> int {
    mirror_index(len, duplicate_ends, i % mirror_period(len, duplicate_ends))
}

/// The mirror-periodic extension repeats with its period: position
/// `i + period` always shows the same sample as position `i`.
pub proof fn lemma_extension_periodic(len: int, duplicate_ends: bool, i: int)
    requires
        len >= 1,
        i >= 0,
    ensures
        extension_index(len, duplicate_ends, i + mirror_period(len, duplicate_ends))
            == extension_index(len, duplicate_ends, i),
{
    let p = mirror_period(len, duplicate_ends);
    assert((i + p) % p == i % p) by {
        vstd::arithmetic::div_mod::lemma_mod_add_multiples_vanish(i, p);
    }
}

/// The finite window of the mirror-periodic extension of `s` that one
/// convolution pass consumes: one full mirror pattern, returning to the
/// first sample. The window stays within the first pattern, so no
/// wraparound is involved.
pub open spec fn extension_window<F>(s: Seq<F>, duplicate_ends: bool) -> Seq<F> {
    let len = s.len() as int;
    Seq::new(
        (if duplicate_ends {
            2 * len
        } else {
            2 * len - 1
        }) as nat,
        |i: int| s[mirror_index(len, duplicate_ends, i)],
    )
}

/// A finite signal together with the mirror axis its extension uses.
/// The whole-sample kind visits each endpoint once per period; the
/// half-sample kind repeats the endpoints.
#[derive(Clone, Copy)]
pub enum SignalExtension<'a, F> {
    HalfSample(&'a [F]),
    WholeSample(&'a [F]),
}

impl<'a, F: Copy> SignalExtension<'a, F> {
    /// The underlying samples, as a sequence.
    pub open spec fn signal(self) -> Seq<F> {
        match self {
            SignalExtension::HalfSample(s) => s@,
            SignalExtension::WholeSample(s) => s@,
        }
    }

    /// Whether this extension duplicates the end samples on reflection
    /// (true exactly for the half-sample kind).
    pub open spec fn duplicates_ends(self) -> bool {
        self matches SignalExtension::HalfSample(_)
    }

    /// How many extended samples iteration emits: one full mirror pattern,
    /// returning to the first sample.
    pub open spec fn window_len(self) -> int {
        if self.duplicates_ends() {
            2 * (self.signal().len() as int)
        } else {
            2 * (self.signal().len() as int) - 1
        }
    }

    /// The extended samples that iteration emits, in order.
    pub open spec fn window(self) -> Seq<F> {
        extension_window(self.signal(), self.duplicates_ends())
    }

    /// The underlying samples.
    pub fn samples(&self) -> (s: &'a [F])
        ensures
            s@ == self.signal(),
    {
        match self {
            SignalExtension::HalfSample(s) => s,
            SignalExtension::WholeSample(s) => s,
        }
    }

    /// Whether this extension duplicates the end samples.
    pub fn is_half_sample(&self) -> (b: bool)
        ensures
            b == self.duplicates_ends(),
    {
        match self {
            SignalExtension::HalfSample(_) => true,
            SignalExtension::WholeSample(_) => false,
        }
    }

    /// Starts iteration over the extended signal at the first sample.
    pub fn into_iter(self) -> (it: SignalIter<'a, F>)
        requires
            1 <= self.signal().len(),
            self.signal().len() <= usize::MAX / 2,
        ensures
            it.wf(),
            it.extension() == self,
            it.pos() == 0,
    {
        let s = self.samples();
        let count: usize = if self.is_half_sample() {
            2 * s.len()
        } else {
            2 * s.len() - 1
        };
        SignalIter { extension: self, index: 0, descending: false, remaining: count }
    }
}

/// Iteration state over a mirror-extended signal: the current position in
/// the signal, the direction of travel, and how many samples are still owed.
pub struct SignalIter<'a, F> {
    extension: SignalExtension<'a, F>,
    index: usize,
    descending: bool,
    remaining: usize,
}

impl<'a, F: Copy> SignalIter<'a, F> {
    /// The extension being walked.
    pub closed spec fn extension(self) -> SignalExtension<'a, F> {
        self.extension
    }

    /// How many extended samples have been emitted so far.
    pub closed spec fn pos(self) -> int {
        self.extension.window_len() - self.remaining
    }

    /// The iteration state matches its position: walking forward over the
    /// signal while the position is inside the first run, walking backward
    /// at the mirrored sample afterwards.
    pub closed spec fn wf(self) -> bool {
        let n = self.extension.signal().len() as int;
        &&& n >= 1
        &&& self.remaining <= self.extension.window_len()
        &&& (self.remaining > 0 ==> {
            let p = self.pos();
            &&& (p < n ==> !self.descending && self.index == p)
            &&& (p >= n ==> self.descending
                && self.index == mirror_index(n, self.extension.duplicates_ends(), p))
        })
    }

    /// Emits the next extended sample, `None` once the window is exhausted.
    pub fn next(&mut self) -> (r: Option<&'a F>)
        requires
            old(self).wf(),
        ensures
            final(self).wf(),
            final(self).extension() == old(self).extension(),
            old(self).pos() >= old(self).extension().window_len() ==> {
                &&& r is None
                &&& final(self).pos() == old(self).pos()
            },
            old(self).pos() < old(self).extension().window_len() ==> {
                &&& final(self).pos() == old(self).pos() + 1
                &&& (match r {
                    Some(v) => *v == old(self).extension().window()[old(self).pos()],
                    None => false,
                })
            },
    {
        if self.remaining == 0 {
            return None;
        }
        let s = self.extension.samples();
        let n = s.len();
        let out = &s[self.index];
        self.remaining = self.remaining - 1;
        if self.remaining > 0 {
            if !self.descending {
                if self.index + 1 < n {
                    self.index = self.index + 1;
                } else {
                    self.descending = true;
                    if !self.extension.is_half_sample() {
                        // the mirror axis sits on the last sample: step past it
                        self.index = if n >= 2 { n - 2 } else { 0 };
                    }
                    // half-sample axis: the last sample repeats, index stays
                }
            } else {
                if self.index > 0 {
                    self.index = self.index - 1;
                }
            }
        }
        Some(out)
    }

    /// Emits the whole window at once.
    pub fn collect(self) -> (v: Vec<F>)
        requires
            self.wf(),
            self.pos() == 0,
        ensures
            v@ == self.extension().window(),
    {
        let mut it = self;
        let mut v: Vec<F> = Vec::new();
        while it.remaining > 0
            invariant
                it.wf(),
                it.extension() == self.extension(),
                it.pos() == v@.len(),
                v@ == self.extension().window().take(it.pos()),
            decreases it.remaining,
        {
            let r = it.next();
            match r {
                Some(x) => v.push(*x),
                None => {
                    proof {
                        assert(false);
                    }
                },
            }
        }
        proof {
            assert(v@ =~= self.extension().window());
        }
        v
    }
}

} // verus!
