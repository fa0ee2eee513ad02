//! Sparse frequency counter and an arithmetic-progression generator.
//!
//! The histogram maps a non-negative integer bin to how often it has been
//! counted; unseen bins count zero.  Backing storage grows on demand and
//! never shrinks, so an empirical distribution can be built from a stream
//! of discrete summaries.

use vstd::prelude::*;

verus! {

/// A sparse histogram over non-negative integer bins.
pub struct Histogram {
    data: Vec<usize>,
}

/// The pairs `(bin, count)` of all bins of `s` with a non-zero count, in
/// ascending bin order.
pub open spec fn axes_of(s: Seq<usize>) -> Seq<(usize, usize)>
    decreases s.len(),
{
    if s.len() == 0 {
        Seq::empty()
    } else {
        let rest = axes_of(s.drop_last());
        if s.last() != 0 {
            rest.push((((s.len() - 1) as usize), s.last()))
        } else {
            rest
        }
    }
}

/// What `axes_of` lists, exactly: each pair is a bin of `s` with its
/// non-zero count, the bins appear in strictly ascending order, and no bin
/// with a non-zero count is missing.
pub proof fn lemma_axes_of_exact(s: Seq<usize>)
    requires
        s.len() <= usize::MAX,
    ensures
        forall|i: int|
            0 <= i < axes_of(s).len() ==> {
                let p = #[trigger] axes_of(s)[i];
                &&& p.0 < s.len()
                &&& s[p.0 as int] == p.1
                &&& p.1 != 0
            },
        forall|i: int, j: int|
            0 <= i < j < axes_of(s).len() ==> (#[trigger] axes_of(s)[i]).0 < (#[trigger] axes_of(
                s,
            )[j]).0,
        forall|b: int|
            0 <= b < s.len() && s[b] != 0 ==> exists|i: int|
                0 <= i < axes_of(s).len() && (#[trigger] axes_of(s)[i]).0 == b,
    decreases s.len(),
{
    if s.len() > 0 {
        let rest = s.drop_last();
        lemma_axes_of_exact(rest);
        let a = axes_of(s);
        let ar = axes_of(rest);
        assert forall|b: int| 0 <= b < s.len() && s[b] != 0 implies exists|i: int|
            0 <= i < a.len() && (#[trigger] a[i]).0 == b by {
            if b < s.len() - 1 {
                assert(rest[b] == s[b]);
                let i = choose|i: int| 0 <= i < ar.len() && (#[trigger] ar[i]).0 == b;
                assert(a[i].0 == b);
            } else {
                assert(a[a.len() - 1].0 == b);
            }
        }
    }
}

impl View for Histogram {
    type V = Seq<usize>;

    closed spec fn view(&self) -> Seq<usize> {
        self.data@
    }
}

impl Histogram {
    /// The count of bin `n`: zero for any bin beyond the backing storage.
    pub open spec fn spec_count(self, n: int) -> int {
        if 0 <= n < self@.len() {
            self@[n] as int
        } else {
            0
        }
    }

    /// An empty histogram: every bin counts zero.
    pub fn new() -> (h: Histogram)
        ensures
            h@.len() == 0,
    {
        Histogram { data: Vec::new() }
    }

    /// An empty histogram with room reserved for bins up to `n`.
    pub fn with_capacity(n: usize) -> (h: Histogram)
        ensures
            h@.len() == 0,
    {
        Histogram { data: Vec::with_capacity(n) }
    }

    /// Count one occurrence of bin `n`, growing the backing storage to
    /// cover `n` first and zero-filling any bins newly brought into range.
    /// No other bin's count changes, and no count ever decreases.
    pub fn inc(&mut self, n: usize)
        requires
            old(self).spec_count(n as int) < usize::MAX,
        ensures
            final(self)@.len() == (if n + 1 > old(self)@.len() {
                (n + 1) as int
            } else {
                old(self)@.len() as int
            }),
            final(self).spec_count(n as int) == old(self).spec_count(n as int) + 1,
            forall|m: int| m != n ==> final(self).spec_count(m) == old(self).spec_count(m),
            final(self)@.len() >= old(self)@.len(),
            forall|b: int| final(self).spec_count(b) >= old(self).spec_count(b),
            forall|b: int| old(self).spec_count(b) > 0 ==> final(self).spec_count(b) > 0,
    {
        while self.data.len() <= n
            invariant
                old(self)@.len() <= self@.len(),
                self@.len() <= n + 1 || self@.len() == old(self)@.len(),
                forall|m: int| self.spec_count(m) == old(self).spec_count(m),
            decreases n + 1 - self@.len(),
        {
            self.data.push(0);
        }
        let c = self.data[n];
        self.data[n] = c + 1;
    }

    /// The bins with a non-zero count and their counts, as two equal-length
    /// sequences in ascending bin order: the form a density plot consumes.
    pub fn axes(&self) -> (r: (Vec<usize>, Vec<usize>))
        ensures
            r.0@.len() == axes_of(self@).len(),
            r.1@.len() == axes_of(self@).len(),
            forall|i: int|
                0 <= i < axes_of(self@).len() ==> r.0@[i] == (#[trigger] axes_of(self@)[i]).0
                    && r.1@[i] == axes_of(self@)[i].1,
    {
        let mut xs: Vec<usize> = Vec::with_capacity(self.data.len());
        let mut ys: Vec<usize> = Vec::with_capacity(self.data.len());
        let mut idx: usize = 0;
        while idx < self.data.len()
            invariant
                0 <= idx <= self@.len(),
                xs@.len() == axes_of(self@.take(idx as int)).len(),
                ys@.len() == axes_of(self@.take(idx as int)).len(),
                forall|i: int|
                    0 <= i < xs@.len() ==> xs@[i] == (#[trigger] axes_of(
                        self@.take(idx as int),
                    )[i]).0 && ys@[i] == axes_of(self@.take(idx as int))[i].1,
            decreases self@.len() - idx,
        {
            let c = self.data[idx];
            let ghost before = self@.take(idx as int);
            if c != 0 {
                xs.push(idx);
                ys.push(c);
            }
            idx = idx + 1;
            proof {
                let now = self@.take(idx as int);
                assert(now.drop_last() =~= before);
                assert(now.last() == self@[idx - 1]);
            }
        }
        proof {
            assert(self@.take(self@.len() as int) =~= self@);
        }
        (xs, ys)
    }
}

/// A lazy arithmetic progression: starts at a given value and grows by a
/// fixed step on every draw.
pub struct Range {
    cur: i64,
    step: i64,
}

impl View for Range {
    type V = (i64, i64);

    closed spec fn view(&self) -> (i64, i64) {
        (self.cur, self.step)
    }
}

impl Range {
    /// The progression starting at `init` with increment `step`.
    pub fn new(init: i64, step: i64) -> (r: Range)
        ensures
            r@ == (init, step),
    {
        Range { cur: init, step }
    }

    /// The next value of the progression: returns the current value and
    /// advances by the step.
    pub fn next(&mut self) -> (v: i64)
        requires
            i64::MIN <= old(self)@.0 + old(self)@.1 <= i64::MAX,
        ensures
            v == old(self)@.0,
            final(self)@.0 == old(self)@.0 + old(self)@.1,
            final(self)@.1 == old(self)@.1,
    {
        let v = self.cur;
        self.cur = self.cur + self.step;
        v
    }
}

} // verus!
