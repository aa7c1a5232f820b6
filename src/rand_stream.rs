use rand::Rng;
use vstd::prelude::*;

verus! {

/// Relies on rand::thread_rng and rand::Rng::gen_range: a value drawn from
/// `0..n`, which gen_range panics on only where the range is empty.
#[verifier::external_body]
pub(crate) fn random_below(n: usize) -> (r: usize)
    requires
        n > 0,
    ensures
        r < n,
{
    rand::thread_rng().gen_range(0..n)
}

/// Picks one item of a stream of unknown length, each with equal chance
/// (reservoir sampling of size one).
#[derive(Debug)]
pub struct Rand<T> {
    res: Option<T>,
    count: usize,
}

impl<T> Rand<T> {
    /// The item kept so far.
    pub closed spec fn chosen(&self) -> Option<T> {
        self.res
    }

    /// How many items have been offered.
    pub closed spec fn count(&self) -> nat {
        self.count as nat
    }

    pub closed spec fn wf(&self) -> bool {
        (self.count == 0) == (self.res is None)
    }

    pub fn new() -> (r: Self)
        ensures
            r.wf(),
            r.count() == 0,
            r.chosen() is None,
    {
        Rand { res: None, count: 0 }
    }

    /// Offers `x` as the next item. `draw` is a number drawn uniformly from
    /// `0..n`, where `n` is the number of items offered so far, `x`
    /// included: `x` replaces the kept item where it is zero.
    pub fn push(&mut self, x: T, draw: usize)
        requires
            old(self).wf(),
            old(self).count() < usize::MAX,
        ensures
            final(self).wf(),
            final(self).count() == old(self).count() + 1,
            final(self).chosen() == if draw == 0 || old(self).count() == 0 {
                Some(x)
            } else {
                old(self).chosen()
            },
    {
        self.count = self.count + 1;
        if draw == 0 || self.count == 1 {
            self.res = Some(x);
        }
    }

    /// Offers `x` as the next item, drawing the number that `push` takes.
    pub fn push_random(&mut self, x: T)
        requires
            old(self).wf(),
            old(self).count() < usize::MAX,
        ensures
            final(self).wf(),
            final(self).count() == old(self).count() + 1,
            final(self).chosen() == Some(x) || final(self).chosen() == old(self).chosen(),
            old(self).count() == 0 ==> final(self).chosen() == Some(x),
    {
        let draw = random_below(self.count + 1);
        self.push(x, draw);
    }

    /// The item that was picked: `None` only where none was offered.
    pub fn get(self) -> (r: Option<T>)
        requires
            self.wf(),
        ensures
            r == self.chosen(),
            r is None <==> self.count() == 0,
    {
        self.res
    }
}

impl<T> Default for Rand<T> {
    fn default() -> (r: Self)
        ensures
            r.wf(),
            r.count() == 0,
            r.chosen() is None,
    {
        Self::new()
    }
}

} // verus!
