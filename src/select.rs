use crate::rand_stream::Rand;
use vstd::prelude::*;

verus! {

/// A pending channel operation that `select` may carry out.
pub trait Selectable {
    /// Whether the operation can be carried out without blocking.
    fn is_ready(&self) -> bool;

    /// Carries the operation out.
    fn commit(self);
}

/// Picks, uniformly at random, an index whose entry in `ready` is true.
pub fn choose_ready(ready: &Vec<bool>) -> (r: Option<usize>)
    ensures
        r is None <==> (forall|i: int| 0 <= i < ready@.len() ==> !#[trigger] ready@[i]),
        match r {
            Some(i) => i < ready@.len() && ready@[i as int],
            None => true,
        },
{
    let mut pick: Rand<usize> = Rand::new();
    let mut i: usize = 0;
    while i < ready.len()
        invariant
            i <= ready@.len(),
            pick.wf(),
            pick.count() <= i,
            (pick.count() == 0) <==> (forall|k: int| 0 <= k < i ==> !#[trigger] ready@[k]),
            match pick.chosen() {
                Some(j) => j < i && ready@[j as int],
                None => true,
            },
        decreases ready@.len() - i,
    {
        if ready[i] {
            pick.push_random(i);
        }
        i = i + 1;
    }
    pick.get()
}

/// Takes one ready token out of `tokens`, chosen at random among the
/// ready ones, and hands it back with the others in their order. Where no
/// token is ready, `tokens` comes back unchanged.
pub fn select_ready<T>(tokens: Vec<T>, ready: &Vec<bool>) -> (r: Result<(T, Vec<T>), Vec<T>>)
    requires
        tokens@.len() == ready@.len(),
    ensures
        r is Err <==> (forall|i: int| 0 <= i < ready@.len() ==> !#[trigger] ready@[i]),
        match r {
            Ok((t, rest)) => exists|i: int|
                0 <= i < tokens@.len() && #[trigger] ready@[i] && t == tokens@[i] && rest@
                    == tokens@.remove(i),
            Err(same) => same@ == tokens@,
        },
{
    match choose_ready(ready) {
        Some(i) => {
            let mut rest = tokens;
            let t = rest.remove(i);
            assert(ready@[i as int]);
            Ok((t, rest))
        },
        None => Err(tokens),
    }
}

/// Polls every token, then carries out exactly one of the ready ones,
/// chosen at random, and returns the others in their order. Where none is
/// ready, nothing is carried out and `tokens` comes back unchanged as the
/// error: the caller waits for progress and selects again.
pub fn select<S: Selectable>(tokens: Vec<S>) -> (r: Result<Vec<S>, Vec<S>>)
    ensures
        match r {
            Ok(rest) => rest@.len() == tokens@.len() - 1 && exists|i: int|
                0 <= i < tokens@.len() && rest@ == tokens@.remove(i),
            Err(same) => same@ == tokens@,
        },
{
    let mut ready: Vec<bool> = Vec::new();
    let mut i: usize = 0;
    while i < tokens.len()
        invariant
            i <= tokens@.len(),
            ready@.len() == i,
        decreases tokens@.len() - i,
    {
        ready.push(tokens[i].is_ready());
        i = i + 1;
    }
    match select_ready(tokens, &ready) {
        Ok((t, rest)) => {
            t.commit();
            Ok(rest)
        },
        Err(same) => Err(same),
    }
}

/// `idx` picks out `r` from `s`: the positions of the items of `r` in
/// `s`, rising.
pub open spec fn order_witness<S>(idx: Seq<int>, r: Seq<S>, s: Seq<S>) -> bool {
    &&& idx.len() == r.len()
    &&& forall|k: int| 0 <= k < idx.len() ==> 0 <= #[trigger] idx[k] < s.len() && r[k] == s[idx[k]]
    &&& forall|j: int, k: int| 0 <= j < k < idx.len() ==> idx[j] < idx[k]
}

/// `r` is `s` with some items left out, the others in their order.
pub open spec fn is_subsequence<S>(r: Seq<S>, s: Seq<S>) -> bool {
    exists|idx: Seq<int>| order_witness(idx, r, s)
}

/// Selects repeatedly until every token has been carried out or none of
/// those left is ready, and returns those left, in their order: empty
/// where all were carried out. It does not wait: where none is ready it
/// returns at once, and the caller waits for progress and runs again.
pub fn run<S: Selectable>(tokens: Vec<S>) -> (r: Vec<S>)
    ensures
        r@.len() <= tokens@.len(),
        is_subsequence(r@, tokens@),
{
    let mut left = tokens;
    proof {
        let idx = Seq::new(tokens@.len(), |k: int| k);
        assert(order_witness(idx, left@, tokens@));
    }
    loop
        invariant
            left@.len() <= tokens@.len(),
            is_subsequence(left@, tokens@),
        decreases left@.len(),
    {
        if left.len() == 0 {
            return left;
        }
        let ghost before = left@;
        match select(left) {
            Ok(rest) => {
                proof {
                    let i = choose|i: int| 0 <= i < before.len() && rest@ == before.remove(i);
                    let idx = choose|idx: Seq<int>| order_witness(idx, before, tokens@);
                    let idx2 = idx.remove(i);
                    assert forall|k: int| 0 <= k < idx2.len() implies 0 <= #[trigger] idx2[k]
                        < tokens@.len() && rest@[k] == tokens@[idx2[k]] by {
                        if k < i {
                            assert(idx2[k] == idx[k]);
                            assert(rest@[k] == before[k]);
                        } else {
                            assert(idx2[k] == idx[k + 1]);
                            assert(rest@[k] == before[k + 1]);
                        }
                    }
                    assert forall|j: int, k: int| 0 <= j < k < idx2.len() implies idx2[j]
                        < idx2[k] by {
                        let j1 = if j < i { j } else { j + 1 };
                        let k1 = if k < i { k } else { k + 1 };
                        assert(idx2[j] == idx[j1]);
                        assert(idx2[k] == idx[k1]);
                    }
                    assert(order_witness(idx2, rest@, tokens@));
                }
                left = rest;
            },
            Err(same) => {
                return same;
            },
        }
    }
}

} // verus!
