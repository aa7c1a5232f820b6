use crate::pid::Pid;
use vstd::prelude::*;

verus! {

/// Which half of a channel an endpoint is.
#[derive(Clone, Copy, Debug, PartialEq, Eq, Structural, Hash)]
pub enum Direction {
    Send,
    Recv,
}

/// Why an endpoint could not be made.
#[derive(Clone, Copy, Debug, PartialEq, Eq, Structural)]
pub enum EndpointError {
    /// The remote is the process itself.
    SelfChannel,
    /// An endpoint of this direction to the remote is still live.
    Duplicate,
}

/// What registering an endpoint to `remote` does to the set of live ones.
pub open spec fn register_outcome(
    local: Pid,
    live: Set<(Pid, Direction)>,
    remote: Pid,
    dir: Direction,
) -> Result<Set<(Pid, Direction)>, EndpointError> {
    if remote == local {
        Err(EndpointError::SelfChannel)
    } else if live.contains((remote, dir)) {
        Err(EndpointError::Duplicate)
    } else {
        Ok(live.insert((remote, dir)))
    }
}

/// The live endpoints of one process: at most one of each direction for
/// each remote process.
pub struct Endpoints {
    local: Pid,
    live: Vec<(Pid, Direction)>,
}

impl Endpoints {
    pub closed spec fn local(&self) -> Pid {
        self.local
    }

    /// The live endpoints, by remote and direction.
    pub closed spec fn live(&self) -> Set<(Pid, Direction)> {
        self.live@.to_set()
    }

    pub closed spec fn wf(&self) -> bool {
        self.live@.no_duplicates()
    }

    /// No endpoint of the process `local` is live.
    pub fn new(local: Pid) -> (r: Endpoints)
        ensures
            r.wf(),
            r.local() == local,
            r.live() == Set::<(Pid, Direction)>::empty(),
    {
        let r = Endpoints { local, live: Vec::new() };
        assert(r.live@.to_set() =~= Set::empty());
        r
    }

    fn position(&self, remote: Pid, dir: Direction) -> (r: Option<usize>)
        ensures
            match r {
                Some(i) => i < self.live@.len() && self.live@[i as int] == (remote, dir),
                None => !self.live@.contains((remote, dir)),
            },
    {
        let mut i: usize = 0;
        while i < self.live.len()
            invariant
                i <= self.live@.len(),
                forall|k: int| 0 <= k < i ==> #[trigger] self.live@[k] != (remote, dir),
            decreases self.live@.len() - i,
        {
            let (p, d) = self.live[i];
            if p == remote && d == dir {
                return Some(i);
            }
            i = i + 1;
        }
        None
    }

    /// Whether an endpoint of `dir` to `remote` is live.
    pub fn is_live(&self, remote: Pid, dir: Direction) -> (r: bool)
        ensures
            r == self.live().contains((remote, dir)),
    {
        self.position(remote, dir).is_some()
    }

    /// Makes an endpoint of `dir` to `remote` live. A channel to the process
    /// itself, and a second live endpoint of one direction to one remote,
    /// are refused and change nothing.
    pub fn register(&mut self, remote: Pid, dir: Direction) -> (r: Result<(), EndpointError>)
        requires
            old(self).wf(),
        ensures
            final(self).wf(),
            final(self).local() == old(self).local(),
            match register_outcome(old(self).local(), old(self).live(), remote, dir) {
                Ok(live) => r is Ok && final(self).live() == live,
                Err(e) => r == Err::<(), EndpointError>(e) && final(self).live() == old(
                    self,
                ).live(),
            },
    {
        if remote == self.local {
            return Err(EndpointError::SelfChannel);
        }
        if self.position(remote, dir).is_some() {
            return Err(EndpointError::Duplicate);
        }
        let ghost before = self.live@;
        self.live.push((remote, dir));
        proof {
            assert(self.live@ =~= before.push((remote, dir)));
            assert forall|a: int, b: int|
                0 <= a < self.live@.len() && 0 <= b < self.live@.len() && a != b implies self.live@[a]
                != self.live@[b] by {
                if a < before.len() && b < before.len() {
                } else if a < before.len() {
                    assert(before.contains(before[a]));
                } else {
                    assert(before.contains(before[b]));
                }
            }
            assert forall|x: (Pid, Direction)|
                self.live@.contains(x) <==> before.to_set().insert((remote, dir)).contains(x) by {
                if self.live@.contains(x) {
                    let a = choose|a: int| 0 <= a < self.live@.len() && self.live@[a] == x;
                    if a < before.len() {
                        assert(before[a] == x);
                    }
                }
                if before.contains(x) {
                    let a = choose|a: int| 0 <= a < before.len() && before[a] == x;
                    assert(self.live@[a] == x);
                }
                if x == (remote, dir) {
                    assert(self.live@[before.len() as int] == x);
                }
            }
            assert(self.live@.to_set() =~= before.to_set().insert((remote, dir)));
        }
        Ok(())
    }

    /// Ends the endpoint of `dir` to `remote`, where one is live.
    pub fn unregister(&mut self, remote: Pid, dir: Direction)
        requires
            old(self).wf(),
        ensures
            final(self).wf(),
            final(self).local() == old(self).local(),
            final(self).live() == old(self).live().remove((remote, dir)),
    {
        match self.position(remote, dir) {
            None => {
                assert(self.live@.to_set() =~= self.live@.to_set().remove((remote, dir)));
            },
            Some(i) => {
                let ghost before = self.live@;
                let _ = self.live.remove(i);
                proof {
                    let after = self.live@;
                    assert(after =~= before.remove(i as int));
                    assert forall|a: int, b: int|
                        0 <= a < after.len() && 0 <= b < after.len() && a != b implies after[a]
                        != after[b] by {
                        let a1 = if a < i { a } else { a + 1 };
                        let b1 = if b < i { b } else { b + 1 };
                        assert(after[a] == before[a1]);
                        assert(after[b] == before[b1]);
                    }
                    assert forall|x: (Pid, Direction)|
                        after.to_set().contains(x) <==> before.to_set().remove(
                            (remote, dir),
                        ).contains(x) by {
                        if after.contains(x) {
                            let a = choose|a: int| 0 <= a < after.len() && after[a] == x;
                            let a1 = if a < i { a } else { a + 1 };
                            assert(before[a1] == x);
                            assert(a1 != i);
                        }
                        if before.contains(x) && x != (remote, dir) {
                            let a = choose|a: int| 0 <= a < before.len() && before[a] == x;
                            assert(a != i);
                            if a < i {
                                assert(after[a] == x);
                            } else {
                                assert(after[a - 1] == x);
                            }
                        }
                    }
                    assert(after.to_set() =~= before.to_set().remove((remote, dir)));
                }
            },
        }
    }
}

/// A channel from a process to itself is refused.
pub proof fn lemma_self_channel_refused(local: Pid, live: Set<(Pid, Direction)>, dir: Direction)
    ensures
        register_outcome(local, live, local, dir) == Err::<Set<(Pid, Direction)>, EndpointError>(
            EndpointError::SelfChannel,
        ),
{
}

/// While an endpoint lives, a second one of its direction to its remote is
/// refused.
pub proof fn lemma_second_endpoint_refused(
    local: Pid,
    live: Set<(Pid, Direction)>,
    remote: Pid,
    dir: Direction,
)
    requires
        register_outcome(local, live, remote, dir) is Ok,
    ensures
        ({
            let after = register_outcome(local, live, remote, dir)->Ok_0;
            register_outcome(local, after, remote, dir) == Err::<
                Set<(Pid, Direction)>,
                EndpointError,
            >(EndpointError::Duplicate)
        }),
{
}

} // verus!
