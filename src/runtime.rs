use crate::endpoint::{register_outcome, Direction, EndpointError, Endpoints};
use crate::pid::Pid;
use vstd::prelude::*;

verus! {

/// The memory and processor time that a process asks for.
#[derive(Clone, Copy, Debug, PartialEq, Eq, Structural, Hash)]
pub struct Resources {
    /// Bytes of memory.
    pub mem: u64,
    /// Processor cores, in thousandths of a core.
    pub cpu: u32,
}

/// What a process knows of itself once `init` has run.
pub struct Runtime {
    pid: Pid,
    bridge: Pid,
    deployed: bool,
    resources: Resources,
    endpoints: Endpoints,
}

impl Runtime {
    pub closed spec fn spec_pid(&self) -> Pid {
        self.pid
    }

    pub closed spec fn spec_bridge(&self) -> Pid {
        self.bridge
    }

    pub closed spec fn spec_deployed(&self) -> bool {
        self.deployed
    }

    pub closed spec fn spec_resources(&self) -> Resources {
        self.resources
    }

    /// The live channel endpoints, by remote and direction.
    pub closed spec fn live(&self) -> Set<(Pid, Direction)> {
        self.endpoints.live()
    }

    pub closed spec fn wf(&self) -> bool {
        self.endpoints.wf() && self.endpoints.local() == self.pid
    }

    pub fn new(pid: Pid, bridge: Pid, deployed: bool, resources: Resources) -> (r: Runtime)
        ensures
            r.wf(),
            r.spec_pid() == pid,
            r.spec_bridge() == bridge,
            r.spec_deployed() == deployed,
            r.spec_resources() == resources,
            r.live() == Set::<(Pid, Direction)>::empty(),
    {
        Runtime { pid, bridge, deployed, resources, endpoints: Endpoints::new(pid) }
    }

    /// This process.
    pub fn pid(&self) -> (r: Pid)
        ensures
            r == self.spec_pid(),
    {
        self.pid
    }

    /// The bridge of the tree.
    pub fn bridge(&self) -> (r: Pid)
        ensures
            r == self.spec_bridge(),
    {
        self.bridge
    }

    /// Whether a scheduler placed this process.
    pub fn deployed(&self) -> (r: bool)
        ensures
            r == self.spec_deployed(),
    {
        self.deployed
    }

    /// Checks that an endpoint of `dir` to `remote` may be made, and makes
    /// it live: a channel to this process itself, and a second live
    /// endpoint of one direction to one remote, are refused.
    pub fn open_endpoint(&mut self, remote: Pid, dir: Direction) -> (r: Result<(), EndpointError>)
        requires
            old(self).wf(),
        ensures
            final(self).wf(),
            final(self).spec_pid() == old(self).spec_pid(),
            final(self).spec_bridge() == old(self).spec_bridge(),
            final(self).spec_deployed() == old(self).spec_deployed(),
            final(self).spec_resources() == old(self).spec_resources(),
            match register_outcome(old(self).spec_pid(), old(self).live(), remote, dir) {
                Ok(live) => r is Ok && final(self).live() == live,
                Err(e) => r == Err::<(), EndpointError>(e) && final(self).live() == old(
                    self,
                ).live(),
            },
    {
        self.endpoints.register(remote, dir)
    }

    /// Ends the endpoint of `dir` to `remote`.
    pub fn close_endpoint(&mut self, remote: Pid, dir: Direction)
        requires
            old(self).wf(),
        ensures
            final(self).wf(),
            final(self).spec_pid() == old(self).spec_pid(),
            final(self).spec_bridge() == old(self).spec_bridge(),
            final(self).spec_deployed() == old(self).spec_deployed(),
            final(self).spec_resources() == old(self).spec_resources(),
            final(self).live() == old(self).live().remove((remote, dir)),
    {
        self.endpoints.unregister(remote, dir)
    }
}

/// The resources that this process was started with.
pub fn resources(runtime: &Runtime) -> (r: Resources)
    ensures
        r == runtime.spec_resources(),
{
    runtime.resources
}

} // verus!
