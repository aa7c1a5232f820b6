use crate::exit::{combine, combine_all, lemma_tree_success_iff_all_success, ExitStatus};
use crate::pid::Pid;
use vstd::prelude::*;

verus! {

/// What a process's monitor reports to the bridge.
#[derive(Clone, Debug, PartialEq, Eq)]
pub enum ProcessOutputEvent {
    /// The process spawned a child with this pid.
    Spawn(Pid),
    /// The process wrote these bytes to this descriptor; none at its end.
    Output(i32, Vec<u8>),
    /// The process exited.
    Exit(ExitStatus),
}

/// What the bridge sends to a process's monitor.
#[derive(Clone, Debug, PartialEq, Eq)]
pub enum ProcessInputEvent {
    /// Bytes for this descriptor of the process; none to close it.
    Input(i32, Vec<u8>),
    /// Kill the process.
    Kill,
}

/// One entry of the bridge's event log.
#[derive(Clone, Debug, PartialEq, Eq)]
pub enum DeployOutputEvent {
    /// The first process spawned the second.
    Spawn(Pid, Pid),
    /// The process wrote these bytes to this descriptor.
    Output(Pid, i32, Vec<u8>),
    /// The process exited.
    Exit(Pid, ExitStatus),
}

/// The root supervisor's state: the processes still running, in the order
/// in which they became known, and the status of the tree so far.
pub struct Bridge {
    processes: Vec<Pid>,
    status: ExitStatus,
    exits: Ghost<Seq<ExitStatus>>,
}

impl Bridge {
    /// The processes still running.
    pub closed spec fn processes(&self) -> Seq<Pid> {
        self.processes@
    }

    /// The statuses of the processes that have exited, in the order seen.
    pub closed spec fn exits(&self) -> Seq<ExitStatus> {
        self.exits@
    }

    /// The status of the tree so far.
    pub closed spec fn status(&self) -> ExitStatus {
        self.status
    }

    pub closed spec fn wf(&self) -> bool {
        self.status == combine_all(self.exits@)
    }

    /// A bridge that watches the root process alone.
    pub fn new(root: Pid) -> (r: Bridge)
        ensures
            r.wf(),
            r.processes() == seq![root],
            r.exits() == Seq::<ExitStatus>::empty(),
            r.status() == ExitStatus::Success,
    {
        let mut processes: Vec<Pid> = Vec::new();
        processes.push(root);
        Bridge { processes, status: ExitStatus::Success, exits: Ghost(Seq::empty()) }
    }

    /// The number of processes still running.
    pub fn len(&self) -> (r: usize)
        ensures
            r == self.processes().len(),
    {
        self.processes.len()
    }

    /// The pid of the process at `i`.
    pub fn process(&self, i: usize) -> (r: Pid)
        requires
            i < self.processes().len(),
        ensures
            r == self.processes()[i as int],
    {
        self.processes[i]
    }

    /// Whether every process has exited.
    pub fn is_done(&self) -> (r: bool)
        ensures
            r == (self.processes().len() == 0),
    {
        self.processes.len() == 0
    }

    /// The status of the tree so far: that of the whole tree once done.
    pub fn exit_status(&self) -> (r: ExitStatus)
        ensures
            r == self.status(),
    {
        self.status
    }

    /// Takes in `event`, which the process at `i` reported, and returns the
    /// entry that it makes in the log. A spawn adds the child to the end of
    /// the processes; an exit removes the process and folds its status into
    /// that of the tree.
    pub fn handle(&mut self, i: usize, event: ProcessOutputEvent) -> (r: DeployOutputEvent)
        requires
            old(self).wf(),
            i < old(self).processes().len(),
        ensures
            final(self).wf(),
            ({
                let pid = old(self).processes()[i as int];
                match event {
                    ProcessOutputEvent::Spawn(child) => r == DeployOutputEvent::Spawn(pid, child)
                        && final(self).processes() == old(self).processes().push(child)
                        && final(self).exits() == old(self).exits() && final(self).status()
                        == old(self).status(),
                    ProcessOutputEvent::Output(fd, bytes) => r == DeployOutputEvent::Output(
                        pid,
                        fd,
                        bytes,
                    ) && final(self).processes() == old(self).processes() && final(self).exits()
                        == old(self).exits() && final(self).status() == old(self).status(),
                    ProcessOutputEvent::Exit(code) => r == DeployOutputEvent::Exit(pid, code)
                        && final(self).processes() == old(self).processes().remove(i as int)
                        && final(self).exits() == old(self).exits().push(code)
                        && final(self).status() == combine(old(self).status(), code),
                }
            }),
    {
        let pid = self.processes[i];
        match event {
            ProcessOutputEvent::Spawn(child) => {
                self.processes.push(child);
                DeployOutputEvent::Spawn(pid, child)
            },
            ProcessOutputEvent::Output(fd, bytes) => DeployOutputEvent::Output(pid, fd, bytes),
            ProcessOutputEvent::Exit(code) => {
                self.status.add_assign(code);
                let ghost prev = self.exits@;
                self.exits = Ghost(prev.push(code));
                assert(self.exits@.drop_last() =~= prev);
                let _ = self.processes.remove(i);
                DeployOutputEvent::Exit(pid, code)
            },
        }
    }
}

/// The tree's status is success exactly when every process that exited
/// succeeded.
pub proof fn lemma_bridge_success_iff_all_success(b: Bridge)
    requires
        b.wf(),
    ensures
        (b.status() == ExitStatus::Success) <==> (forall|i: int|
            0 <= i < b.exits().len() ==> #[trigger] b.exits()[i] == ExitStatus::Success),
{
    lemma_tree_success_iff_all_success(b.exits());
}

} // verus!
