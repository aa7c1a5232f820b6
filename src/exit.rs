use vstd::prelude::*;

verus! {

/// Why a process did not succeed: a non-zero exit code, or the signal that
/// terminated it.
#[derive(Clone, Copy, Debug, PartialEq, Eq, Structural)]
pub enum ExitStatusError {
    Status(u8),
    Signal(i32),
}

/// The exit status of one process, or of a whole tree of processes.
#[derive(Clone, Copy, Debug, PartialEq, Eq, Structural)]
pub enum ExitStatus {
    Success,
    Error(ExitStatusError),
}

/// Combining two statuses: success is neutral, the first error wins.
pub open spec fn combine(a: ExitStatus, b: ExitStatus) -> ExitStatus {
    match a {
        ExitStatus::Success => b,
        ExitStatus::Error(_) => a,
    }
}

/// The status of a tree whose processes exited with `s`, in that order.
pub open spec fn combine_all(s: Seq<ExitStatus>) -> ExitStatus
    decreases s.len(),
{
    if s.len() == 0 {
        ExitStatus::Success
    } else {
        combine(combine_all(s.drop_last()), s.last())
    }
}

impl ExitStatus {
    /// The status of a process that exited with `code`.
    pub fn from_unix_status(code: u8) -> (r: ExitStatus)
        ensures
            code == 0 ==> r == ExitStatus::Success,
            code != 0 ==> r == ExitStatus::Error(ExitStatusError::Status(code)),
    {
        if code == 0 {
            ExitStatus::Success
        } else {
            ExitStatus::Error(ExitStatusError::Status(code))
        }
    }

    /// The status of a process that a signal terminated.
    pub fn from_unix_signal(signal: i32) -> (r: ExitStatus)
        ensures
            r == ExitStatus::Error(ExitStatusError::Signal(signal)),
    {
        ExitStatus::Error(ExitStatusError::Signal(signal))
    }

    pub fn is_success(&self) -> (r: bool)
        ensures
            r == (*self == ExitStatus::Success),
    {
        match self {
            ExitStatus::Success => true,
            ExitStatus::Error(_) => false,
        }
    }

    /// Folds `other` into `self`.
    pub fn add_assign(&mut self, other: ExitStatus)
        ensures
            *final(self) == combine(*old(self), other),
    {
        if let ExitStatus::Success = *self {
            *self = other;
        }
    }
}

/// Success is neutral on both sides.
pub proof fn lemma_combine_identity(a: ExitStatus)
    ensures
        combine(ExitStatus::Success, a) == a,
        combine(a, ExitStatus::Success) == a,
{
}

/// Combining is associative.
pub proof fn lemma_combine_associative(a: ExitStatus, b: ExitStatus, c: ExitStatus)
    ensures
        combine(combine(a, b), c) == combine(a, combine(b, c)),
{
}

/// A tree succeeds exactly when every one of its processes succeeded.
pub proof fn lemma_tree_success_iff_all_success(s: Seq<ExitStatus>)
    ensures
        (combine_all(s) == ExitStatus::Success) <==> (forall|i: int|
            0 <= i < s.len() ==> #[trigger] s[i] == ExitStatus::Success),
    decreases s.len(),
{
    if s.len() > 0 {
        let t = s.drop_last();
        lemma_tree_success_iff_all_success(t);
        if combine_all(s) == ExitStatus::Success {
            assert forall|i: int| 0 <= i < s.len() implies #[trigger] s[i] == ExitStatus::Success by {
                if i < s.len() - 1 {
                    assert(s[i] == t[i]);
                }
            }
        }
        if forall|i: int| 0 <= i < s.len() ==> #[trigger] s[i] == ExitStatus::Success {
            assert forall|i: int| 0 <= i < t.len() implies #[trigger] t[i] == ExitStatus::Success by {
                assert(s[i] == t[i]);
            }
            assert(s[s.len() - 1] == ExitStatus::Success);
        }
    }
}

/// Where some process failed, the tree's status is the first failure.
pub proof fn lemma_tree_status_is_first_error(s: Seq<ExitStatus>, j: int)
    requires
        0 <= j < s.len(),
        s[j] != ExitStatus::Success,
        forall|i: int| 0 <= i < j ==> #[trigger] s[i] == ExitStatus::Success,
    ensures
        combine_all(s) == s[j],
    decreases s.len(),
{
    let t = s.drop_last();
    if j < s.len() - 1 {
        assert forall|i: int| 0 <= i < j implies #[trigger] t[i] == ExitStatus::Success by {
            assert(s[i] == t[i]);
        }
        lemma_tree_status_is_first_error(t, j);
    } else {
        lemma_tree_success_iff_all_success(t);
        assert forall|i: int| 0 <= i < t.len() implies #[trigger] t[i] == ExitStatus::Success by {
            assert(s[i] == t[i]);
        }
    }
}

} // verus!
