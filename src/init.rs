use vstd::prelude::*;

verus! {

/// The descriptor of the listening socket that a process inherits.
pub const LISTENER_FD: i32 = 3;

/// The descriptor of the argument that a spawned process inherits.
pub const ARG_FD: i32 = 4;

/// How the bridge writes its event log.
#[derive(Clone, Copy, Debug, PartialEq, Eq, Structural)]
pub enum Format {
    Human,
    Json,
}

/// What a process does when `init` is called.
#[derive(Clone, Copy, Debug, PartialEq, Eq, Structural)]
pub enum InitRole {
    /// Print the version and exit.
    Version,
    /// Report the declared resources and exit.
    Recce,
    /// The first process of a tree on this machine: start a bridge, then
    /// return to `main`.
    NativeRoot,
    /// A process spawned on this machine: run the closure that came with it.
    NativeSubprocess,
    /// A process placed by a scheduler.
    Deployed,
}

/// A flag: `"0"` or `"1"`.
pub fn parse_flag(value: &str) -> (r: Result<bool, ()>)
    ensures
        value@ == seq!['0'] ==> r == Ok::<bool, ()>(false),
        value@ == seq!['1'] ==> r == Ok::<bool, ()>(true),
        value@ != seq!['0'] && value@ != seq!['1'] ==> r is Err,
{
    if value.unicode_len() != 1 {
        assert(value@.len() != 1);
        return Err(());
    }
    let c = value.get_char(0);
    if c == '0' {
        assert(value@ =~= seq!['0']);
        Ok(false)
    } else if c == '1' {
        assert(value@ =~= seq!['1']);
        Ok(true)
    } else {
        assert(value@[0] == c);
        Err(())
    }
}

fn chars_equal(value: &str, expected: &str) -> (r: bool)
    ensures
        r == (value@ == expected@),
{
    let n = value.unicode_len();
    if n != expected.unicode_len() {
        return false;
    }
    let mut i: usize = 0;
    while i < n
        invariant
            i <= n,
            n == value@.len(),
            n == expected@.len(),
            forall|k: int| 0 <= k < i ==> value@[k] == expected@[k],
        decreases n - i,
    {
        if value.get_char(i) != expected.get_char(i) {
            return false;
        }
        i = i + 1;
    }
    assert(value@ =~= expected@);
    true
}

/// An output format: `"human"` or `"json"`.
pub fn parse_format(value: &str) -> (r: Result<Format, ()>)
    ensures
        value@ == "human"@ ==> r == Ok::<Format, ()>(Format::Human),
        value@ == "json"@ ==> r == Ok::<Format, ()>(Format::Json),
        value@ != "human"@ && value@ != "json"@ ==> r is Err,
{
    proof {
        reveal_strlit("human");
        reveal_strlit("json");
        assert("human"@.len() != "json"@.len());
    }
    if chars_equal(value, "human") {
        Ok(Format::Human)
    } else if chars_equal(value, "json") {
        Ok(Format::Json)
    } else {
        Err(())
    }
}

/// Whether the deploy setting asks for scheduler placement: `"fabric"`.
pub fn parse_deploy(value: &str) -> (r: Result<bool, ()>)
    ensures
        value@ == "fabric"@ ==> r == Ok::<bool, ()>(true),
        value@ != "fabric"@ ==> r is Err,
{
    if chars_equal(value, "fabric") {
        Ok(true)
    } else {
        Err(())
    }
}

/// The role of a process, from its settings: whether it is to print its
/// version, to report its resources, whether it was placed by a
/// scheduler, and whether it was spawned. Asking for both the version and
/// the resources is an error.
pub fn init_role(version: bool, recce: bool, deployed: bool, spawned: bool) -> (r: Result<
    InitRole,
    (),
>)
    ensures
        version && recce ==> r is Err,
        version && !recce ==> r == Ok::<InitRole, ()>(InitRole::Version),
        !version && recce ==> r == Ok::<InitRole, ()>(InitRole::Recce),
        !version && !recce && deployed ==> r == Ok::<InitRole, ()>(InitRole::Deployed),
        !version && !recce && !deployed && spawned ==> r == Ok::<InitRole, ()>(
            InitRole::NativeSubprocess,
        ),
        !version && !recce && !deployed && !spawned ==> r == Ok::<InitRole, ()>(
            InitRole::NativeRoot,
        ),
{
    if version && recce {
        Err(())
    } else if version {
        Ok(InitRole::Version)
    } else if recce {
        Ok(InitRole::Recce)
    } else if deployed {
        Ok(InitRole::Deployed)
    } else if spawned {
        Ok(InitRole::NativeSubprocess)
    } else {
        Ok(InitRole::NativeRoot)
    }
}

/// Whether a freshly forked child closes descriptor `fd` before it runs the
/// program again: it keeps the standard streams, the new listener, the
/// argument, and, under valgrind, the descriptors from `valgrind_start` on.
pub fn closes_in_child(fd: i32, listener: i32, arg: i32, valgrind_start: Option<i32>) -> (r: bool)
    ensures
        r == (fd >= 3 && fd != listener && fd != arg && match valgrind_start {
            Some(v) => fd < v,
            None => true,
        }),
{
    fd >= 3 && fd != listener && fd != arg && match valgrind_start {
        Some(v) => fd < v,
        None => true,
    }
}

} // verus!
