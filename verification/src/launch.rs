//! How a script is started.
use vstd::prelude::*;

use crate::path::FilePath;
use crate::settings::pairs;

verus! {

/// Where a stream of a process comes from or goes to.
#[derive(Clone, Copy, Debug, PartialEq, Eq, Structural)]
pub enum Stream {
    /// `/dev/null`.
    Null,
    /// The stream of the same name of this program.
    Inherited,
    /// The log of the job, which its plan names.
    Log,
}

/// A process that is to be started.
pub struct Launch {
    /// The program, which is looked up on the search path.
    pub program: &'static str,
    /// The program's arguments: a script and what the script is given.
    pub args: Vec<FilePath>,
    /// Environment variables, set in this order.
    pub envs: Vec<(String, String)>,
    pub stdin: Stream,
    pub stdout: Stream,
    pub stderr: Stream,
    /// Whether the process leads a process group of its own, so that a signal to the group does
    /// not reach this program.
    pub own_group: bool,
}

/// What a `Launch` holds.
#[verifier::ext_equal]
pub struct LaunchView {
    pub program: Seq<char>,
    pub args: Seq<Seq<u8>>,
    pub envs: Seq<(Seq<char>, Seq<char>)>,
    pub stdin: Stream,
    pub stdout: Stream,
    pub stderr: Stream,
    pub own_group: bool,
}

/// What a list of paths holds.
pub open spec fn paths(v: Seq<FilePath>) -> Seq<Seq<u8>> {
    Seq::new(v.len(), |i: int| v[i]@)
}

impl View for Launch {
    type V = LaunchView;

    open spec fn view(&self) -> LaunchView {
        LaunchView {
            program: self.program@,
            args: paths(self.args@),
            envs: pairs(self.envs@),
            stdin: self.stdin,
            stdout: self.stdout,
            stderr: self.stderr,
            own_group: self.own_group,
        }
    }
}

/// Adds an argument.
pub(crate) fn push_arg(args: &mut Vec<FilePath>, arg: FilePath)
    ensures
        paths(final(args)@) == paths(old(args)@).push(arg@),
{
    let ghost after = paths(args@).push(arg@);
    args.push(arg);
    assert(paths(args@) =~= after);
}

} // verus!
