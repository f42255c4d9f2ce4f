//! The shape of the persisted configuration: an ordered mapping from an
//! alias to the command saved under it. Reading and writing the file, and
//! its on-disk format, belong to the surrounding program; the library only
//! fixes the shape the two sides exchange.

use vstd::prelude::*;

verus! {

/// One saved command: the executable, an optional unsplit argument
/// string, and an optional working directory.
#[derive(Debug, Clone, PartialEq, Eq)]
pub struct CommandEntry {
    /// Name of the executable.
    pub command: String,
    /// The arguments as one string, to be split by shell rules.
    pub args: Option<String>,
    /// Directory to run in, when given.
    pub working_dir: Option<String>,
}

/// The saved commands, each alias paired with its entry, in file order.
/// An alias appears at most once: the file is a mapping.
#[derive(Debug, PartialEq, Eq)]
pub struct Commands {
    commands: Vec<(String, CommandEntry)>,
}

/// Whether the aliases of `pairs` are pairwise distinct.
pub open spec fn distinct_aliases(pairs: Seq<(String, CommandEntry)>) -> bool {
    forall|i: int, j: int|
        #![trigger pairs[i], pairs[j]]
        0 <= i < j < pairs.len() ==> pairs[i].0@ != pairs[j].0@
}

impl Commands {
    /// The alias-entry pairs, in order.
    pub closed spec fn entries_spec(&self) -> Seq<(String, CommandEntry)> {
        self.commands@
    }

    /// The invariant: no alias is saved twice.
    pub open spec fn wf(&self) -> bool {
        distinct_aliases(self.entries_spec())
    }

    /// Commands from alias-entry pairs, kept in the given order. The
    /// pairs must form a mapping: one entry per alias.
    pub fn new(commands: Vec<(String, CommandEntry)>) -> (r: Self)
        requires
            distinct_aliases(commands@),
        ensures
            r.entries_spec() == commands@,
            r.wf(),
    {
        Commands { commands }
    }

    /// Hand the alias-entry pairs out, in order; each alias appears at
    /// most once.
    pub fn into_iter(self) -> (r: Vec<(String, CommandEntry)>)
        ensures
            r@ == self.entries_spec(),
            self.wf() ==> distinct_aliases(r@),
    {
        self.commands
    }
}

} // verus!
