//! The application's entry list and its lifecycle logic: what the editor
//! state does, how an entry's run-state advances on each supervisor
//! response, and how a start or kill click turns into a request. The
//! rendering of all this is left to the surrounding program; everything
//! that decides is here, verified.

use vstd::prelude::*;

use crate::model::{OsError, ProgramId, ProgramIdGen, RunCommand, RunResponse};
use crate::persist::{CommandEntry, Commands};

verus! {

/// What the words of a command line are under POSIX shell splitting, or
/// nothing when the line is malformed. Named only; the splitter itself is
/// the outside library's.
pub uninterp spec fn split_words(s: Seq<char>) -> Option<Seq<Seq<char>>>;

/// Relies on shell_words::split: splitting a command line into words by
/// POSIX shell rules depends on the string alone, errors exactly on an
/// unmatched quote, and yields no words for an empty line.
#[verifier::external_body]
fn split_args(s: &str) -> (r: Option<Vec<String>>)
    ensures
        r is Some <==> split_words(s@) is Some,
        split_words(s@) is Some ==> r is Some && r.unwrap().deep_view() == split_words(s@).unwrap(),
        s@.len() == 0 ==> r is Some && r.unwrap()@.len() == 0,
{
    match shell_words::split(s) {
        Ok(words) => Some(words),
        Err(_) => None,
    }
}

/// The decimal rendering of an error code. Named only; the rendering is
/// the standard formatter's.
pub uninterp spec fn decimal_of(code: i32) -> Seq<char>;

/// The text recorded for an operating-system error: a fixed prefix, then
/// the code's decimal rendering.
pub open spec fn error_text_of(code: i32) -> Seq<char> {
    "os error "@ + decimal_of(code)
}

/// Relies on core's decimal formatting of `i32` through `format!`:
/// deterministic, locale-free, a function of the code alone. The prefix
/// is this library's and is pinned by the contract.
#[verifier::external_body]
fn os_error_text(code: i32) -> (r: String)
    ensures
        r@ == "os error "@ + decimal_of(code),
{
    format!("os error {}", code)
}

/// What the operator is editing: a new entry, an existing entry by its
/// position, or nothing.
#[derive(Debug, Clone, PartialEq, Eq)]
pub enum EditState<T> {
    /// A new entry being filled in.
    New(T),
    /// The entry at this position being changed.
    Edit(usize, T),
    /// No editing under way.
    Idle,
}

impl<T> EditState<T> {
    /// Apply `f` to the edited value, keeping the editing position.
    pub fn map<U, F: Fn(&T) -> U>(&self, f: F) -> (r: EditState<U>)
        requires
            forall|t: &T| #[trigger] f.requires((t,)),
        ensures
            (*self matches EditState::New(t) ==> r matches EditState::New(u) && f.ensures(
                (&t,),
                u,
            )),
            (*self matches EditState::Edit(i, t) ==> r matches EditState::Edit(j, u) && i == j
                && f.ensures((&t,), u)),
            (*self is Idle ==> r is Idle),
    {
        match self {
            EditState::New(t) => EditState::New(f(t)),
            EditState::Edit(i, t) => EditState::Edit(*i, f(t)),
            EditState::Idle => EditState::Idle,
        }
    }

    /// Replace the edited value with `v`, keeping the editing position.
    pub fn map_to<U>(&self, v: U) -> (r: EditState<U>)
        ensures
            (*self is New ==> r == EditState::<U>::New(v)),
            (*self matches EditState::Edit(i, _) ==> r == EditState::<U>::Edit(i, v)),
            (*self is Idle ==> r is Idle),
    {
        match self {
            EditState::New(_) => EditState::New(v),
            EditState::Edit(i, _) => EditState::Edit(*i, v),
            EditState::Idle => EditState::Idle,
        }
    }

    /// Take the editing state out, leaving none under way.
    pub fn take(&mut self) -> (r: Self)
        ensures
            r == *old(self),
            *final(self) is Idle,
    {
        let mut taken = EditState::Idle;
        core::mem::swap(self, &mut taken);
        taken
    }
}

/// The run-state of one entry: idle (remembering the identifier of its
/// last run, if any), waiting for the supervisor to answer, or running
/// with the operating system's process id.
#[derive(Debug, Copy, Clone, PartialEq, Eq)]
pub enum RunState {
    /// Not running; the identifier of the last finished run, if any.
    Idle(Option<ProgramId>),
    /// A request was sent; the supervisor has not answered yet.
    Busy(ProgramId),
    /// Running, with the operating system's process id.
    Running(ProgramId, u32),
}

impl Default for RunState {
    /// A fresh entry is idle and has never run.
    fn default() -> (r: Self)
        ensures
            r == RunState::Idle(None::<ProgramId>),
    {
        RunState::Idle(None)
    }
}

impl RunState {
    /// How one supervisor response advances this state: an I/O error
    /// puts the entry back to a fresh idle; a start answers the busy
    /// entry it names; an exit idles the busy or running entry it names;
    /// everything else leaves the state alone.
    pub open spec fn spec_next(self, res: RunResponse) -> RunState {
        if res matches RunResponse::IoError(_, _) {
            RunState::Idle(None)
        } else {
            match self {
                RunState::Idle(_) => self,
                RunState::Busy(id) => match res {
                    RunResponse::Started(sid, pid) => if sid == id {
                        RunState::Running(id, pid)
                    } else {
                        self
                    },
                    RunResponse::Exited(eid, _) => if eid == id {
                        RunState::Idle(Some(id))
                    } else {
                        self
                    },
                    _ => self,
                },
                RunState::Running(id, _) => match res {
                    RunResponse::Exited(eid, _) => if eid == id {
                        RunState::Idle(Some(id))
                    } else {
                        self
                    },
                    _ => self,
                },
            }
        }
    }

    /// Advance this state by one supervisor response.
    pub fn next(self, res: &RunResponse) -> (r: Self)
        ensures
            r == self.spec_next(*res),
    {
        if let RunResponse::IoError(_, _) = *res {
            return RunState::Idle(None);
        }
        match self {
            RunState::Idle(_) => self,
            RunState::Busy(id) => match *res {
                RunResponse::Started(started_id, pid) => if id == started_id {
                    RunState::Running(id, pid)
                } else {
                    self
                },
                RunResponse::Exited(exit_id, _) => if id == exit_id {
                    RunState::Idle(Some(id))
                } else {
                    self
                },
                _ => self,
            },
            RunState::Running(id, _) => match *res {
                RunResponse::Exited(exit_id, _) => if id == exit_id {
                    RunState::Idle(Some(id))
                } else {
                    self
                },
                _ => self,
            },
        }
    }
}

/// The editable fields of one entry: the alias, the executable, the
/// argument line as one string, and an optional working directory.
#[derive(Debug, Clone, Default, PartialEq, Eq)]
pub struct EntryData {
    /// Operator-chosen name for this command.
    pub alias: String,
    /// Name of the executable.
    pub command: String,
    /// The arguments as one line, split by shell rules when run.
    pub args: String,
    /// Directory to run in, when given.
    pub working_dir: Option<String>,
}

impl EntryData {
    /// Entry fields from one saved alias-entry pair: a missing argument
    /// string becomes the empty line.
    pub fn from_entry(pair: (String, CommandEntry)) -> (r: EntryData)
        ensures
            r.alias == pair.0,
            r.command == pair.1.command,
            (pair.1.args matches Some(a) ==> r.args == a),
            (pair.1.args is None ==> r.args@ == Seq::<char>::empty()),
            r.working_dir == pair.1.working_dir,
    {
        let (alias, entry) = pair;
        let args = match entry.args {
            Some(a) => a,
            None => String::new(),
        };
        EntryData { alias, command: entry.command, args, working_dir: entry.working_dir }
    }

    /// The saved alias-entry pair for these fields: an empty argument
    /// line is saved as no argument string.
    pub fn into_entry(self) -> (r: (String, CommandEntry))
        ensures
            r.0 == self.alias,
            r.1.command == self.command,
            (self.args@.len() == 0 ==> r.1.args is None),
            (self.args@.len() > 0 ==> r.1.args == Some(self.args)),
            r.1.working_dir == self.working_dir,
    {
        let args = if self.args.as_str().is_empty() {
            None
        } else {
            Some(self.args)
        };
        (
            self.alias,
            CommandEntry { command: self.command, args, working_dir: self.working_dir },
        )
    }

    /// The run command for these fields under `id`: the argument line is
    /// split by shell rules; a malformed line is rejected with a message
    /// instead.
    pub fn make_command(&self, id: ProgramId) -> (r: Result<RunCommand, String>)
        ensures
            r is Ok <==> split_words(self.args@) is Some,
            r matches Ok(cmd) ==> cmd.id == id && cmd.alias@ == self.alias@ && cmd.name@
                == self.command@ && Some(cmd.args.deep_view()) == split_words(self.args@)
                && cmd.working_dir.deep_view() == self.working_dir.deep_view(),
            r matches Err(m) ==> m@ == "Invalid command arguments"@,
    {
        let args = match split_args(self.args.as_str()) {
            Some(words) => words,
            None => {
                return Err("Invalid command arguments".to_owned());
            },
        };
        let working_dir = match &self.working_dir {
            Some(dir) => Some(dir.clone()),
            None => None,
        };
        Ok(
            RunCommand {
                id,
                alias: self.alias.clone(),
                name: self.command.clone(),
                args,
                working_dir,
            },
        )
    }
}

/// One row of the application: its editable fields, its run-state, and
/// the message of its last failed run, if any.
#[derive(Debug, Clone, PartialEq, Eq)]
pub struct Entry {
    /// The editable fields.
    pub data: EntryData,
    /// Where this entry stands in its lifecycle.
    pub state: RunState,
    /// The message of the last failure, cleared by later responses.
    pub last_run_error: Option<String>,
}

impl Entry {
    /// A fresh entry: never run, no failure recorded.
    pub fn new(data: EntryData) -> (r: Self)
        ensures
            r.data == data,
            r.state == RunState::Idle(None::<ProgramId>),
            r.last_run_error is None,
    {
        Entry { data, state: RunState::Idle(None), last_run_error: None }
    }
}

/// The application's state: the identifier counter, the entries in
/// display order, and what is being edited.
pub struct AppData {
    /// The identifier counter; the next run gets this value.
    pub id_counter: u32,
    /// The entries, in display order.
    pub entries: Vec<Entry>,
    /// What the operator is editing right now.
    pub edit_entry: EditState<EntryData>,
}

impl ProgramIdGen for AppData {
    open spec fn counter_spec(&self) -> u32 {
        self.id_counter
    }

    fn counter(&mut self) -> (r: &mut u32) {
        &mut self.id_counter
    }
}

impl AppData {
    /// Whether `e` is the entry that the response for `id` speaks of.
    pub open spec fn entry_matches(e: Entry, id: ProgramId) -> bool {
        match e.state {
            RunState::Idle(opt) => opt matches Some(sid) && sid == id,
            RunState::Busy(sid) => sid == id,
            RunState::Running(sid, _) => sid == id,
        }
    }

    /// Whether `e` holds the fields of the saved pair and has never run.
    pub open spec fn entry_from_pair(pair: (String, CommandEntry), e: Entry) -> bool {
        &&& e.data.alias == pair.0
        &&& e.data.command == pair.1.command
        &&& (pair.1.args matches Some(a) ==> e.data.args == a)
        &&& (pair.1.args is None ==> e.data.args@ == Seq::<char>::empty())
        &&& e.data.working_dir == pair.1.working_dir
        &&& e.state == RunState::Idle(None::<ProgramId>)
        &&& e.last_run_error is None
    }

    /// An empty application: no entries, nothing edited, counter at
    /// zero.
    pub fn new() -> (r: Self)
        ensures
            r.counter_spec() == 0,
            r.entries@.len() == 0,
            r.edit_entry is Idle,
    {
        AppData { id_counter: 0, entries: Vec::new(), edit_entry: EditState::Idle }
    }

    /// The application loaded from saved commands: one never-run entry
    /// per saved pair, in saved order.
    pub fn from_commands(commands: Commands) -> (r: Self)
        ensures
            r.counter_spec() == 0,
            r.edit_entry is Idle,
            r.entries@.len() == commands.entries_spec().len(),
            forall|i: int|
                0 <= i < commands.entries_spec().len() ==> Self::entry_from_pair(
                    commands.entries_spec()[i],
                    #[trigger] r.entries@[i],
                ),
    {
        let ghost ps = commands.entries_spec();
        let mut rest = commands.into_iter();
        let mut entries: Vec<Entry> = Vec::new();
        proof {
            assert(rest@ =~= ps.skip(0));
        }
        while rest.len() > 0
            invariant
                entries@.len() + rest@.len() == ps.len(),
                rest@ == ps.skip(entries@.len() as int),
                forall|i: int|
                    0 <= i < entries@.len() ==> Self::entry_from_pair(
                        ps[i],
                        #[trigger] entries@[i],
                    ),
            decreases rest@.len(),
        {
            let ghost n = entries@.len() as int;
            let ghost s = rest@;
            let pair = rest.remove(0);
            proof {
                assert(pair == ps[n]);
                assert(s.remove(0) =~= ps.skip(n + 1));
            }
            let entry = Entry::new(EntryData::from_entry(pair));
            entries.push(entry);
        }
        AppData { id_counter: 0, entries, edit_entry: EditState::Idle }
    }

    /// Finish editing: a new entry joins the end of the list; a
    /// positional edit replaces that entry's fields, keeping its
    /// run-state, and is ignored when the position no longer exists;
    /// afterwards nothing is being edited.
    pub fn done_editing(&mut self)
        ensures
            final(self).counter_spec() == old(self).counter_spec(),
            final(self).edit_entry is Idle,
            (old(self).edit_entry is Idle ==> final(self).entries@ == old(self).entries@),
            (old(self).edit_entry matches EditState::New(d) ==> final(self).entries@ == old(self).entries@.push(
                (Entry { data: d, state: RunState::Idle(None), last_run_error: None }),
            )),
            (old(self).edit_entry matches EditState::Edit(i, d) ==> (i
                < old(self).entries@.len() ==> final(self).entries@ == old(self).entries@.update(
                i as int,
                (Entry {
                    data: d,
                    state: old(self).entries@[i as int].state,
                    last_run_error: old(self).entries@[i as int].last_run_error,
                }),
            )) && (i >= old(self).entries@.len() ==> final(self).entries@ == old(self).entries@)),
    {
        match self.edit_entry.take() {
            EditState::Idle => {},
            EditState::New(entry_data) => {
                self.entries.push(Entry::new(entry_data));
            },
            EditState::Edit(index, entry_data) => {
                if index < self.entries.len() {
                    let entry = &mut self.entries[index];
                    entry.data = entry_data;
                }
            },
        }
    }

    /// The position of the first entry that the response for `id` speaks
    /// of.
    fn find_entry(&self, id: ProgramId) -> (r: Option<usize>)
        ensures
            match r {
                Some(i) => i < self.entries@.len() && Self::entry_matches(
                    self.entries@[i as int],
                    id,
                ) && forall|j: int|
                    0 <= j < i ==> !Self::entry_matches(#[trigger] self.entries@[j], id),
                None => forall|j: int|
                    0 <= j < self.entries@.len() ==> !Self::entry_matches(
                        #[trigger] self.entries@[j],
                        id,
                    ),
            },
    {
        let n = self.entries.len();
        let mut i: usize = 0;
        while i < n
            invariant
                n == self.entries@.len(),
                i <= n,
                forall|j: int|
                    0 <= j < i ==> !Self::entry_matches(#[trigger] self.entries@[j], id),
            decreases n - i,
        {
            let matched = match self.entries[i].state {
                RunState::Idle(Some(sid)) => sid == id,
                RunState::Busy(sid) => sid == id,
                RunState::Running(sid, _) => sid == id,
                RunState::Idle(None) => false,
            };
            if matched {
                return Some(i);
            }
            i += 1;
        }
        None
    }

    /// Apply one supervisor response: the first entry whose state carries
    /// the response's identifier advances by [`RunState::spec_next`], and
    /// its failure message is set on an I/O error and cleared otherwise;
    /// a response naming no entry changes nothing.
    pub fn handle_run_respone(&mut self, run_response: &RunResponse)
        ensures
            final(self).counter_spec() == old(self).counter_spec(),
            final(self).edit_entry == old(self).edit_entry,
            final(self).entries@.len() == old(self).entries@.len(),
            (forall|j: int|
                0 <= j < old(self).entries@.len() ==> !Self::entry_matches(
                    #[trigger] old(self).entries@[j],
                    run_response.program_id_spec(),
                )) ==> final(self).entries@ == old(self).entries@,
            forall|fi: int|
                (0 <= fi < old(self).entries@.len() && Self::entry_matches(
                    #[trigger] old(self).entries@[fi],
                    run_response.program_id_spec(),
                ) && (forall|j: int|
                    0 <= j < fi ==> !Self::entry_matches(
                        #[trigger] old(self).entries@[j],
                        run_response.program_id_spec(),
                    ))) ==> {
                    &&& (forall|j: int|
                        0 <= j < old(self).entries@.len() && j != fi ==> final(self).entries@[j]
                            == #[trigger] old(self).entries@[j])
                    &&& final(self).entries@[fi].data == old(self).entries@[fi].data
                    &&& final(self).entries@[fi].state == old(self).entries@[fi].state.spec_next(
                        *run_response,
                    )
                    &&& (match *run_response {
                        RunResponse::IoError(_, err) => final(self).entries@[fi].last_run_error
                            matches Some(m) && m@ == error_text_of(err.0),
                        _ => final(self).entries@[fi].last_run_error is None,
                    })
                },
    {
        let id = run_response.program_id();
        let index = match self.find_entry(id) {
            Some(i) => i,
            None => {
                return ;
            },
        };
        let message = match *run_response {
            RunResponse::IoError(_, err) => Some(os_error_text(err.0)),
            _ => None,
        };
        let entry = &mut self.entries[index];
        let state = entry.state;
        entry.state = state.next(run_response);
        entry.last_run_error = message;
    }

    /// A start click on the entry at `index`: only an idle entry starts;
    /// it runs under its remembered identifier or, for a first run, under
    /// a newly issued one; a malformed argument line is recorded on the
    /// entry instead. On success the entry turns busy and the command to
    /// send to the supervisor comes back.
    pub fn start_entry(&mut self, index: usize) -> (r: Option<RunCommand>)
        requires
            old(self).counter_spec() < u32::MAX,
        ensures
            final(self).edit_entry == old(self).edit_entry,
            final(self).entries@.len() == old(self).entries@.len(),
            (index >= old(self).entries@.len() || !(old(self).entries@[index as int].state
                matches RunState::Idle(_))) ==> r is None && *final(self) == *old(self),
            index < old(self).entries@.len() ==> (old(self).entries@[index as int].state
                matches RunState::Idle(prev) ==> {
                let started = (match prev {
                    Some(p) => p,
                    None => ProgramId(old(self).counter_spec()),
                });
                &&& final(self).counter_spec() == (if prev is Some {
                    old(self).counter_spec() as int
                } else {
                    old(self).counter_spec() + 1
                })
                &&& (forall|j: int|
                    0 <= j < old(self).entries@.len() && j != index ==> final(self).entries@[j]
                        == #[trigger] old(self).entries@[j])
                &&& final(self).entries@[index as int].data == old(self).entries@[index as int].data
                &&& (split_words(old(self).entries@[index as int].data.args@) is Some ==> (r
                    matches Some(cmd) && cmd.id == started && cmd.alias@ == old(self).entries@[index as int].data.alias@ && cmd.name@ == old(self).entries@[index as int].data.command@ && Some(cmd.args.deep_view()) == split_words(old(self).entries@[index as int].data.args@) && cmd.working_dir.deep_view() == old(self).entries@[index as int].data.working_dir.deep_view()
                    && final(self).entries@[index as int].state == RunState::Busy(started)
                    && final(self).entries@[index as int].last_run_error == old(self).entries@[index as int].last_run_error))
                &&& (split_words(old(self).entries@[index as int].data.args@) is None ==> r
                    is None && final(self).entries@[index as int].state == old(self).entries@[index as int].state && (final(self).entries@[index as int].last_run_error matches Some(m) && m@
                    == "Invalid command arguments"@))
            }),
    {
        if index >= self.entries.len() {
            return None;
        }
        let state = self.entries[index].state;
        let previous = match state {
            RunState::Idle(p) => p,
            _ => {
                return None;
            },
        };
        let id = match previous {
            Some(p) => p,
            None => {
                let issued = self.id_counter;
                self.id_counter = issued + 1;
                ProgramId(issued)
            },
        };
        let command = {
            let entry = &self.entries[index];
            entry.data.make_command(id)
        };
        match command {
            Ok(cmd) => {
                let entry = &mut self.entries[index];
                entry.state = RunState::Busy(id);
                Some(cmd)
            },
            Err(message) => {
                let entry = &mut self.entries[index];
                entry.last_run_error = Some(message);
                None
            },
        }
    }

    /// A kill click on the entry at `index`: only a running entry is
    /// killed; it turns busy until the supervisor answers, and the
    /// identifier to kill comes back.
    pub fn kill_entry(&mut self, index: usize) -> (r: Option<ProgramId>)
        ensures
            final(self).counter_spec() == old(self).counter_spec(),
            final(self).edit_entry == old(self).edit_entry,
            (index >= old(self).entries@.len() || !(old(self).entries@[index as int].state
                matches RunState::Running(_, _))) ==> r is None && *final(self) == *old(self),
            index < old(self).entries@.len() ==> (old(self).entries@[index as int].state
                matches RunState::Running(id, _) ==> r == Some(id) && final(self).entries@ == old(self).entries@.update(
                index as int,
                (Entry {
                    data: old(self).entries@[index as int].data,
                    state: RunState::Busy(id),
                    last_run_error: old(self).entries@[index as int].last_run_error,
                }),
            )),
    {
        if index >= self.entries.len() {
            return None;
        }
        let state = self.entries[index].state;
        let id = match state {
            RunState::Running(id, _) => id,
            _ => {
                return None;
            },
        };
        let entry = &mut self.entries[index];
        entry.state = RunState::Busy(id);
        Some(id)
    }
}

/// The application delegate: reacts to window-level commands of the
/// surrounding program, such as saving the entries.
#[derive(Debug)]
pub struct Delegate {}

impl Delegate {
    /// A fresh delegate.
    pub fn new() -> Self {
        Delegate {  }
    }
}

/// The widget controller that feeds supervisor responses into
/// [`AppData::handle_run_respone`].
#[derive(Debug)]
pub struct ResponseHandler;

impl ResponseHandler {
    /// A fresh handler.
    pub fn new() -> Self {
        ResponseHandler
    }
}

} // verus!
