//! The supervisor's data model: program identifiers and their generator,
//! run commands, the request and response vocabulary exchanged with the
//! presentation layer, and the dense index-addressed registry that backs
//! the supervisor.

use vstd::prelude::*;

verus! {

/// Identifier of one spawn attempt: a monotonically increasing counter
/// value assigned when a run request is accepted, unique for the
/// supervisor's lifetime and never reused.
#[derive(Debug, Copy, Clone, PartialEq, Eq, PartialOrd, Ord, Hash, Structural)]
pub struct ProgramId(pub u32);

impl ProgramId {
    /// The registry slot this identifier addresses.
    pub open spec fn index_spec(&self) -> int {
        self.0 as int
    }

    /// The registry slot this identifier addresses.
    pub fn as_index(&self) -> (r: usize)
        ensures
            r == self.index_spec(),
    {
        self.0 as usize
    }
}

/// Make an identifier from a raw counter value.
pub fn program_id(id: u32) -> (r: ProgramId)
    ensures
        r == ProgramId(id),
{
    ProgramId(id)
}

/// Holder of the identifier counter. `next_id` hands out the current
/// counter value and advances it; the counter never goes back, so no
/// identifier is issued twice.
pub trait ProgramIdGen {
    /// The counter's current value.
    spec fn counter_spec(&self) -> u32;

    /// Borrow the counter.
    fn counter(&mut self) -> (r: &mut u32)
        ensures
            *r == old(self).counter_spec(),
            final(self).counter_spec() == *final(r),
    ;

    /// Issue the next identifier: the counter's value, advancing it by
    /// one.
    fn next_id(&mut self) -> (r: ProgramId)
        requires
            old(self).counter_spec() < u32::MAX,
        ensures
            r == ProgramId(old(self).counter_spec()),
            final(self).counter_spec() == old(self).counter_spec() + 1,
    {
        let counter = self.counter();
        let id = *counter;
        *counter = id + 1;
        ProgramId(id)
    }
}

/// A command ready to run: the identifier assigned to this spawn attempt,
/// the operator's alias for it, the executable's name, its arguments, and
/// an optional working directory.
#[derive(Debug, Clone)]
pub struct RunCommand {
    /// Identifier assigned to this spawn attempt.
    pub id: ProgramId,
    /// Operator-chosen name; the subscription key for log viewers.
    pub alias: String,
    /// Name of the executable to spawn.
    pub name: String,
    /// Arguments handed to the executable, in order.
    pub args: Vec<String>,
    /// Directory to run in, when given.
    pub working_dir: Option<String>,
}

/// A request to the supervisor: run a command, kill a running program, or
/// shut the supervisor down.
#[derive(Debug, Clone)]
pub enum RunRequest {
    /// Spawn the given command.
    Run(RunCommand),
    /// Deliver a kill to the program with this identifier.
    Kill(ProgramId),
    /// Drain and exit the control loop.
    Stop,
}

/// One input to the supervisor's control loop: either a request from the
/// presentation layer or a freshly connected log sink with the alias it
/// asks for.
#[derive(Debug, Clone)]
pub enum SpawnerInput<W> {
    /// A request from the presentation layer.
    RunRequest(RunRequest),
    /// A viewer connection to attach under the given alias.
    Sink(String, W),
}

impl<W> core::convert::From<RunRequest> for SpawnerInput<W> {
    fn from(req: RunRequest) -> (r: SpawnerInput<W>) {
        SpawnerInput::RunRequest(req)
    }
}

impl<W> vstd::std_specs::convert::FromSpecImpl<RunRequest> for SpawnerInput<W> {
    open spec fn obeys_from_spec() -> bool {
        true
    }

    open spec fn from_spec(req: RunRequest) -> Self {
        SpawnerInput::RunRequest(req)
    }
}

impl<W> core::convert::From<(String, W)> for SpawnerInput<W> {
    fn from(x: (String, W)) -> (r: SpawnerInput<W>) {
        SpawnerInput::Sink(x.0, x.1)
    }
}

impl<W> vstd::std_specs::convert::FromSpecImpl<(String, W)> for SpawnerInput<W> {
    open spec fn obeys_from_spec() -> bool {
        true
    }

    open spec fn from_spec(x: (String, W)) -> Self {
        SpawnerInput::Sink(x.0, x.1)
    }
}

/// Exit status of a finished process: the raw status value the operating
/// system reported.
#[derive(Debug, Copy, Clone, PartialEq, Eq, Structural)]
pub struct ExitStatus(pub i32);

/// An operating-system failure, by its raw error code.
#[derive(Debug, Copy, Clone, PartialEq, Eq, Structural)]
pub struct OsError(pub i32);

/// A lifecycle event for one program: started with the operating system's
/// process id, exited with a status, or failed with an error. Exactly one
/// `Started` or immediate `IoError` answers each accepted run, and exactly
/// one terminal `Exited` or `IoError` follows a start.
#[derive(Debug, Copy, Clone, PartialEq, Eq, Structural)]
pub enum RunResponse {
    /// The program was spawned, with the operating system's process id.
    Started(ProgramId, u32),
    /// The program finished with the given status.
    Exited(ProgramId, ExitStatus),
    /// Spawning, waiting, or killing the program failed.
    IoError(ProgramId, OsError),
}

impl RunResponse {
    /// The identifier this event speaks of.
    pub open spec fn program_id_spec(&self) -> ProgramId {
        match *self {
            RunResponse::Started(id, _) => id,
            RunResponse::Exited(id, _) => id,
            RunResponse::IoError(id, _) => id,
        }
    }

    /// The identifier this event speaks of.
    pub fn program_id(&self) -> (r: ProgramId)
        ensures
            r == self.program_id_spec(),
    {
        match *self {
            RunResponse::Started(id, _) => id,
            RunResponse::Exited(id, _) => id,
            RunResponse::IoError(id, _) => id,
        }
    }
}

/// A dense, index-addressed map from program identifiers to per-program
/// values. The backing store grows on demand; a removed slot stays as a
/// gap, so identifiers never alias one another.
pub struct ProgramMap<V> {
    elements: Vec<Option<V>>,
}

impl<V> ProgramMap<V> {
    /// The backing slots, one per identifier from zero up to the highest
    /// ever inserted.
    pub closed spec fn slots(&self) -> Seq<Option<V>> {
        self.elements@
    }

    /// The value stored under `key`, if any.
    pub open spec fn spec_get(&self, key: ProgramId) -> Option<V> {
        if key.index_spec() < self.slots().len() {
            self.slots()[key.index_spec()]
        } else {
            None
        }
    }

    /// What an insert does: it hands back what the key held, stores the
    /// new value under the key, touches no other key, and grows the store
    /// just enough to address the key.
    pub open spec fn insert_spec(pre: Self, post: Self, key: ProgramId, value: V, r: Option<V>) -> bool {
        &&& r == pre.spec_get(key)
        &&& post.spec_get(key) == Some(value)
        &&& forall|k: ProgramId| k != key ==> post.spec_get(k) == pre.spec_get(k)
        &&& post.slots().len() == if key.index_spec() < pre.slots().len() {
            pre.slots().len() as int
        } else {
            key.index_spec() + 1
        }
    }

    /// What storing a value under a key does to the mapping: the key now
    /// holds the value and every other key is untouched.
    pub open spec fn stores(pre: Self, post: Self, key: ProgramId, value: V) -> bool {
        &&& post.spec_get(key) == Some(value)
        &&& forall|k: ProgramId| k != key ==> post.spec_get(k) == pre.spec_get(k)
    }

    /// What a removal does: it hands back what the key held, empties that
    /// slot, and touches no other key.
    pub open spec fn remove_spec(pre: Self, post: Self, key: ProgramId, r: Option<V>) -> bool {
        &&& r == pre.spec_get(key)
        &&& post.spec_get(key) is None
        &&& forall|k: ProgramId| k != key ==> post.spec_get(k) == pre.spec_get(k)
        &&& post.slots().len() == pre.slots().len()
    }

    /// An empty registry.
    pub fn new() -> (r: Self)
        ensures
            r.slots().len() == 0,
    {
        Self { elements: Vec::new() }
    }

    /// An empty registry with room reserved for `capacity` slots.
    pub fn with_capacity(capacity: usize) -> (r: Self)
        ensures
            r.slots().len() == 0,
    {
        Self { elements: Vec::with_capacity(capacity) }
    }

    /// The value under `key`, if that slot exists and is filled.
    pub fn get(&self, key: ProgramId) -> (r: Option<&V>)
        ensures
            match r {
                Some(v) => self.spec_get(key) == Some(*v),
                None => self.spec_get(key) is None,
            },
    {
        let index = key.as_index();
        if index < self.elements.len() {
            self.elements[index].as_ref()
        } else {
            None
        }
    }

    /// Mutable access to the value under `key`, if that slot exists and
    /// is filled.
    pub fn get_mut(&mut self, key: ProgramId) -> (r: Option<&mut V>)
        ensures
            old(self).spec_get(key) is None ==> r is None && *final(self) == *old(self),
            old(self).spec_get(key) matches Some(v) ==> r is Some && *r.unwrap() == v && final(self).slots() == old(self).slots().update(
                key.index_spec(),
                Some(*final(r.unwrap())),
            ),
    {
        let index = key.as_index();
        if index >= self.elements.len() {
            return None;
        }
        if self.elements[index].is_none() {
            return None;
        }
        let slot = &mut self.elements[index];
        slot.as_mut()
    }

    /// Store `value` under `key`, growing the store as needed; hands back
    /// what the key held before.
    pub fn insert(&mut self, key: ProgramId, value: V) -> (r: Option<V>)
        ensures
            Self::insert_spec(*old(self), *final(self), key, value, r),
    {
        let index = key.as_index();
        if index < self.elements.len() {
            let slot = &mut self.elements[index];
            let r = slot.take();
            self.elements[index] = Some(value);
            r
        } else {
            while self.elements.len() < index
                invariant
                    old(self).slots().len() <= self.elements@.len() <= index,
                    self.elements@.subrange(0, old(self).slots().len() as int) == old(self).slots(),
                    forall|j: int|
                        old(self).slots().len() <= j < self.elements@.len()
                            ==> self.elements@[j] is None,
                decreases index - self.elements@.len(),
            {
                self.elements.push(None);
            }
            self.elements.push(Some(value));
            proof {
                assert(old(self).slots() =~= self.elements@.subrange(
                    0,
                    old(self).slots().len() as int,
                ));
            }
            None
        }
    }

    /// Empty the slot under `key`, handing back what it held.
    pub fn remove(&mut self, key: ProgramId) -> (r: Option<V>)
        ensures
            Self::remove_spec(*old(self), *final(self), key, r),
    {
        let index = key.as_index();
        if index < self.elements.len() {
            let slot = &mut self.elements[index];
            slot.take()
        } else {
            None
        }
    }

    /// The filled values of `s`, in slot order.
    pub open spec fn somes(s: Seq<Option<V>>) -> Seq<V>
        decreases s.len(),
    {
        if s.len() == 0 {
            Seq::empty()
        } else {
            match s[0] {
                Some(v) => seq![v] + Self::somes(s.skip(1)),
                None => Self::somes(s.skip(1)),
            }
        }
    }

    /// Empty the whole registry, handing back every stored value in slot
    /// order. Used at shutdown to cancel every still-running program.
    pub fn drain(&mut self) -> (r: Vec<V>)
        ensures
            final(self).slots().len() == 0,
            r@ == Self::somes(old(self).slots()),
    {
        let mut r: Vec<V> = Vec::new();
        proof {
            assert(r@ + Self::somes(self.elements@) =~= Self::somes(self.elements@));
        }
        while self.elements.len() > 0
            invariant
                Self::somes(old(self).slots()) == r@ + Self::somes(self.elements@),
            decreases self.elements@.len(),
        {
            let ghost s = self.elements@;
            let ghost r0 = r@;
            let head = self.elements.remove(0);
            match head {
                Some(v) => r.push(v),
                None => {},
            }
            proof {
                assert(s.remove(0) =~= s.skip(1));
                assert(r@ + Self::somes(self.elements@) =~= r0 + Self::somes(s));
            }
        }
        r
    }
}

/// Registry law: inserting under a key and inserting there again hands
/// back the first value.
pub proof fn lemma_insert_twice<V>(
    m0: ProgramMap<V>,
    m1: ProgramMap<V>,
    m2: ProgramMap<V>,
    key: ProgramId,
    v1: V,
    v2: V,
    r1: Option<V>,
    r2: Option<V>,
)
    requires
        ProgramMap::insert_spec(m0, m1, key, v1, r1),
        ProgramMap::insert_spec(m1, m2, key, v2, r2),
    ensures
        r2 == Some(v1),
{
}

/// Registry law: removing a key that holds nothing, in particular one
/// never inserted, hands back nothing and changes nothing.
pub proof fn lemma_remove_absent<V>(
    m0: ProgramMap<V>,
    m1: ProgramMap<V>,
    key: ProgramId,
    r: Option<V>,
)
    requires
        m0.spec_get(key) is None,
        ProgramMap::remove_spec(m0, m1, key, r),
    ensures
        r is None,
        forall|k: ProgramId| m1.spec_get(k) == m0.spec_get(k),
{
    assert(forall|k: ProgramId| k != key ==> m1.spec_get(k) == m0.spec_get(k));
}

/// Identifier law: identifiers issued from a counter that only moves
/// forward are pairwise distinct; none is ever reused.
pub proof fn lemma_ids_never_reused(start: u32, ids: Seq<ProgramId>)
    requires
        start + ids.len() <= u32::MAX as int + 1,
        forall|i: int| 0 <= i < ids.len() ==> ids[i] == ProgramId((start + i) as u32),
    ensures
        forall|i: int, j: int| 0 <= i < j < ids.len() ==> ids[i] != ids[j],
{
    assert forall|i: int, j: int| 0 <= i < j < ids.len() implies ids[i] != ids[j] by {
        assert(ids[i].0 == start + i);
        assert(ids[j].0 == start + j);
    }
}

} // verus!
