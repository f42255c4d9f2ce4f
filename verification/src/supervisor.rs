//! The supervisor's decision core. It owns the registry of running
//! programs: per program a cancellation handle and a set of attached log
//! sinks, plus the alias-to-identifier mapping used to attach viewers.
//! The control loop around it performs the outside work — spawning,
//! sending, killing — and calls in here for every decision, so each
//! decision is verified: what a run registers, what a kill removes, where
//! a new sink attaches, and what a shutdown drains.

use vstd::prelude::*;

use crate::model::{ProgramId, ProgramMap, RunResponse};

verus! {

/// `ids` with every occurrence of `id` removed, order kept.
pub open spec fn spec_without(ids: Seq<ProgramId>, id: ProgramId) -> Seq<ProgramId>
    decreases ids.len(),
{
    if ids.len() == 0 {
        Seq::empty()
    } else if ids[0] == id {
        spec_without(ids.skip(1), id)
    } else {
        seq![ids[0]] + spec_without(ids.skip(1), id)
    }
}

/// Removing `id` removes exactly `id`: what remains is what was there,
/// minus every occurrence of `id`.
pub proof fn lemma_without_membership(ids: Seq<ProgramId>, id: ProgramId, x: ProgramId)
    ensures
        spec_without(ids, id).contains(x) <==> (ids.contains(x) && x != id),
    decreases ids.len(),
{
    if ids.len() == 0 {
        assert(!ids.contains(x));
    } else {
        lemma_without_membership(ids.skip(1), id, x);
        assert(ids.contains(x) <==> (ids[0] == x || ids.skip(1).contains(x))) by {
            if ids.contains(x) {
                let w = choose|w: int| 0 <= w < ids.len() && ids[w] == x;
                if w > 0 {
                    assert(ids.skip(1)[w - 1] == x);
                }
            }
            if ids.skip(1).contains(x) {
                let w = choose|w: int| 0 <= w < ids.skip(1).len() && ids.skip(1)[w] == x;
                assert(ids[w + 1] == x);
            }
        }
        if ids[0] == id {
        } else {
            let rest = spec_without(ids.skip(1), id);
            assert(spec_without(ids, id) == seq![ids[0]] + rest);
            assert((seq![ids[0]] + rest).contains(x) <==> (ids[0] == x || rest.contains(x))) by {
                if (seq![ids[0]] + rest).contains(x) {
                    let w = choose|w: int|
                        0 <= w < (seq![ids[0]] + rest).len() && (seq![ids[0]] + rest)[w] == x;
                    if w > 0 {
                        assert(rest[w - 1] == x);
                    }
                }
                if rest.contains(x) {
                    let w = choose|w: int| 0 <= w < rest.len() && rest[w] == x;
                    assert((seq![ids[0]] + rest)[w + 1] == x);
                }
                if ids[0] == x {
                    assert((seq![ids[0]] + rest)[0] == x);
                }
            }
        }
    }
}

/// The programs still owing their terminal event. Each accepted spawn
/// owes exactly one `Exited` or `IoError`; the control loop may exit
/// only once nothing is owed, so no child is orphaned.
pub struct PendingTerminals {
    ids: Vec<ProgramId>,
}

impl PendingTerminals {
    /// The identifiers still owing a terminal event, in the order their
    /// spawns were accepted.
    pub closed spec fn ids_spec(&self) -> Seq<ProgramId> {
        self.ids@
    }

    /// Whether `id` still owes its terminal event.
    pub open spec fn owes(&self, id: ProgramId) -> bool {
        self.ids_spec().contains(id)
    }

    /// Nothing owed yet.
    pub fn new() -> (r: Self)
        ensures
            r.ids_spec().len() == 0,
    {
        PendingTerminals { ids: Vec::new() }
    }

    /// Note an accepted spawn: `id` now owes its terminal event.
    pub fn expect(&mut self, id: ProgramId)
        ensures
            final(self).ids_spec() == old(self).ids_spec().push(id),
    {
        self.ids.push(id);
    }

    /// Settle what a response pays off: a terminal event releases the
    /// program it names; a start owes nothing yet and changes nothing.
    pub fn settle(&mut self, response: &RunResponse)
        ensures
            (*response matches RunResponse::Started(_, _)) ==> final(self).ids_spec() == old(
                self,
            ).ids_spec(),
            !(*response matches RunResponse::Started(_, _)) ==> final(self).ids_spec()
                == spec_without(old(self).ids_spec(), response.program_id_spec()),
    {
        let id = match *response {
            RunResponse::Started(_, _) => {
                return ;
            },
            RunResponse::Exited(id, _) => id,
            RunResponse::IoError(id, _) => id,
        };
        let mut rest: Vec<ProgramId> = Vec::new();
        core::mem::swap(&mut self.ids, &mut rest);
        let ghost ids0 = rest@;
        proof {
            assert(self.ids@ + spec_without(rest@, id) =~= spec_without(ids0, id));
        }
        while rest.len() > 0
            invariant
                spec_without(ids0, id) == self.ids@ + spec_without(rest@, id),
            decreases rest@.len(),
        {
            let ghost s = rest@;
            let ghost kept = self.ids@;
            let head = rest.remove(0);
            if head != id {
                self.ids.push(head);
            }
            proof {
                assert(s.remove(0) =~= s.skip(1));
                assert(self.ids@ + spec_without(rest@, id) =~= kept + spec_without(s, id));
            }
        }
        proof {
            assert(self.ids@ + spec_without(rest@, id) =~= self.ids@);
        }
    }

    /// Whether the supervisor may exit: no program owes a terminal
    /// event any more.
    pub fn none_left(&self) -> (r: bool)
        ensures
            r == (self.ids_spec().len() == 0),
    {
        self.ids.len() == 0
    }
}

/// Registry state of the supervisor, generic over the cancellation-handle
/// type `K` and the sink-connection type `S`, neither of which the
/// decisions ever look inside.
pub struct SpawnerCore<K, S> {
    /// Per running program, the handle that delivers its kill.
    pub spawned: ProgramMap<K>,
    /// Per running program, the sinks attached to its log forwarder.
    pub log_sinks: ProgramMap<Vec<S>>,
    /// Which identifier each alias currently names.
    pub alias_to_id: Vec<(String, ProgramId)>,
}

impl<K, S> SpawnerCore<K, S> {
    /// Whether `entries` maps `alias` to `id`.
    pub open spec fn maps_alias(
        entries: Seq<(String, ProgramId)>,
        alias: Seq<char>,
        id: ProgramId,
    ) -> bool {
        exists|i: int|
            #![trigger entries[i]]
            0 <= i < entries.len() && entries[i].0@ == alias && entries[i].1 == id
    }

    /// Whether `entries` knows `alias` at all.
    pub open spec fn alias_known(entries: Seq<(String, ProgramId)>, alias: Seq<char>) -> bool {
        exists|i: int| #![trigger entries[i]] 0 <= i < entries.len() && entries[i].0@ == alias
    }

    /// The alias mapping never holds one alias twice, so an alias names
    /// at most one running program.
    pub open spec fn wf(&self) -> bool {
        forall|i: int, j: int|
            #![trigger self.alias_to_id@[i], self.alias_to_id@[j]]
            0 <= i < j < self.alias_to_id@.len() ==> self.alias_to_id@[i].0@
                != self.alias_to_id@[j].0@
    }

    /// An empty registry: nothing running, no sinks, no aliases.
    pub fn new() -> (r: Self)
        ensures
            r.wf(),
            r.spawned.slots().len() == 0,
            r.log_sinks.slots().len() == 0,
            r.alias_to_id@.len() == 0,
    {
        SpawnerCore {
            spawned: ProgramMap::new(),
            log_sinks: ProgramMap::new(),
            alias_to_id: Vec::new(),
        }
    }

    /// Register a successfully spawned program: its kill handle goes into
    /// the registry, it gets an initially empty sink set, and its alias
    /// now names it — replacing whatever the alias named before, and
    /// leaving every other program and alias alone.
    pub fn on_run_spawned(&mut self, id: ProgramId, alias: String, kill: K)
        requires
            old(self).wf(),
        ensures
            final(self).wf(),
            ProgramMap::stores(old(self).spawned, final(self).spawned, id, kill),
            final(self).log_sinks.spec_get(id) matches Some(v) && v@ == Seq::<S>::empty(),
            forall|k: ProgramId|
                k != id ==> final(self).log_sinks.spec_get(k) == old(self).log_sinks.spec_get(k),
            Self::maps_alias(final(self).alias_to_id@, alias@, id),
            forall|a: Seq<char>, x: ProgramId|
                a != alias@ ==> (Self::maps_alias(final(self).alias_to_id@, a, x)
                    <==> Self::maps_alias(old(self).alias_to_id@, a, x)),
    {
        let _ = self.spawned.insert(id, kill);
        let _ = self.log_sinks.insert(id, Vec::new());
        let ghost entries0 = self.alias_to_id@;
        let n = self.alias_to_id.len();
        let mut i: usize = 0;
        let mut found: Option<usize> = None;
        while i < n
            invariant
                n == self.alias_to_id@.len(),
                i <= n,
                match found {
                    Some(fi) => fi < i && self.alias_to_id@[fi as int].0@ == alias@,
                    None => forall|j: int| 0 <= j < i ==> self.alias_to_id@[j].0@ != alias@,
                },
            decreases n - i,
        {
            if self.alias_to_id[i].0 == alias {
                found = Some(i);
            }
            i += 1;
        }
        match found {
            Some(fi) => {
                self.alias_to_id[fi] = (alias, id);
                proof {
                    assert(self.alias_to_id@[fi as int].0@ == alias@ && self.alias_to_id@[fi as int].1
                        == id);
                    assert(Self::maps_alias(self.alias_to_id@, alias@, id));
                    assert forall|a: Seq<char>, x: ProgramId|
                        a != alias@ && Self::maps_alias(self.alias_to_id@, a, x) implies Self::maps_alias(
                        entries0,
                        a,
                        x,
                    ) by {
                        let j = choose|j: int|
                            0 <= j < self.alias_to_id@.len() && #[trigger] self.alias_to_id@[j].0@
                                == a && self.alias_to_id@[j].1 == x;
                        assert(j != fi);
                        assert(entries0[j].0@ == a && entries0[j].1 == x);
                    }
                    assert forall|a: Seq<char>, x: ProgramId|
                        a != alias@ && Self::maps_alias(entries0, a, x) implies Self::maps_alias(
                        self.alias_to_id@,
                        a,
                        x,
                    ) by {
                        let j = choose|j: int|
                            0 <= j < entries0.len() && #[trigger] entries0[j].0@ == a
                                && entries0[j].1 == x;
                        assert(j != fi);
                        assert(self.alias_to_id@[j].0@ == a && self.alias_to_id@[j].1 == x);
                    }
                }
            },
            None => {
                self.alias_to_id.push((alias, id));
                proof {
                    let m = entries0.len() as int;
                    assert(self.alias_to_id@[m].0@ == alias@ && self.alias_to_id@[m].1 == id);
                    assert(Self::maps_alias(self.alias_to_id@, alias@, id));
                    assert forall|a: Seq<char>, x: ProgramId|
                        a != alias@ && Self::maps_alias(self.alias_to_id@, a, x) implies Self::maps_alias(
                        entries0,
                        a,
                        x,
                    ) by {
                        let j = choose|j: int|
                            0 <= j < self.alias_to_id@.len() && #[trigger] self.alias_to_id@[j].0@
                                == a && self.alias_to_id@[j].1 == x;
                        assert(j < entries0.len());
                        assert(entries0[j].0@ == a && entries0[j].1 == x);
                    }
                    assert forall|a: Seq<char>, x: ProgramId|
                        a != alias@ && Self::maps_alias(entries0, a, x) implies Self::maps_alias(
                        self.alias_to_id@,
                        a,
                        x,
                    ) by {
                        let j = choose|j: int|
                            0 <= j < entries0.len() && #[trigger] entries0[j].0@ == a
                                && entries0[j].1 == x;
                        assert(self.alias_to_id@[j].0@ == a && self.alias_to_id@[j].1 == x);
                    }
                }
            },
        }
    }

    /// Remove and hand back the kill handle for `id`, so the caller can
    /// fire it. A missing identifier — killed twice, or exited and
    /// removed — is a silent no-op yielding nothing. Sinks and aliases
    /// are untouched.
    pub fn on_kill(&mut self, id: ProgramId) -> (r: Option<K>)
        requires
            old(self).wf(),
        ensures
            final(self).wf(),
            ProgramMap::remove_spec(old(self).spawned, final(self).spawned, id, r),
            final(self).log_sinks == old(self).log_sinks,
            final(self).alias_to_id == old(self).alias_to_id,
    {
        self.spawned.remove(id)
    }

    /// Attach a viewer connection under `alias`: when the alias names a
    /// program whose sink set still exists, the connection joins that
    /// set and the call reports true; otherwise the connection is dropped
    /// silently, nothing changes, and the call reports false.
    pub fn on_sink(&mut self, alias: &String, sink: S) -> (r: bool)
        requires
            old(self).wf(),
        ensures
            final(self).wf(),
            final(self).spawned == old(self).spawned,
            final(self).alias_to_id == old(self).alias_to_id,
            r == exists|id: ProgramId|
                #[trigger] Self::maps_alias(old(self).alias_to_id@, alias@, id) && old(
                    self,
                ).log_sinks.spec_get(id) is Some,
            !r ==> final(self).log_sinks == old(self).log_sinks,
            forall|id: ProgramId|
                (Self::maps_alias(old(self).alias_to_id@, alias@, id) && old(
                    self,
                ).log_sinks.spec_get(id) is Some) ==> (final(self).log_sinks.spec_get(id)
                    matches Some(w) && w@ == old(self).log_sinks.spec_get(id).unwrap()@.push(sink)
                    && forall|k: ProgramId|
                    k != id ==> final(self).log_sinks.spec_get(k) == old(self).log_sinks.spec_get(
                        k,
                    )),
    {
        let n = self.alias_to_id.len();
        let mut i: usize = 0;
        let mut target: Option<ProgramId> = None;
        while i < n
            invariant
                n == self.alias_to_id@.len(),
                i <= n,
                old(self).wf(),
                *self == *old(self),
                match target {
                    Some(id) => Self::maps_alias(self.alias_to_id@, alias@, id),
                    None => forall|j: int| 0 <= j < i ==> self.alias_to_id@[j].0@ != alias@,
                },
            decreases n - i,
        {
            if self.alias_to_id[i].0 == *alias {
                target = Some(self.alias_to_id[i].1);
            }
            i += 1;
        }
        match target {
            None => {
                proof {
                    assert(!Self::alias_known(self.alias_to_id@, alias@));
                }
                false
            },
            Some(id) => {
                match self.log_sinks.get_mut(id) {
                    Some(v) => {
                        v.push(sink);
                        true
                    },
                    None => false,
                }
            },
        }
    }

    /// The identifier that `alias` currently names, if any.
    pub fn lookup_alias(&self, alias: &String) -> (r: Option<ProgramId>)
        requires
            self.wf(),
        ensures
            r matches Some(id) ==> Self::maps_alias(self.alias_to_id@, alias@, id),
            r is None ==> !Self::alias_known(self.alias_to_id@, alias@),
    {
        let n = self.alias_to_id.len();
        let mut i: usize = 0;
        while i < n
            invariant
                n == self.alias_to_id@.len(),
                i <= n,
                forall|j: int| 0 <= j < i ==> self.alias_to_id@[j].0@ != alias@,
            decreases n - i,
        {
            if self.alias_to_id[i].0 == *alias {
                return Some(self.alias_to_id[i].1);
            }
            i += 1;
        }
        None
    }

    /// Drain the registry for shutdown: every remaining kill handle is
    /// handed back, in identifier order, so the caller can cancel every
    /// still-running program; the registry and the alias mapping end
    /// empty.
    pub fn shutdown(&mut self) -> (r: Vec<K>)
        ensures
            final(self).wf(),
            r@ == ProgramMap::somes(old(self).spawned.slots()),
            final(self).spawned.slots().len() == 0,
            final(self).alias_to_id@.len() == 0,
            final(self).log_sinks == old(self).log_sinks,
    {
        let handles = self.spawned.drain();
        self.alias_to_id.clear();
        handles
    }
}

} // verus!
