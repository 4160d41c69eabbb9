//! The table of live terminal sessions and the allocation of their ids.
use std::collections::HashMap;
use vstd::prelude::*;

verus! {

broadcast use vstd::std_specs::hash::group_hash_axioms;

/// Why a registry operation did not reach a session.
#[derive(Debug, Clone, Copy, PartialEq, Eq, Structural)]
pub enum SessionError {
    /// No live session has this id: it was never handed out, or it was closed.
    NotFound(u32),
    /// Every id a session can carry has been handed out already.
    IdsExhausted,
}

/// Live sessions keyed by id, and the id the next session will get.
///
/// Ids start at 1, grow by one per registration, and are never reused, so a
/// closed id stays unknown for the rest of the process.
pub struct TerminalState<S> {
    terminals: HashMap<u32, S>,
    next_id: u32,
}

/// A state change that every registry operation makes at most: the counter
/// never goes back, and a key that appears is one that was never handed out.
pub open spec fn follows<S>(s: Map<u32, S>, s_next: u32, t: Map<u32, S>, t_next: u32) -> bool {
    &&& s_next <= t_next
    &&& forall|k: u32| #[trigger] t.contains_key(k) ==> s.contains_key(k) || s_next <= k
}

/// `t` is `s` with `id` freshly handed out and registered.
pub open spec fn registers<S>(s: TerminalState<S>, t: TerminalState<S>, id: u32) -> bool {
    &&& id == s.next_id()
    &&& t.next_id() == id + 1
    &&& !s.sessions().contains_key(id)
    &&& t.sessions().contains_key(id)
}

/// Consecutive states of `run` are each reached by one registry operation.
pub open spec fn is_run<S>(run: Seq<TerminalState<S>>) -> bool {
    forall|k: int| 0 <= k < run.len() - 1 ==> #[trigger] run[k].leads_to(&run[k + 1])
}

impl<S> TerminalState<S> {
    /// The live sessions.
    pub closed spec fn sessions(&self) -> Map<u32, S> {
        self.terminals@
    }

    /// The id that the next registration hands out.
    pub closed spec fn next_id(&self) -> u32 {
        self.next_id
    }

    /// Every live id lies in `1 .. next_id`.
    pub closed spec fn wf(&self) -> bool {
        &&& 1 <= self.next_id
        &&& forall|k: u32| #[trigger] self.terminals@.contains_key(k) ==> 1 <= k < self.next_id
    }

    /// `t` is reachable from `self` by one registry operation.
    pub open spec fn leads_to(&self, t: &Self) -> bool {
        follows(self.sessions(), self.next_id(), t.sessions(), t.next_id())
    }

    /// An empty registry whose first id is 1.
    pub fn new() -> (r: Self)
        ensures
            r.wf(),
            r.sessions() == Map::<u32, S>::empty(),
            r.next_id() == 1,
    {
        TerminalState { terminals: HashMap::new(), next_id: 1 }
    }

    /// Allocates the next id and stores `session` under it.
    pub fn register(&mut self, session: S) -> (r: Result<u32, SessionError>)
        requires
            old(self).wf(),
        ensures
            final(self).wf(),
            old(self).leads_to(final(self)),
            r matches Ok(id) ==> registers(*old(self), *final(self), id),
            old(self).next_id() < u32::MAX ==> {
                &&& r == Ok::<u32, SessionError>(old(self).next_id())
                &&& final(self).next_id() == old(self).next_id() + 1
                &&& final(self).sessions() == old(self).sessions().insert(
                    old(self).next_id(),
                    session,
                )
            },
            old(self).next_id() == u32::MAX ==> {
                &&& r == Err::<u32, SessionError>(SessionError::IdsExhausted)
                &&& *final(self) == *old(self)
            },
    {
        if self.next_id == u32::MAX {
            return Err(SessionError::IdsExhausted);
        }
        let id = self.next_id;
        self.next_id = id + 1;
        self.terminals.insert(id, session);
        Ok(id)
    }

    /// The session registered under `id`, if it is live.
    pub fn get(&self, id: u32) -> (r: Result<&S, SessionError>)
        ensures
            match r {
                Ok(s) => self.sessions().contains_key(id) && *s == self.sessions()[id],
                Err(e) => !self.sessions().contains_key(id) && e == SessionError::NotFound(id),
            },
    {
        match self.terminals.get(&id) {
            Some(s) => Ok(s),
            None => Err(SessionError::NotFound(id)),
        }
    }

    /// Whether `id` names a live session.
    pub fn contains(&self, id: u32) -> (r: bool)
        ensures
            r == self.sessions().contains_key(id),
    {
        self.terminals.contains_key(&id)
    }

    /// Drops `id` from the table and hands back its session, if it was live.
    /// Closing an unknown or already closed id changes nothing.
    pub fn close(&mut self, id: u32) -> (r: Option<S>)
        requires
            old(self).wf(),
        ensures
            final(self).wf(),
            old(self).leads_to(final(self)),
            final(self).next_id() == old(self).next_id(),
            final(self).sessions() == old(self).sessions().remove(id),
            r == (if old(self).sessions().contains_key(id) {
                Some(old(self).sessions()[id])
            } else {
                None
            }),
    {
        self.terminals.remove(&id)
    }
}

/// The id counter never goes back along a run.
proof fn lemma_counter_monotone<S>(run: Seq<TerminalState<S>>, i: int, j: int)
    requires
        is_run(run),
        0 <= i <= j < run.len(),
    ensures
        run[i].next_id() <= run[j].next_id(),
    decreases j - i,
{
    if i < j {
        lemma_counter_monotone(run, i, j - 1);
        let k = j - 1;
        assert(run[k].leads_to(&run[k + 1]));
    }
}

/// Ids are handed out in strictly increasing order: along any run of registry
/// operations, a registration earlier in the run hands out a smaller id than a
/// later one, whatever was closed in between; so no id is handed out twice.
pub proof fn lemma_ids_strictly_increase<S>(
    run: Seq<TerminalState<S>>,
    i: int,
    a: u32,
    j: int,
    b: u32,
)
    requires
        is_run(run),
        0 <= i < j,
        j + 1 < run.len(),
        registers(run[i], run[i + 1], a),
        registers(run[j], run[j + 1], b),
    ensures
        a < b,
{
    lemma_counter_monotone(run, i + 1, j);
}

/// A closed id stays unknown: once an id has been handed out and is no longer
/// live, no later state of a run holds it again.
pub proof fn lemma_closed_id_stays_unknown<S>(run: Seq<TerminalState<S>>, i: int, j: int, id: u32)
    requires
        is_run(run),
        0 <= i <= j < run.len(),
        id < run[i].next_id(),
        !run[i].sessions().contains_key(id),
    ensures
        !run[j].sessions().contains_key(id),
    decreases j - i,
{
    if i < j {
        lemma_closed_id_stays_unknown(run, i, j - 1, id);
        lemma_counter_monotone(run, i, j - 1);
        let k = j - 1;
        assert(run[k].leads_to(&run[k + 1]));
    }
}

/// An id that was never handed out (zero, or not below the counter) is not live.
pub proof fn lemma_unissued_id_unknown<S>(s: TerminalState<S>, id: u32)
    requires
        s.wf(),
        id == 0 || s.next_id() <= id,
    ensures
        !s.sessions().contains_key(id),
{
}

} // verus!
