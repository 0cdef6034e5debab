//! The bookkeeping of the voice monitor: which browser sessions listen.

use rand::rngs::ThreadRng;
use rand::Rng;
use std::collections::HashMap;
use vstd::prelude::*;
use vstd::std_specs::iter::IteratorSpec;

verus! {

/// The declaration that lets the thread's random generator stand in a field.
#[verifier::external_type_specification]
#[verifier::external_body]
pub struct ExThreadRng(ThreadRng);

/// `rand::thread_rng`: a handle on the thread's random generator. Nothing is
/// stated of it.
#[verifier::external_body]
fn thread_rng() -> ThreadRng {
    rand::thread_rng()
}

/// `Rng::gen::<usize>` on the thread's generator: a random number. Nothing is
/// promised of its value.
#[verifier::external_body]
fn random_usize(rng: &mut ThreadRng) -> usize {
    rng.gen::<usize>()
}

/// The listening sessions of the voice monitor, each under its number, and the
/// generator that draws the numbers.
pub struct VoiceMonitorServer<R> {
    sessions: HashMap<usize, R>,
    rng: ThreadRng,
}

impl<R> View for VoiceMonitorServer<R> {
    type V = Map<usize, R>;

    closed spec fn view(&self) -> Map<usize, R> {
        self.sessions@
    }
}

impl<R> VoiceMonitorServer<R> {
    /// No session yet.
    pub fn new() -> (r: Self)
        ensures
            r@ == Map::<usize, R>::empty(),
    {
        VoiceMonitorServer { sessions: HashMap::new(), rng: thread_rng() }
    }

    /// Lets `addr` listen under a random number, which it returns; a session
    /// that had drawn the same number before is replaced.
    pub fn register(&mut self, addr: R) -> (id: usize)
        ensures
            final(self)@ == old(self)@.insert(id, addr),
    {
        broadcast use vstd::std_specs::hash::group_hash_axioms;

        let id = random_usize(&mut self.rng);
        self.sessions.insert(id, addr);
        id
    }

    /// Stops the session `id` from listening.
    pub fn unregister(&mut self, id: usize)
        ensures
            final(self)@ == old(self)@.remove(id),
    {
        broadcast use vstd::std_specs::hash::group_hash_axioms;

        self.sessions.remove(&id);
    }

    /// The listener of session `id`, if it listens.
    pub fn recipient(&self, id: usize) -> (r: Option<&R>)
        ensures
            match r {
                Some(a) => self@.contains_key(id) && *a == self@[id],
                None => !self@.contains_key(id),
            },
    {
        broadcast use vstd::std_specs::hash::group_hash_axioms;

        self.sessions.get(&id)
    }

    /// The numbers of all listening sessions, each once.
    pub fn session_ids(&self) -> (r: Vec<usize>)
        ensures
            r@.no_duplicates(),
            forall|id: usize| #[trigger] r@.contains(id) <==> self@.contains_key(id),
    {
        broadcast use vstd::std_specs::hash::group_hash_axioms;

        let ghost all = vstd::std_specs::hash::spec_keys_iter(&self.sessions).remaining();
        let mut ids: Vec<usize> = Vec::new();
        for k in it: self.sessions.keys()
            invariant
                it.seq() == all,
                ids@ == all.take(it.index()).unref(),
        {
            ids.push(*k);
            assert(all.take(it.index() + 1).unref() =~= all.take(it.index()).unref().push(*k));
        }
        assert(ids@ =~= all.unref());
        assert(all.unref().to_set() == self@.dom());
        assert(all.unref().no_duplicates());
        ids
    }
}

/// A session that registers is reached under the number it got until it
/// unregisters, and then no longer; the other sessions are left as they were.
pub proof fn law_register_unregister<R>(before: Map<usize, R>, id: usize, addr: R, other: usize)
    requires
        other != id,
    ensures
        before.insert(id, addr).contains_key(id),
        before.insert(id, addr)[id] == addr,
        !before.insert(id, addr).remove(id).contains_key(id),
        before.insert(id, addr).remove(id).contains_key(other) == before.contains_key(other),
        before.contains_key(other) ==> before.insert(id, addr).remove(id)[other] == before[other],
{
}

} // verus!
