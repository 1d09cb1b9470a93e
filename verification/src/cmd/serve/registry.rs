//! What the server keeps between requests: the locks of models, and the models
//! that run.

use vstd::prelude::*;

use crate::clock;
use crate::cmd::serve::engine::EngineKind;
use crate::keyed::KeyedMap;

verus! {

// ---------------------------------------------------------------------------
// Locks
// ---------------------------------------------------------------------------

/// A lock for each model that is being worked on, of any type whose copies are
/// the same lock.
pub struct KeyedLocks<L> {
    locks: KeyedMap<L>,
}

/// Locks among which a key has one: the one that it had, or else the fresh one.
pub open spec fn with_lock<L>(locks: Map<Seq<char>, L>, key: Seq<char>, fresh: L) -> Map<
    Seq<char>,
    L,
> {
    if locks.contains_key(key) {
        locks
    } else {
        locks.insert(key, fresh)
    }
}

/// Locks without that of a key, unless it is held by others than the registry.
pub open spec fn without_lock<L>(locks: Map<Seq<char>, L>, key: Seq<char>, holders: nat) -> Map<
    Seq<char>,
    L,
> {
    if holders <= 1 {
        locks.remove(key)
    } else {
        locks
    }
}

impl<L> View for KeyedLocks<L> {
    type V = Map<Seq<char>, L>;

    closed spec fn view(&self) -> Map<Seq<char>, L> {
        self.locks@
    }
}

impl<L> KeyedLocks<L> {
    #[verifier::type_invariant]
    closed spec fn inv(self) -> bool {
        self.locks.wf()
    }

    pub fn new() -> (r: Self)
        ensures
            r@ == Map::<Seq<char>, L>::empty(),
    {
        KeyedLocks { locks: KeyedMap::new() }
    }

    /// The lock of a key, if there is one.
    pub fn get(&self, key: &str) -> (r: Option<&L>)
        ensures
            match r {
                Some(l) => self@.contains_key(key@) && *l == self@[key@],
                None => !self@.contains_key(key@),
            },
    {
        proof {
            use_type_invariant(self);
        }
        self.locks.get(key)
    }

    /// Makes sure that a key has a lock: the one that it has stays, and only
    /// without one it gets the fresh one.
    pub fn keyed_lock(&mut self, key: &str, fresh: L)
        ensures
            final(self)@ == with_lock(old(self)@, key@, fresh),
    {
        proof {
            use_type_invariant(&*self);
        }
        let mut locks: KeyedMap<L> = KeyedMap::new();
        std::mem::swap(&mut locks, &mut self.locks);
        if !locks.contains(key) {
            locks.insert(key.to_owned(), fresh);
        }
        self.locks = locks;
    }

    /// Takes a key's lock out where nobody else holds it; `holders` counts those
    /// that do, and this registry.
    pub fn release_keyed_lock(&mut self, key: &str, holders: usize)
        ensures
            final(self)@ == without_lock(old(self)@, key@, holders as nat),
    {
        proof {
            use_type_invariant(&*self);
        }
        if holders <= 1 {
            let mut locks: KeyedMap<L> = KeyedMap::new();
            std::mem::swap(&mut locks, &mut self.locks);
            locks.remove(key);
            self.locks = locks;
        }
    }
}

/// Two requests for one model get the same lock.
pub proof fn law_same_key_same_lock<L>(locks: Map<Seq<char>, L>, key: Seq<char>, a: L, b: L)
    ensures
        with_lock(with_lock(locks, key, a), key, b) == with_lock(locks, key, a),
        with_lock(locks, key, a).contains_key(key),
{
}

/// Working on one model leaves the locks of all others alone.
pub proof fn law_locks_are_per_key<L>(
    locks: Map<Seq<char>, L>,
    key: Seq<char>,
    other: Seq<char>,
    fresh: L,
    holders: nat,
)
    requires
        key != other,
    ensures
        ({
            let a = with_lock(locks, key, fresh);
            let b = without_lock(locks, key, holders);
            &&& a.contains_key(other) == locks.contains_key(other)
            &&& b.contains_key(other) == locks.contains_key(other)
            &&& locks.contains_key(other) ==> a[other] == locks[other] && b[other] == locks[other]
        }),
{
}

/// A lock that somebody holds stays, and one that nobody holds goes.
pub proof fn law_release_drops_only_unheld_locks<L>(
    locks: Map<Seq<char>, L>,
    key: Seq<char>,
    holders: nat,
)
    requires
        locks.contains_key(key),
    ensures
        without_lock(locks, key, holders).contains_key(key) <==> holders > 1,
        holders > 1 ==> without_lock(locks, key, holders)[key] == locks[key],
{
}

/// Whether no two keys have the same lock.
pub open spec fn are_apart<L>(locks: Map<Seq<char>, L>) -> bool {
    forall|a: Seq<char>, b: Seq<char>|
        #![trigger locks[a], locks[b]]
        locks.contains_key(a) && locks.contains_key(b) && a != b ==> locks[a] != locks[b]
}

/// Whether a lock is that of no key.
pub open spec fn is_fresh<L>(locks: Map<Seq<char>, L>, lock: L) -> bool {
    forall|a: Seq<char>| locks.contains_key(a) ==> #[trigger] locks[a] != lock
}

/// No two models ever share a lock: where none did, and the fresh lock is nobody's,
/// none does once a key was given its lock, nor once a lock was taken out. So the
/// lock that a request gets is one that is held already if and only if both are for
/// the same model, and every other entry stays as it was.
pub proof fn law_different_keys_different_locks<L>(
    locks: Map<Seq<char>, L>,
    held: Seq<char>,
    key: Seq<char>,
    fresh: L,
    holders: nat,
)
    requires
        are_apart(locks),
        is_fresh(locks, fresh),
        locks.contains_key(held),
    ensures
        are_apart(with_lock(locks, key, fresh)),
        are_apart(without_lock(locks, key, holders)),
        with_lock(locks, key, fresh).contains_key(key),
        with_lock(locks, key, fresh)[key] == locks[held] <==> key == held,
        with_lock(locks, key, fresh).remove(key) == locks.remove(key),
{
}

/// What happens to a registry of locks.
pub enum LockStep<L> {
    /// A key is asked for its lock, with a lock that was made for it.
    Take { key: Seq<char>, fresh: L },
    /// A key's lock is let go.
    Release { key: Seq<char>, holders: nat },
}

/// The locks of a registry that was empty, after some steps.
pub open spec fn after<L>(steps: Seq<LockStep<L>>) -> Map<Seq<char>, L>
    decreases steps.len(),
{
    if steps.len() == 0 {
        Map::empty()
    } else {
        let before = after(steps.drop_last());
        match steps.last() {
            LockStep::Take { key, fresh } => with_lock(before, key, fresh),
            LockStep::Release { key, holders } => without_lock(before, key, holders),
        }
    }
}

/// Whether every lock that was made for a step is another one.
pub open spec fn are_made_anew<L>(steps: Seq<LockStep<L>>) -> bool {
    forall|i: int, j: int|
        #![trigger steps[i], steps[j]]
        0 <= i < j < steps.len() && steps[i] is Take && steps[j] is Take
            ==> steps[i]->Take_fresh != steps[j]->Take_fresh
}

/// Whether a lock was made for a key in some step.
pub open spec fn is_made_for<L>(steps: Seq<LockStep<L>>, key: Seq<char>, lock: L) -> bool {
    exists|i: int|
        0 <= i < steps.len() && #[trigger] steps[i] == (LockStep::Take { key, fresh: lock })
}

/// Whether a key's lock is held on, from a step to another: as often as it is let
/// go, others than the registry hold it.
pub open spec fn is_held_on<L>(
    steps: Seq<LockStep<L>>,
    from: int,
    to: int,
    key: Seq<char>,
) -> bool {
    forall|i: int|
        from <= i < to && (#[trigger] steps[i] matches LockStep::Release { key: k, .. } && k == key)
            ==> steps[i]->holders > 1
}

proof fn lemma_locks_are_made<L>(steps: Seq<LockStep<L>>)
    ensures
        forall|k: Seq<char>| #[trigger]
            after(steps).contains_key(k) ==> is_made_for(steps, k, after(steps)[k]),
    decreases steps.len(),
{
    if steps.len() > 0 {
        let before = steps.drop_last();
        lemma_locks_are_made(before);
        assert forall|k: Seq<char>| #[trigger] after(steps).contains_key(k) implies is_made_for(
            steps,
            k,
            after(steps)[k],
        ) by {
            let lock = after(steps)[k];
            if after(before).contains_key(k) && after(before)[k] == lock {
                let i = choose|i: int|
                    0 <= i < before.len() && #[trigger] before[i] == (LockStep::Take {
                        key: k,
                        fresh: lock,
                    });
                assert(steps[i] == before[i]);
            } else {
                assert(steps[steps.len() - 1] == (LockStep::Take { key: k, fresh: lock }));
            }
        }
    }
}

proof fn lemma_lock_stays<L>(steps: Seq<LockStep<L>>, n: int, m: int, key: Seq<char>)
    requires
        0 <= n <= m <= steps.len(),
        after(steps.take(n)).contains_key(key),
        is_held_on(steps, n, m, key),
    ensures
        after(steps.take(m)).contains_key(key),
        after(steps.take(m))[key] == after(steps.take(n))[key],
    decreases m - n,
{
    if n < m {
        lemma_lock_stays(steps, n, m - 1, key);
        assert(steps.take(m).drop_last() =~= steps.take(m - 1));
        assert(steps.take(m).last() == steps[m - 1]);
    }
}

/// Whatever has happened to a registry since it was empty: where one step gave a
/// key its lock, and that lock is still held, a later step gives the same lock if
/// and only if it is for the same key. Afterwards the registry holds the given lock
/// under that key, and every other entry is as it was.
pub proof fn law_same_lock_iff_same_key<L>(steps: Seq<LockStep<L>>, i: int, j: int)
    requires
        are_made_anew(steps),
        0 <= i < j < steps.len(),
        steps[i] is Take,
        steps[j] is Take,
        is_held_on(steps, i + 1, j, steps[i]->Take_key),
    ensures
        ({
            let k1 = steps[i]->Take_key;
            let k2 = steps[j]->Take_key;
            let then = after(steps.take(i + 1));
            let now = after(steps.take(j + 1));
            &&& then.contains_key(k1) && now.contains_key(k1) && now.contains_key(k2)
            &&& then[k1] == now[k2] <==> k1 == k2
            &&& now.remove(k2) == after(steps.take(j)).remove(k2)
        }),
{
    let k1 = steps[i]->Take_key;
    let k2 = steps[j]->Take_key;
    let now = after(steps.take(j + 1));
    assert(steps.take(i + 1).drop_last() =~= steps.take(i));
    assert(steps.take(i + 1).last() == steps[i]);
    assert(steps.take(j + 1).drop_last() =~= steps.take(j));
    assert(steps.take(j + 1).last() == steps[j]);
    lemma_lock_stays(steps, i + 1, j, k1);
    assert(now.remove(k2) =~= after(steps.take(j)).remove(k2));
    if k1 != k2 {
        let part = steps.take(j + 1);
        lemma_locks_are_made(part);
        assert(after(part).contains_key(k1) && after(part).contains_key(k2));
        assert(is_made_for(part, k1, now[k1]));
        assert(is_made_for(part, k2, now[k2]));
        let a = choose|a: int|
            0 <= a < part.len() && #[trigger] part[a] == (LockStep::Take {
                key: k1,
                fresh: now[k1],
            });
        let b = choose|b: int|
            0 <= b < part.len() && #[trigger] part[b] == (LockStep::Take {
                key: k2,
                fresh: now[k2],
            });
        assert(steps[a] == part[a] && steps[b] == part[b]);
        assert(a != b);
    }
}

// ---------------------------------------------------------------------------
// Running models
// ---------------------------------------------------------------------------

/// A model that runs, under a process of any type.
pub struct RunningModel<P> {
    pub process: P,
    pub kind: EngineKind,
    pub port: u16,
    pub digest: String,
    pub size: u64,
    pub started_at: String,
}

impl<P> RunningModel<P> {
    /// A model that has just come to run, stamped with the clock.
    pub fn started(process: P, kind: EngineKind, port: u16, digest: String, size: u64) -> (r: Self)
        ensures
            r.process == process,
            r.kind == kind,
            r.port == port,
            r.digest == digest,
            r.size == size,
            clock::is_stamp(r.started_at@),
    {
        RunningModel { process, kind, port, digest, size, started_at: clock::now_rfc3339() }
    }
}

/// The models that run, by their names.
pub struct ModelManager<P> {
    running: KeyedMap<RunningModel<P>>,
}

impl<P> View for ModelManager<P> {
    type V = Map<Seq<char>, RunningModel<P>>;

    closed spec fn view(&self) -> Map<Seq<char>, RunningModel<P>> {
        self.running@
    }
}

impl<P> ModelManager<P> {
    pub closed spec fn wf(self) -> bool {
        self.running.wf()
    }

    /// The names of the models, in some order.
    pub closed spec fn names(self) -> Seq<Seq<char>> {
        self.running.keys()
    }

    pub fn new() -> (r: Self)
        ensures
            r.wf(),
            r@ == Map::<Seq<char>, RunningModel<P>>::empty(),
    {
        ModelManager { running: KeyedMap::new() }
    }

    /// The process of a model, to be asked whether it lives.
    pub fn process_mut(&mut self, model: &str) -> (r: Option<&mut P>)
        requires
            old(self).wf(),
        ensures
            final(self).wf(),
            match r {
                Some(p) => {
                    &&& old(self)@.contains_key(model@) && *p == old(self)@[model@].process
                    &&& final(self)@ == old(self)@.insert(
                        model@,
                        RunningModel { process: *final(p), ..old(self)@[model@] },
                    )
                },
                None => !old(self)@.contains_key(model@) && *final(self) == *old(self),
            },
    {
        match self.running.get_mut(model) {
            Some(m) => Some(&mut m.process),
            None => None,
        }
    }

    /// The port of a model that runs, given whether its process lives: one whose
    /// process has ended does not run any more.
    pub fn check_running(&mut self, model: &str, alive: bool) -> (r: Option<u16>)
        requires
            old(self).wf(),
        ensures
            final(self).wf(),
            if old(self)@.contains_key(model@) && alive {
                r == Some(old(self)@[model@].port) && final(self)@ == old(self)@
            } else {
                r is None && final(self)@ == old(self)@.remove(model@)
            },
    {
        let ghost before = self@;
        if alive {
            match self.running.get(model) {
                Some(m) => Some(m.port),
                None => {
                    assert(before.remove(model@) =~= before);
                    None
                },
            }
        } else {
            self.running.remove(model);
            None
        }
    }

    /// A model runs.
    pub fn publish(&mut self, model: String, running: RunningModel<P>)
        requires
            old(self).wf(),
        ensures
            final(self).wf(),
            final(self)@ == old(self)@.insert(model@, running),
    {
        self.running.insert(model, running);
    }

    /// A model is not to run any more.
    pub fn unload(&mut self, model: &str) -> (r: Option<RunningModel<P>>)
        requires
            old(self).wf(),
        ensures
            final(self).wf(),
            final(self)@ == old(self)@.remove(model@),
            match r {
                Some(m) => old(self)@.contains_key(model@) && m == old(self)@[model@],
                None => !old(self)@.contains_key(model@),
            },
    {
        self.running.remove(model)
    }

    /// No model is to run any more.
    pub fn clear(&mut self)
        ensures
            final(self).wf(),
            final(self)@ == Map::<Seq<char>, RunningModel<P>>::empty(),
    {
        self.running.clear();
    }

    pub fn is_loaded(&self, model: &str) -> (r: bool)
        requires
            self.wf(),
        ensures
            r == self@.contains_key(model@),
    {
        self.running.contains(model)
    }

    /// The number of models.
    pub fn len(&self) -> (r: usize)
        ensures
            r == self.names().len(),
    {
        self.running.len()
    }

    /// The model at a place in the order.
    pub fn entry(&self, i: usize) -> (r: (&String, &RunningModel<P>))
        requires
            self.wf(),
            i < self.names().len(),
        ensures
            r.0@ == self.names()[i as int],
            self@.contains_key(r.0@),
            *r.1 == self@[r.0@],
    {
        self.running.entry(i)
    }

    /// The list of names holds every model that runs, once, and no other.
    pub proof fn law_every_running_model_is_listed_once(self)
        requires
            self.wf(),
        ensures
            self.names().no_duplicates(),
            forall|name: Seq<char>| #[trigger]
                self@.contains_key(name) <==> self.names().contains(name),
    {
        self.running.lemma_keys();
    }
}

} // verus!
