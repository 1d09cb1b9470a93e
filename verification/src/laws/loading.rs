//! Laws of loading a model.

use vstd::prelude::*;

use crate::cmd::serve::load;
use crate::cmd::serve::load::{LoadAction, LoadEvent, LoadView, Loader, Phase};
use crate::shortnames;
use crate::shortnames::Aliases;
use crate::storage;
use crate::storage::Descriptor;

verus! {

/// The name that a descriptor of the store has for its model, if it has one.
pub open spec fn name_in(d: Descriptor) -> Option<Seq<char>> {
    if d.annotations is Some && d.annotations.unwrap()@.contains_key(
        "org.opencontainers.image.ref.name"@,
    ) {
        Some(d.annotations.unwrap()@["org.opencontainers.image.ref.name"@])
    } else {
        None
    }
}

/// Whatever a model is called: one that the store does not have, asked behind the
/// lock, is pulled, under the name and the lock that it has.
pub proof fn law_missing_models_are_pulled(l: &mut Loader, r: LoadAction)
    requires
        l@.phase is Storing,
        call_ensures(Loader::step, (l, LoadEvent::Found(None)), r),
    ensures
        r == LoadAction::Pull,
        final(l)@.phase is Pulling,
        final(l)@.name == old(l)@.name,
        final(l)@.lock == old(l)@.lock,
{
}

/// A model that the store has is not pulled: it is looked for once more among
/// those that run.
pub proof fn law_stored_models_are_not_pulled(l: &mut Loader, d: Descriptor, r: LoadAction)
    requires
        l@.phase is Storing,
        call_ensures(Loader::step, (l, LoadEvent::Found(Some(d))), r),
    ensures
        r == LoadAction::Look,
        final(l)@.phase is LookingRenamed,
{
}

/// A model that was pulled is asked for in the store, whatever it is called, and
/// then looked for among those that run.
pub proof fn law_pulled_models_are_asked_for(l: &mut Loader, r: LoadAction)
    requires
        l@.phase is Pulling,
        call_ensures(Loader::step, (l, LoadEvent::Pulled), r),
    ensures
        r == LoadAction::Find,
        final(l)@.phase is Renaming,
{
}

/// What the store has for the name first asked for, and for a model just pulled,
/// never keeps a model from being looked for among those that run.
pub proof fn law_names_are_looked_for(l: &mut Loader, found: Option<Descriptor>, r: LoadAction)
    requires
        l@.phase is Naming || l@.phase is Renaming,
        call_ensures(Loader::step, (l, LoadEvent::Found(found)), r),
    ensures
        r == LoadAction::Look,
        old(l)@.phase is Naming ==> final(l)@.phase is Looking,
        old(l)@.phase is Renaming ==> final(l)@.phase is LookingRenamed,
{
}

/// A model goes by the name that the store has for it, from when the store tells
/// one; nothing else changes its name.
pub proof fn law_names_come_from_the_store(l: &mut Loader, e: LoadEvent, r: LoadAction)
    requires
        l@.expects(e),
        call_ensures(Loader::step, (l, e), r),
    ensures
        e matches LoadEvent::Found(Some(d)) && name_in(d) is Some ==> final(l)@.name == name_in(
            e->Found_0.unwrap(),
        ).unwrap(),
        !(e matches LoadEvent::Found(Some(d)) && name_in(d) is Some) ==> final(l)@.name == old(l)@.name,
{
}

/// The lock of a loading is that of the name that the model has when the lock is
/// got; nothing else gives or takes a lock.
pub proof fn law_locks_are_of_the_name(l: &mut Loader, e: LoadEvent, r: LoadAction)
    requires
        l@.expects(e),
        call_ensures(Loader::step, (l, e), r),
    ensures
        e is Locked ==> final(l)@.lock == Some(old(l)@.name),
        !(e is Locked) ==> final(l)@.lock == old(l)@.lock,
{
}

/// Whenever a model is found to run, that is the end: it is served from the port
/// on which it runs, and none is started.
pub proof fn law_a_running_model_ends_the_loading(l: &mut Loader, port: u16, r: LoadAction)
    requires
        l@.expects(LoadEvent::Port(Some(port))),
        call_ensures(Loader::step, (l, LoadEvent::Port(Some(port))), r),
    ensures
        r == (LoadAction::Done { port, fresh: false }),
        final(l)@.phase is Running,
{
}

/// A model that does not run is locked, asked for in the store or launched, by
/// which of the three looks it was.
pub proof fn law_a_look_that_finds_nothing(l: &mut Loader, r: LoadAction)
    requires
        l@.expects(LoadEvent::Port(None)),
        call_ensures(Loader::step, (l, LoadEvent::Port(None)), r),
    ensures
        old(l)@.phase is Looking ==> r == LoadAction::Lock && final(l)@.phase is Locking,
        old(l)@.phase is LookingLocked ==> r == LoadAction::Find && final(l)@.phase is Storing,
        old(l)@.phase is LookingRenamed ==> r == LoadAction::Launch && final(l)@.phase is Launching,
{
}

/// Behind the lock a model is looked for again before anything else is done.
pub proof fn law_behind_the_lock_is_looked_again(l: &mut Loader, r: LoadAction)
    requires
        l@.phase is Locking,
        call_ensures(Loader::step, (l, LoadEvent::Locked), r),
    ensures
        r == LoadAction::Look,
        final(l)@.phase is LookingLocked,
{
}

/// An engine that was launched serves the model from its port, as a new one.
pub proof fn law_a_launch_ends_the_loading(l: &mut Loader, port: u16, r: LoadAction)
    requires
        l@.phase is Launching,
        call_ensures(Loader::step, (l, LoadEvent::Launched(port)), r),
    ensures
        r == (LoadAction::Done { port, fresh: true }),
        final(l)@.phase is Running,
{
}

/// What each phase waits for.
pub proof fn law_phases_wait_for_their_answer(l: LoadView, e: LoadEvent)
    ensures
        l.phase is Naming || l.phase is Storing || l.phase is Renaming ==> l.expects(e) == (
        e is Found),
        l.phase is Looking || l.phase is LookingLocked || l.phase is LookingRenamed ==> l.expects(e)
            == (e is Port),
        l.phase is Locking ==> l.expects(e) == (e is Locked),
        l.phase is Pulling ==> l.expects(e) == (e is Pulled),
        l.phase is Launching ==> l.expects(e) == (e is Launched),
        l.phase is Running ==> !l.expects(e),
{
}

/// A loading begins without a lock, by asking the store, and under the name with a
/// tag that the model of the request stands for.
pub proof fn law_loadings_begin(
    model: &str,
    aliases: &Aliases,
    r: Loader,
    resolved: String,
    name: &str,
    tagged: String,
)
    requires
        call_ensures(Loader::begin, (model, aliases), r),
        call_ensures(shortnames::resolve_ollama_api, (model, aliases), resolved),
        name@ == resolved@,
        call_ensures(storage::default_tag, (name,), tagged),
    ensures
        r@.phase is Naming,
        r@.lock is None,
        r@.name == tagged@,
{
}

/// A loading tells its name, its lock and how far it has come.
pub proof fn law_loadings_tell(
    l: &Loader,
    name: &str,
    lock: Option<&String>,
    phase: Phase,
)
    requires
        call_ensures(Loader::name, (l,), name),
        call_ensures(Loader::lock_key, (l,), lock),
        call_ensures(Loader::phase, (l,), phase),
    ensures
        name@ == l@.name,
        lock is Some <==> l@.lock is Some,
        lock is Some ==> l@.lock == Some(lock.unwrap()@),
        phase == l@.phase,
{
}

/// Whether, behind a lock, the store was found to have the model or the model was
/// pulled.
pub open spec fn is_there(events: Seq<LoadEvent>) -> bool {
    exists|i: int, j: int|
        #![trigger events[i], events[j]]
        0 <= i < j < events.len() && events[i] is Locked && (events[j] is Pulled || (
        events[j] is Found && events[j]->Found_0 is Some))
}

/// Whether the lock was got.
pub open spec fn is_locked(events: Seq<LoadEvent>) -> bool {
    exists|i: int| 0 <= i < events.len() && #[trigger] events[i] is Locked
}

proof fn lemma_more_events(events: Seq<LoadEvent>)
    requires
        events.len() > 0,
    ensures
        is_locked(events.drop_last()) ==> is_locked(events),
        is_there(events.drop_last()) ==> is_there(events),
{
    let before = events.drop_last();
    if is_locked(before) {
        let i = choose|i: int| 0 <= i < before.len() && #[trigger] before[i] is Locked;
        assert(events[i] is Locked);
    }
    if is_there(before) {
        let (i, j) = choose|i: int, j: int|
            #![trigger before[i], before[j]]
            0 <= i < j < before.len() && before[i] is Locked && (before[j] is Pulled || (
            before[j] is Found && before[j]->Found_0 is Some));
        assert(events[i] == before[i] && events[j] == before[j]);
    }
}

proof fn lemma_there(l: LoadView, events: Seq<LoadEvent>)
    requires
        load::is_begun(l),
        load::is_history(l, events),
    ensures
        ({
            let phase = load::after(l, events).phase;
            &&& phase is LookingLocked || phase is Storing || phase is Pulling ==> is_locked(events)
            &&& phase is Renaming || phase is LookingRenamed || phase is Launching ==> is_there(
                events,
            )
        }),
    decreases events.len(),
{
    if events.len() > 0 {
        let before = events.drop_last();
        lemma_there(l, before);
        lemma_more_events(events);
        let n = events.len() - 1;
        let now = load::after(l, events);
        let then = load::after(l, before);
        assert(now == then.step(events[n]).0);
        if then.phase is Locking {
            assert(events[n] is Locked);
        }
        if now.phase is Renaming || (then.phase is Storing && now.phase is LookingRenamed) {
            let i = choose|i: int| 0 <= i < before.len() && #[trigger] before[i] is Locked;
            assert(events[i] is Locked && i < n);
            assert(events[n] is Pulled || (events[n] is Found && events[n]->Found_0 is Some)
                || is_there(events));
        }
    }
}

/// An engine is launched only for a model that is there: behind the lock, the store
/// was found to have it, or it was pulled.
pub proof fn law_only_what_is_there_is_launched(l: LoadView, events: Seq<LoadEvent>)
    requires
        load::is_begun(l),
        load::is_history(l, events),
        events.len() > 0,
        load::after(l, events.drop_last()).step(events.last()).1 == LoadAction::Launch,
    ensures
        is_there(events),
{
    lemma_there(l, events.drop_last());
    lemma_more_events(events);
}

} // verus!
