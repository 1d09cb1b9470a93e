//! Laws of what the server keeps: locks and running models.

use vstd::prelude::*;

use crate::cmd::serve::engine::EngineKind;
use crate::cmd::serve::registry::{KeyedLocks, ModelManager, RunningModel};
use crate::keyed::TextMap;
use crate::laws::replies;

verus! {

/// A key that has a lock keeps it, whatever fresh one is offered; one that has none
/// gets the fresh one; no other key is touched.
pub proof fn law_locks_are_kept<L>(locks: &mut KeyedLocks<L>, key: &str, fresh: L)
    requires
        call_ensures(KeyedLocks::<L>::keyed_lock, (locks, key, fresh), ()),
    ensures
        final(locks)@.contains_key(key@),
        old(locks)@.contains_key(key@) ==> final(locks)@[key@] == old(locks)@[key@],
        !old(locks)@.contains_key(key@) ==> final(locks)@[key@] == fresh,
        forall|k: Seq<char>|
            k != key@ ==> (#[trigger] final(locks)@.contains_key(k) <==> old(locks)@.contains_key(k))
                && (old(locks)@.contains_key(k) ==> final(locks)@[k] == old(locks)@[k]),
{
}

/// A lock goes exactly where nobody but the registry holds it; no other key is
/// touched.
pub proof fn law_locks_are_let_go<L>(locks: &mut KeyedLocks<L>, key: &str, holders: usize)
    requires
        call_ensures(KeyedLocks::<L>::release_keyed_lock, (locks, key, holders), ()),
    ensures
        holders <= 1 ==> !final(locks)@.contains_key(key@),
        holders > 1 ==> final(locks)@ == old(locks)@,
        forall|k: Seq<char>|
            k != key@ ==> (#[trigger] final(locks)@.contains_key(k) <==> old(locks)@.contains_key(k))
                && (old(locks)@.contains_key(k) ==> final(locks)@[k] == old(locks)@[k]),
{
}

/// The lock of a key is the one that it has; a new registry has none.
pub proof fn law_locks_are_found<L>(
    locks: &KeyedLocks<L>,
    key: &str,
    r: Option<&L>,
    fresh: KeyedLocks<L>,
)
    requires
        call_ensures(KeyedLocks::<L>::get, (locks, key), r),
        call_ensures(KeyedLocks::<L>::new, (), fresh),
    ensures
        r is Some <==> locks@.contains_key(key@),
        r is Some ==> *r.unwrap() == locks@[key@],
        !fresh@.contains_key(key@),
{
}

/// A model runs on its port as long as its process lives; one whose process has
/// ended is forgotten, and no other.
pub proof fn law_running_models<P>(
    models: &mut ModelManager<P>,
    model: &str,
    alive: bool,
    r: Option<u16>,
)
    requires
        call_ensures(ModelManager::<P>::check_running, (models, model, alive), r),
    ensures
        r is Some <==> old(models)@.contains_key(model@) && alive,
        r is Some ==> r.unwrap() == old(models)@[model@].port && final(models)@ == old(models)@,
        r is None ==> !final(models)@.contains_key(model@),
        forall|k: Seq<char>|
            k != model@ ==> (#[trigger] final(models)@.contains_key(k) <==> old(models)@.contains_key(k))
                && (old(models)@.contains_key(k) ==> final(models)@[k] == old(models)@[k]),
{
}

/// The process of a model is its own: what is done to it changes nothing else.
pub proof fn law_processes_of_models<P>(
    models: &mut ModelManager<P>,
    model: &str,
    r: Option<&mut P>,
)
    requires
        call_ensures(ModelManager::<P>::process_mut, (models, model), r),
    ensures
        r is Some <==> old(models)@.contains_key(model@),
        r is Some ==> *r.unwrap() == old(models)@[model@].process,
        forall|k: Seq<char>|
            (#[trigger] final(models)@.contains_key(k)) <==> old(models)@.contains_key(k),
        forall|k: Seq<char>|
            k != model@ && #[trigger] old(models)@.contains_key(k)
                ==> final(models)@[k] == old(models)@[k],
        r is Some ==> final(models)@[model@].port == old(models)@[model@].port,
{
}

/// A model that is published runs under its name, in place of one that did; no other
/// is touched.
pub proof fn law_published_models<P>(
    models: &mut ModelManager<P>,
    model: String,
    running: RunningModel<P>,
)
    requires
        call_ensures(ModelManager::<P>::publish, (models, model, running), ()),
    ensures
        final(models)@.contains_key(model@),
        final(models)@[model@] == running,
        forall|k: Seq<char>|
            k != model@ ==> (#[trigger] final(models)@.contains_key(k) <==> old(models)@.contains_key(k))
                && (old(models)@.contains_key(k) ==> final(models)@[k] == old(models)@[k]),
{
}

/// A model that is unloaded is handed back and does not run any more; no other is
/// touched.
pub proof fn law_unloaded_models<P>(
    models: &mut ModelManager<P>,
    model: &str,
    r: Option<RunningModel<P>>,
)
    requires
        call_ensures(ModelManager::<P>::unload, (models, model), r),
    ensures
        !final(models)@.contains_key(model@),
        r is Some <==> old(models)@.contains_key(model@),
        r is Some ==> r.unwrap() == old(models)@[model@],
        forall|k: Seq<char>|
            k != model@ ==> (#[trigger] final(models)@.contains_key(k) <==> old(models)@.contains_key(k))
                && (old(models)@.contains_key(k) ==> final(models)@[k] == old(models)@[k]),
{
}

/// No model runs once all were unloaded, nor in a new registry.
pub proof fn law_no_models<P>(
    models: &mut ModelManager<P>,
    model: Seq<char>,
    fresh: ModelManager<P>,
)
    requires
        call_ensures(ModelManager::<P>::clear, (models,), ()),
        call_ensures(ModelManager::<P>::new, (), fresh),
    ensures
        !final(models)@.contains_key(model),
        !fresh@.contains_key(model),
{
}

/// A model is loaded exactly where it is among those that run.
pub proof fn law_loaded_models<P>(models: &ModelManager<P>, model: &str, r: bool)
    requires
        call_ensures(ModelManager::<P>::is_loaded, (models, model), r),
    ensures
        r <==> models@.contains_key(model@),
{
}

/// Each place of the list of running models holds one of them, under its name; no
/// model is there twice, and none is left out.
pub proof fn law_running_models_are_listed<P>(
    models: &ModelManager<P>,
    n: usize,
    i: usize,
    j: usize,
    a: (&String, &RunningModel<P>),
    b: (&String, &RunningModel<P>),
    name: Seq<char>,
)
    requires
        models.wf(),
        call_ensures(ModelManager::<P>::len, (models,), n),
        i < n,
        j < n,
        call_ensures(ModelManager::<P>::entry, (models, i), a),
        call_ensures(ModelManager::<P>::entry, (models, j), b),
    ensures
        models@.contains_key(a.0@),
        *a.1 == models@[a.0@],
        i != j ==> a.0@ != b.0@,
        models@.contains_key(name) <==> models.names().contains(name),
        models.names().len() == n,
{
    models.law_every_running_model_is_listed_once();
}

/// A model that has just come to run is kept with all that is known of it.
pub proof fn law_started_models<P>(
    process: P,
    kind: EngineKind,
    port: u16,
    digest: String,
    size: u64,
    r: RunningModel<P>,
)
    requires
        call_ensures(RunningModel::<P>::started, (process, kind, port, digest, size), r),
    ensures
        r.process == process,
        r.kind == kind,
        r.port == port,
        r.digest@ == digest@,
        r.size == size,
        replies::is_of_now(r.started_at@),
{
}

/// A map of texts holds what was last put under a key, and nothing else changes by
/// it; a new one holds nothing.
pub proof fn law_maps_of_texts(
    m: TextMap,
    key: String,
    value: String,
    at: &str,
    fresh: TextMap,
    r: TextMap,
    s: Option<&String>,
)
    requires
        call_ensures(TextMap::with, (m, key, value), r),
        call_ensures(TextMap::get, (&r, at), s),
        call_ensures(TextMap::new, (), fresh),
    ensures
        at@ == key@ ==> s is Some && s.unwrap()@ == value@,
        at@ != key@ ==> (s is Some <==> m@.contains_key(at@)) && (s is Some ==> s.unwrap()@
            == m@[at@]),
        !fresh@.contains_key(at@),
{
}

} // verus!
