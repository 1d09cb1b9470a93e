//! Loading a model: from the name in a request to a port on which an engine
//! serves it.
//!
//! The store, the locks and the processes are the caller's. A [`Loader`] says what
//! is to be done next, and is told what came of it. A model is looked for before
//! its lock is taken and once more behind it, so that two requests for one model
//! start one engine; and once more under the name that the store gives it after it
//! was pulled.

use vstd::prelude::*;

use crate::shortnames;
use crate::shortnames::Aliases;
use crate::shortnames_laws;
use crate::storage;
use crate::storage::Descriptor;
use crate::text;

verus! {

/// How far the loading of a model has come.
#[derive(Debug, Clone, Copy, PartialEq, Eq, Structural)]
pub enum Phase {
    /// The store is asked for the name.
    Naming,
    /// The model may be running.
    Looking,
    /// The lock of the model is waited for.
    Locking,
    /// The model may have come to run in the meantime.
    LookingLocked,
    /// The store is asked whether the model is there.
    Storing,
    /// The model is pulled.
    Pulling,
    /// The store is asked for the name that the model has now.
    Renaming,
    /// The model may be running under that name.
    LookingRenamed,
    /// An engine is started.
    Launching,
    /// The model runs.
    Running,
}

/// What came of what was to be done.
pub enum LoadEvent {
    /// What the store has for the name.
    Found(Option<Descriptor>),
    /// The port on which the model runs, if it does.
    Port(Option<u16>),
    /// The lock was got.
    Locked,
    /// The model was pulled.
    Pulled,
    /// An engine serves the model on a port.
    Launched(u16),
}

/// What is to be done next.
#[derive(Debug, Clone, Copy, PartialEq, Eq, Structural)]
pub enum LoadAction {
    /// The store is to be asked for the model.
    Find,
    /// It is to be found out whether the model runs.
    Look,
    /// The lock of the model is to be got.
    Lock,
    /// The model is to be pulled.
    Pull,
    /// An engine is to be started for the model, and waited for.
    Launch,
    /// Nothing: the model runs on a port; where it was started just now, it is
    /// to be kept in mind.
    Done { port: u16, fresh: bool },
}

/// The state of a loading.
#[verifier::ext_equal]
pub struct LoadView {
    /// The name of the model.
    pub name: Seq<char>,
    /// The name under which the lock was got.
    pub lock: Option<Seq<char>>,
    pub phase: Phase,
}

impl LoadView {
    /// Whether an event answers what is to be done in a phase.
    pub open spec fn expects(self, e: LoadEvent) -> bool {
        match self.phase {
            Phase::Naming | Phase::Storing | Phase::Renaming => e is Found,
            Phase::Looking | Phase::LookingLocked | Phase::LookingRenamed => e is Port,
            Phase::Locking => e is Locked,
            Phase::Pulling => e is Pulled,
            Phase::Launching => e is Launched,
            Phase::Running => false,
        }
    }

    pub open spec fn at(self, phase: Phase) -> LoadView {
        LoadView { phase: phase, ..self }
    }

    pub open spec fn named(self, found: Option<Descriptor>) -> LoadView {
        LoadView { name: storage::canonical(found, self.name), ..self }
    }

    /// What follows from a look at the running models.
    pub open spec fn looked(self, port: Option<u16>, next: Phase, action: LoadAction) -> (
        LoadView,
        LoadAction,
    ) {
        match port {
            Some(p) => (self.at(Phase::Running), LoadAction::Done { port: p, fresh: false }),
            None => (self.at(next), action),
        }
    }

    /// One step of the loading.
    pub open spec fn step(self, e: LoadEvent) -> (LoadView, LoadAction) {
        match (self.phase, e) {
            (Phase::Naming, LoadEvent::Found(d)) => (
                self.named(d).at(Phase::Looking),
                LoadAction::Look,
            ),
            (Phase::Looking, LoadEvent::Port(p)) => self.looked(p, Phase::Locking, LoadAction::Lock),
            (Phase::Locking, _) => (
                (LoadView { lock: Some(self.name), ..self }).at(Phase::LookingLocked),
                LoadAction::Look,
            ),
            (Phase::LookingLocked, LoadEvent::Port(p)) => self.looked(
                p,
                Phase::Storing,
                LoadAction::Find,
            ),
            (Phase::Storing, LoadEvent::Found(d)) => if d is None {
                (self.at(Phase::Pulling), LoadAction::Pull)
            } else {
                (self.named(d).at(Phase::LookingRenamed), LoadAction::Look)
            },
            (Phase::Pulling, _) => (self.at(Phase::Renaming), LoadAction::Find),
            (Phase::Renaming, LoadEvent::Found(d)) => (
                self.named(d).at(Phase::LookingRenamed),
                LoadAction::Look,
            ),
            (Phase::LookingRenamed, LoadEvent::Port(p)) => self.looked(
                p,
                Phase::Launching,
                LoadAction::Launch,
            ),
            (Phase::Launching, LoadEvent::Launched(p)) => (
                self.at(Phase::Running),
                LoadAction::Done { port: p, fresh: true },
            ),
            _ => (self, LoadAction::Find),
        }
    }
}

/// The loading of a model.
pub struct Loader {
    name: String,
    lock: Option<String>,
    phase: Phase,
}

impl View for Loader {
    type V = LoadView;

    closed spec fn view(&self) -> LoadView {
        LoadView {
            name: self.name@,
            lock: match self.lock {
                Some(s) => Some(s@),
                None => None,
            },
            phase: self.phase,
        }
    }
}

/// The name under which a model is first looked for.
pub open spec fn first_name(model: Seq<char>, aliases: Map<Seq<char>, Seq<char>>) -> Seq<char> {
    storage::tagged(shortnames::resolved_ollama(model, aliases))
}

impl Loader {
    /// Starts the loading of the model that a request names. The store is to be
    /// asked for it first.
    pub fn begin(model: &str, aliases: &Aliases) -> (r: Self)
        ensures
            r@ == (LoadView {
                name: first_name(model@, aliases@),
                lock: None,
                phase: Phase::Naming,
            }),
    {
        let resolved = shortnames::resolve_ollama_api(model, aliases);
        Loader { name: storage::default_tag(resolved.as_str()), lock: None, phase: Phase::Naming }
    }

    /// The name of the model.
    pub fn name(&self) -> (r: &str)
        ensures
            r@ == self@.name,
    {
        self.name.as_str()
    }

    /// The name under which the lock was got.
    pub fn lock_key(&self) -> (r: Option<&String>)
        ensures
            match r {
                Some(s) => self@.lock == Some(s@),
                None => self@.lock is None,
            },
    {
        match &self.lock {
            Some(s) => Some(s),
            None => None,
        }
    }

    pub fn phase(&self) -> (r: Phase)
        ensures
            r == self@.phase,
    {
        self.phase
    }

    fn rename(&mut self, found: &Option<Descriptor>)
        ensures
            final(self)@ == old(self)@.named(*found),
    {
        self.name = storage::canonical_ref(found, self.name.as_str());
    }

    fn look(&mut self, port: Option<u16>, next: Phase, action: LoadAction) -> (r: LoadAction)
        ensures
            (final(self)@, r) == old(self)@.looked(port, next, action),
    {
        match port {
            Some(p) => {
                self.phase = Phase::Running;
                LoadAction::Done { port: p, fresh: false }
            },
            None => {
                self.phase = next;
                action
            },
        }
    }

    /// Takes what came of what was to be done, and says what is to be done next.
    pub fn step(&mut self, event: LoadEvent) -> (r: LoadAction)
        requires
            old(self)@.expects(event),
        ensures
            (final(self)@, r) == old(self)@.step(event),
    {
        match (self.phase, event) {
            (Phase::Naming, LoadEvent::Found(d)) => {
                self.rename(&d);
                self.phase = Phase::Looking;
                LoadAction::Look
            },
            (Phase::Looking, LoadEvent::Port(p)) => self.look(p, Phase::Locking, LoadAction::Lock),
            (Phase::Locking, _) => {
                self.lock = Some(self.name.clone());
                self.phase = Phase::LookingLocked;
                LoadAction::Look
            },
            (Phase::LookingLocked, LoadEvent::Port(p)) => self.look(
                p,
                Phase::Storing,
                LoadAction::Find,
            ),
            (Phase::Storing, LoadEvent::Found(d)) => {
                if d.is_none() {
                    self.phase = Phase::Pulling;
                    LoadAction::Pull
                } else {
                    self.rename(&d);
                    self.phase = Phase::LookingRenamed;
                    LoadAction::Look
                }
            },
            (Phase::Pulling, _) => {
                self.phase = Phase::Renaming;
                LoadAction::Find
            },
            (Phase::Renaming, LoadEvent::Found(d)) => {
                self.rename(&d);
                self.phase = Phase::LookingRenamed;
                LoadAction::Look
            },
            (Phase::LookingRenamed, LoadEvent::Port(p)) => self.look(
                p,
                Phase::Launching,
                LoadAction::Launch,
            ),
            (Phase::Launching, LoadEvent::Launched(p)) => {
                self.phase = Phase::Running;
                LoadAction::Done { port: p, fresh: true }
            },
            _ => LoadAction::Find,
        }
    }
}

// ---------------------------------------------------------------------------
// Laws
// ---------------------------------------------------------------------------

/// The place of a phase in their order.
pub open spec fn rank(phase: Phase) -> nat {
    match phase {
        Phase::Naming => 0,
        Phase::Looking => 1,
        Phase::Locking => 2,
        Phase::LookingLocked => 3,
        Phase::Storing => 4,
        Phase::Pulling => 5,
        Phase::Renaming => 6,
        Phase::LookingRenamed => 7,
        Phase::Launching => 8,
        Phase::Running => 9,
    }
}

/// Every answer brings a loading on, so that it ends after nine at most.
pub proof fn law_loading_comes_to_an_end(l: LoadView, e: LoadEvent)
    requires
        l.expects(e),
    ensures
        rank(l.phase) < rank(l.step(e).0.phase) <= 9,
{
}

/// Whether an event answers an action.
pub open spec fn answers(e: LoadEvent, action: LoadAction) -> bool {
    match action {
        LoadAction::Find => e is Found,
        LoadAction::Look => e is Port,
        LoadAction::Lock => e is Locked,
        LoadAction::Pull => e is Pulled,
        LoadAction::Launch => e is Launched,
        LoadAction::Done { .. } => false,
    }
}

/// The answers to an action are exactly the events that a loading can take next,
/// so that a caller who does what is asked can go on to the end.
pub proof fn law_answers_are_expected(l: LoadView, e: LoadEvent, next: LoadEvent)
    requires
        l.expects(e),
    ensures
        l.step(e).0.expects(next) <==> answers(next, l.step(e).1),
{
}

/// The states behind answers that were asked for.
pub open spec fn after(l: LoadView, events: Seq<LoadEvent>) -> LoadView
    decreases events.len(),
{
    if events.len() == 0 {
        l
    } else {
        after(l, events.drop_last()).step(events.last()).0
    }
}

/// Whether each answer was asked for.
pub open spec fn is_history(l: LoadView, events: Seq<LoadEvent>) -> bool
    decreases events.len(),
{
    events.len() > 0 ==> is_history(l, events.drop_last()) && after(l, events.drop_last()).expects(
        events.last(),
    )
}

/// The state at the start of a loading.
pub open spec fn is_begun(l: LoadView) -> bool {
    l.phase is Naming && l.lock is None
}

proof fn lemma_lock_held(l: LoadView, events: Seq<LoadEvent>)
    requires
        is_begun(l),
        is_history(l, events),
    ensures
        rank(after(l, events).phase) >= 3 && !(after(l, events).phase is Running) ==> after(
            l,
            events,
        ).lock is Some,
        rank(after(l, events).phase) < 3 ==> after(l, events).lock is None,
    decreases events.len(),
{
    if events.len() > 0 {
        lemma_lock_held(l, events.drop_last());
    }
}

/// An engine is started only under a lock, and only where the last look, behind
/// the lock, has found no engine for the name under which it is started.
pub proof fn law_engines_start_under_a_lock(l: LoadView, events: Seq<LoadEvent>)
    requires
        is_begun(l),
        is_history(l, events),
        events.len() > 0,
        after(l, events.drop_last()).step(events.last()).1 == LoadAction::Launch,
    ensures
        after(l, events).lock is Some,
        events.last() == LoadEvent::Port(None::<u16>),
        after(l, events).name == after(l, events.drop_last()).name,
{
    lemma_lock_held(l, events.drop_last());
    lemma_lock_held(l, events);
}

/// A model is pulled only where the store does not have it, and only under its
/// lock.
pub proof fn law_pulls_only_what_is_missing(l: LoadView, events: Seq<LoadEvent>)
    requires
        is_begun(l),
        is_history(l, events),
        events.len() > 0,
        after(l, events.drop_last()).step(events.last()).1 == LoadAction::Pull,
    ensures
        events.last() matches LoadEvent::Found(d) && d is None,
        after(l, events).lock == Some(after(l, events).name),
{
    lemma_name_is_lock(l, events.drop_last());
    lemma_lock_held(l, events.drop_last());
}

proof fn lemma_name_is_lock(l: LoadView, events: Seq<LoadEvent>)
    requires
        is_begun(l),
        is_history(l, events),
    ensures
        3 <= rank(after(l, events).phase) <= 6 ==> after(l, events).lock == Some(
            after(l, events).name,
        ),
    decreases events.len(),
{
    if events.len() > 0 {
        lemma_name_is_lock(l, events.drop_last());
    }
}

/// A model that runs is served from where it runs: no lock, no store and no new
/// engine.
pub proof fn law_running_models_are_reused(l: LoadView, d: Option<Descriptor>, port: u16)
    requires
        is_begun(l),
    ensures
        l.step(LoadEvent::Found(d)).0.step(LoadEvent::Port(Some(port))).1 == (LoadAction::Done {
            port,
            fresh: false,
        }),
{
}

/// A name without a tag and the same name with the tag `latest` are looked for,
/// and locked, as one, as long as no alias and no host that stands alone come in.
pub proof fn law_tagless_and_latest_share_a_lock(
    model: Seq<char>,
    aliases: Map<Seq<char>, Seq<char>>,
)
    requires
        !storage::last_segment(model).contains(':'),
        !aliases.contains_key(model),
        !aliases.contains_key(model + ":latest"@),
        shortnames_laws::unaliased(model, aliases),
        shortnames_laws::unaliased(model + ":latest"@, aliases),
        shortnames_laws::looked_up(model) matches Some(name) ==> shortnames::bare(model)
            || !text::eq_ignore_case_spec(name, "localhost"@),
    ensures
        first_name(model, aliases) == first_name(model + ":latest"@, aliases),
{
    shortnames_laws::law_tagless_and_latest_are_one(model, aliases);
}

} // verus!
