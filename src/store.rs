use vstd::prelude::*;
use crate::irritation::{Irritation, IrritationView};
use crate::language::{file_stem, file_stem_of};
use crate::protocol::{
    absorb, first_violation, intent_views, observes_of, warn_views, warns_of, EventKind, Intent,
    Phase, Violation,
};
use crate::source_file::SourcePath;

verus! {

/// The callbacks observing an event kind, in registration order.
pub open spec fn callbacks_for(observers: Seq<(EventKind, usize)>, kind: EventKind) -> Seq<usize>
    decreases observers.len(),
{
    if observers.len() == 0 {
        Seq::empty()
    } else {
        let rest = callbacks_for(observers.drop_last(), kind);
        if observers.last().0 == kind {
            rest.push(observers.last().1)
        } else {
            rest
        }
    }
}

pub open spec fn pretty_paths(s: Seq<SourcePath>) -> Seq<Seq<char>> {
    s.map_values(|p: SourcePath| p.pretty_path@)
}

/// The rule modules of a run, loaded and evaluated, before any `init` was called.
#[derive(Debug)]
pub struct PreinitedStore {
    scriptlets: Vec<SourcePath>,
}

/// The rule set of a run after every module's `init` ran: the observer registry is
/// complete and no longer changes.
#[derive(Debug)]
pub struct VexingStore {
    scriptlets: Vec<SourcePath>,
    observers: Vec<(EventKind, usize)>,
    init_warns: Vec<Irritation>,
}

impl PreinitedStore {
    pub closed spec fn spec_scriptlets(&self) -> Seq<Seq<char>> {
        pretty_paths(self.scriptlets@)
    }

    /// The store of the rule modules loaded from these paths, in order.
    pub fn new(scriptlets: Vec<SourcePath>) -> (r: PreinitedStore)
        ensures
            r.spec_scriptlets() == pretty_paths(scriptlets@),
    {
        PreinitedStore { scriptlets }
    }

    /// The identifiers of the loaded modules: their file stems.
    pub fn scriptlet_ids(&self) -> (r: Vec<String>)
        ensures
            r@.map_values(|s: String| s@) == self.spec_scriptlets().map_values(
                |p: Seq<char>| file_stem_of(p),
            ),
    {
        let mut r: Vec<String> = Vec::new();
        let mut k: usize = 0;
        while k < self.scriptlets.len()
            invariant
                k <= self.scriptlets.len(),
                r@.map_values(|s: String| s@) == self.spec_scriptlets().subrange(0, k as int).map_values(
                    |p: Seq<char>| file_stem_of(p),
                ),
            decreases self.scriptlets.len() - k,
        {
            let ghost r0 = r@;
            let id = file_stem(self.scriptlets[k].pretty_path.as_str());
            r.push(id);
            proof {
                assert(r@.map_values(|s: String| s@) =~= r0.map_values(|s: String| s@).push(id@));
                assert(self.spec_scriptlets().subrange(0, k + 1).map_values(
                    |p: Seq<char>| file_stem_of(p),
                ) =~= self.spec_scriptlets().subrange(0, k as int).map_values(
                    |p: Seq<char>| file_stem_of(p),
                ).push(file_stem_of(self.scriptlets@[k as int].pretty_path@)));
            }
            k = k + 1;
        }
        assert(self.spec_scriptlets().subrange(0, k as int) =~= self.spec_scriptlets());
        r
    }

    /// Ends initialisation with the intents that the modules' `init` calls returned,
    /// in module order. Only `observe` and `warn` are legal there; the heap the
    /// modules allocated in is frozen by the caller once this succeeds.
    pub fn init(self, init_intents: Vec<Intent>) -> (r: Result<VexingStore, Violation>)
        ensures
            match r {
                Err(v) => first_violation(Phase::Init, intent_views(init_intents@)) == Some(v),
                Ok(store) => {
                    &&& first_violation(Phase::Init, intent_views(init_intents@)) is None
                    &&& store.spec_observers() == observes_of(intent_views(init_intents@))
                    &&& store.spec_init_warns() == warns_of(intent_views(init_intents@))
                    &&& store.spec_scriptlets() == self.spec_scriptlets()
                },
            },
    {
        match absorb(Phase::Init, init_intents) {
            Err(v) => Err(v),
            Ok(a) => Ok(
                VexingStore {
                    scriptlets: self.scriptlets,
                    observers: a.observes,
                    init_warns: a.warns,
                },
            ),
        }
    }
}

impl VexingStore {
    pub closed spec fn spec_scriptlets(&self) -> Seq<Seq<char>> {
        pretty_paths(self.scriptlets@)
    }

    /// The observer registry, in registration order.
    pub closed spec fn spec_observers(&self) -> Seq<(EventKind, usize)> {
        self.observers@
    }

    /// The irritations raised during initialisation.
    pub closed spec fn spec_init_warns(&self) -> Seq<IrritationView> {
        warn_views(self.init_warns@)
    }

    /// The callbacks observing an event kind, in registration order.
    pub fn observers_for(&self, kind: EventKind) -> (r: Vec<usize>)
        ensures
            r@ == callbacks_for(self.spec_observers(), kind),
    {
        let mut r: Vec<usize> = Vec::new();
        let mut k: usize = 0;
        while k < self.observers.len()
            invariant
                k <= self.observers.len(),
                r@ == callbacks_for(self.observers@.subrange(0, k as int), kind),
            decreases self.observers.len() - k,
        {
            proof {
                assert(self.observers@.subrange(0, k + 1).drop_last() =~= self.observers@.subrange(
                    0,
                    k as int,
                ));
            }
            if self.observers[k].0 == kind {
                r.push(self.observers[k].1);
            }
            k = k + 1;
        }
        assert(self.observers@.subrange(0, k as int) =~= self.observers@);
        r
    }

    /// How many searches the project-level observers are expected to register.
    pub fn project_queries_hint(&self) -> (r: usize)
        ensures
            r == callbacks_for(self.spec_observers(), EventKind::OpenProject).len(),
    {
        self.observers_for(EventKind::OpenProject).len()
    }

    /// How many searches the file-level observers are expected to register.
    pub fn file_queries_hint(&self) -> (r: usize)
        ensures
            r == callbacks_for(self.spec_observers(), EventKind::OpenFile).len(),
    {
        self.observers_for(EventKind::OpenFile).len()
    }

    /// Copies of the irritations raised during initialisation.
    pub fn init_warns(&self) -> (r: Vec<Irritation>)
        ensures
            warn_views(r@) == self.spec_init_warns(),
    {
        let mut r: Vec<Irritation> = Vec::new();
        let mut k: usize = 0;
        while k < self.init_warns.len()
            invariant
                k <= self.init_warns.len(),
                warn_views(r@) == warn_views(self.init_warns@.subrange(0, k as int)),
            decreases self.init_warns.len() - k,
        {
            let ghost r0 = r@;
            r.push(self.init_warns[k].duplicate());
            proof {
                assert(warn_views(r@) =~= warn_views(r0).push(self.init_warns@[k as int]@));
                assert(warn_views(self.init_warns@.subrange(0, k + 1)) =~= warn_views(
                    self.init_warns@.subrange(0, k as int),
                ).push(self.init_warns@[k as int]@));
            }
            k = k + 1;
        }
        assert(self.init_warns@.subrange(0, k as int) =~= self.init_warns@);
        r
    }
}

} // verus!
