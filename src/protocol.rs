use vstd::prelude::*;
use crate::irritation::{Irritation, IrritationView};
use crate::language::SupportedLanguage;

verus! {

/// The kinds of event a rule module may observe.
#[derive(Clone, Copy, Debug, PartialEq, Eq, Structural)]
pub enum EventKind {
    OpenProject,
    OpenFile,
}

/// The point of the run at which a callback returned its intents.
#[derive(Clone, Copy, Debug, PartialEq, Eq, Structural)]
pub enum Phase {
    /// A rule module's `init` entry point.
    Init,
    /// An observer of the project being opened.
    OpenProject,
    /// An observer of a file being opened.
    OpenFile,
    /// The callback of a search, on one match.
    Match,
}

/// What a callback asks of the engine. Callbacks are named by an index that the
/// scripting runtime hands out.
#[derive(Debug)]
pub enum Intent {
    /// Run a structural query on every file of a language opened from now on.
    Find { language: SupportedLanguage, query: String, on_match: usize },
    /// Call a callback on every later event of a kind.
    Observe { event: EventKind, callback: usize },
    /// Raise an irritation.
    Warn(Irritation),
}

/// An intent returned where the protocol does not allow it: a defect of the engine's
/// dispatch, never a diagnostic.
#[derive(Clone, Copy, Debug, PartialEq, Eq, Structural)]
pub enum Violation {
    /// `observe` outside a module's `init`.
    ObserveOutsideInit,
    /// `search` from `init`, where no project or file is open.
    FindDuringInit,
    /// `search` from a match callback.
    FindDuringMatch,
}

pub ghost enum IntentView {
    Find { language: SupportedLanguage, query: Seq<char>, on_match: usize },
    Observe { event: EventKind, callback: usize },
    Warn(IrritationView),
}

impl View for Intent {
    type V = IntentView;

    open spec fn view(&self) -> IntentView {
        match self {
            Intent::Find { language, query, on_match } => IntentView::Find {
                language: *language,
                query: query@,
                on_match: *on_match,
            },
            Intent::Observe { event, callback } => IntentView::Observe {
                event: *event,
                callback: *callback,
            },
            Intent::Warn(i) => IntentView::Warn(i@),
        }
    }
}

/// The violation an intent is at a phase, if any: `observe` is legal at init only,
/// `search` when a project or a file is opened, `warn` everywhere.
pub open spec fn violation_of(phase: Phase, intent: IntentView) -> Option<Violation> {
    match intent {
        IntentView::Observe { .. } => if phase == Phase::Init {
            None
        } else {
            Some(Violation::ObserveOutsideInit)
        },
        IntentView::Find { .. } => match phase {
            Phase::Init => Some(Violation::FindDuringInit),
            Phase::Match => Some(Violation::FindDuringMatch),
            _ => None,
        },
        IntentView::Warn(_) => None,
    }
}

pub open spec fn intent_views(s: Seq<Intent>) -> Seq<IntentView> {
    s.map_values(|i: Intent| i@)
}

/// The first violation in a sequence of intents returned at a phase.
pub open spec fn first_violation(phase: Phase, s: Seq<IntentView>) -> Option<Violation>
    decreases s.len(),
{
    if s.len() == 0 {
        None
    } else {
        match violation_of(phase, s[0]) {
            Some(v) => Some(v),
            None => first_violation(phase, s.drop_first()),
        }
    }
}

/// The irritations raised by a sequence of intents, in order.
pub open spec fn warns_of(s: Seq<IntentView>) -> Seq<IrritationView>
    decreases s.len(),
{
    if s.len() == 0 {
        Seq::empty()
    } else {
        let rest = warns_of(s.drop_last());
        match s.last() {
            IntentView::Warn(i) => rest.push(i),
            _ => rest,
        }
    }
}

/// The searches registered by a sequence of intents, in order.
pub open spec fn finds_of(s: Seq<IntentView>) -> Seq<(SupportedLanguage, Seq<char>, usize)>
    decreases s.len(),
{
    if s.len() == 0 {
        Seq::empty()
    } else {
        let rest = finds_of(s.drop_last());
        match s.last() {
            IntentView::Find { language, query, on_match } => rest.push((language, query, on_match)),
            _ => rest,
        }
    }
}

/// The observers registered by a sequence of intents, in order.
pub open spec fn observes_of(s: Seq<IntentView>) -> Seq<(EventKind, usize)>
    decreases s.len(),
{
    if s.len() == 0 {
        Seq::empty()
    } else {
        let rest = observes_of(s.drop_last());
        match s.last() {
            IntentView::Observe { event, callback } => rest.push((event, callback)),
            _ => rest,
        }
    }
}

/// No violation in a prefix, and the violation of the next intent, give the first.
pub proof fn lemma_first_violation_step(phase: Phase, s: Seq<IntentView>, k: int)
    requires
        0 <= k < s.len(),
        first_violation(phase, s.subrange(0, k)) is None,
    ensures
        violation_of(phase, s[k]) is None ==> first_violation(phase, s.subrange(0, k + 1)) is None,
        violation_of(phase, s[k]) is Some ==> first_violation(phase, s) == violation_of(phase, s[k]),
    decreases k,
{
    if k > 0 {
        assert(s.subrange(0, k).drop_first() =~= s.drop_first().subrange(0, k - 1));
        assert(s.subrange(0, k + 1).drop_first() =~= s.drop_first().subrange(0, k));
        assert(s.subrange(0, k)[0] == s[0]);
        assert(s.subrange(0, k + 1)[0] == s[0]);
        assert(violation_of(phase, s[0]) is None);
        lemma_first_violation_step(phase, s.drop_first(), k - 1);
        assert(s.drop_first()[k - 1] == s[k]);
    } else {
        let one = s.subrange(0, 1);
        assert(one.drop_first() =~= Seq::<IntentView>::empty());
        assert(first_violation(phase, one.drop_first()) is None);
        assert(one[0] == s[0]);
    }
}

impl Intent {
    /// The violation this intent is at a phase, if any.
    pub fn violation_at(&self, phase: Phase) -> (r: Option<Violation>)
        ensures
            r == violation_of(phase, self@),
    {
        match self {
            Intent::Observe { .. } => match phase {
                Phase::Init => None,
                _ => Some(Violation::ObserveOutsideInit),
            },
            Intent::Find { .. } => match phase {
                Phase::Init => Some(Violation::FindDuringInit),
                Phase::Match => Some(Violation::FindDuringMatch),
                _ => None,
            },
            Intent::Warn(_) => None,
        }
    }
}

/// Checks a sequence of intents returned at a phase against the protocol.
pub fn check_intents(phase: Phase, intents: &Vec<Intent>) -> (r: Option<Violation>)
    ensures
        r == first_violation(phase, intent_views(intents@)),
{
    let ghost s = intent_views(intents@);
    let mut k: usize = 0;
    assert(s.subrange(0, 0) =~= Seq::<IntentView>::empty());
    while k < intents.len()
        invariant
            k <= intents.len(),
            s == intent_views(intents@),
            first_violation(phase, s.subrange(0, k as int)) is None,
        decreases intents.len() - k,
    {
        let v = intents[k].violation_at(phase);
        proof {
            lemma_first_violation_step(phase, s, k as int);
        }
        if v.is_some() {
            return v;
        }
        k = k + 1;
    }
    assert(s.subrange(0, k as int) =~= s);
    None
}

/// The intents of one phase, split by kind.
#[derive(Debug)]
pub struct Absorbed {
    pub finds: Vec<(SupportedLanguage, String, usize)>,
    pub observes: Vec<(EventKind, usize)>,
    pub warns: Vec<Irritation>,
}

pub open spec fn find_views(s: Seq<(SupportedLanguage, String, usize)>) -> Seq<(SupportedLanguage, Seq<char>, usize)> {
    s.map_values(|f: (SupportedLanguage, String, usize)| (f.0, f.1@, f.2))
}

pub open spec fn warn_views(s: Seq<Irritation>) -> Seq<IrritationView> {
    s.map_values(|i: Irritation| i@)
}

/// Checks the intents returned at a phase and splits them by kind, each in order.
pub fn absorb(phase: Phase, intents: Vec<Intent>) -> (r: Result<Absorbed, Violation>)
    ensures
        ({
            let s = intent_views(intents@);
            match r {
                Err(v) => first_violation(phase, s) == Some(v),
                Ok(a) => {
                    &&& first_violation(phase, s) is None
                    &&& find_views(a.finds@) == finds_of(s)
                    &&& a.observes@ == observes_of(s)
                    &&& warn_views(a.warns@) == warns_of(s)
                },
            }
        }),
{
    let ghost s = intent_views(intents@);
    if let Some(v) = check_intents(phase, &intents) {
        return Err(v);
    }
    let n = intents.len();
    let mut rest = intents;
    let mut a = Absorbed { finds: Vec::new(), observes: Vec::new(), warns: Vec::new() };
    let mut k: usize = 0;
    proof {
        assert(intent_views(rest@) =~= s.subrange(0, n as int));
        assert(find_views(a.finds@) =~= finds_of(s.subrange(0, 0)));
        assert(warn_views(a.warns@) =~= warns_of(s.subrange(0, 0)));
        assert(a.observes@ =~= observes_of(s.subrange(0, 0)));
    }
    while k < n
        invariant
            k <= n,
            n == s.len(),
            intent_views(rest@) == s.subrange(k as int, n as int),
            find_views(a.finds@) == finds_of(s.subrange(0, k as int)),
            a.observes@ == observes_of(s.subrange(0, k as int)),
            warn_views(a.warns@) == warns_of(s.subrange(0, k as int)),
        decreases n - k,
    {
        let ghost r0 = rest@;
        let ghost f0 = a.finds@;
        let ghost o0 = a.observes@;
        let ghost w0 = a.warns@;
        assert(intent_views(r0).len() == r0.len());
        assert(intent_views(r0)[0] == s[k as int]);
        let i = rest.remove(0);
        proof {
            assert forall|j: int| 0 <= j < rest@.len() implies intent_views(rest@)[j] == s[k + 1 + j] by {
                assert(rest@[j] == r0[j + 1]);
                assert(intent_views(r0)[j + 1] == s.subrange(k as int, n as int)[j + 1]);
            }
            assert(intent_views(rest@) =~= s.subrange(k + 1, n as int));
            assert(s.subrange(0, k + 1).drop_last() =~= s.subrange(0, k as int));
            assert(s.subrange(0, k + 1).last() == s[k as int]);
        }
        match i {
            Intent::Find { language, query, on_match } => {
                a.finds.push((language, query, on_match));
                assert(find_views(a.finds@) =~= find_views(f0).push((language, query@, on_match)));
            },
            Intent::Observe { event, callback } => {
                a.observes.push((event, callback));
            },
            Intent::Warn(irr) => {
                a.warns.push(irr);
                assert(warn_views(a.warns@) =~= warn_views(w0).push(irr@));
            },
        }
        k = k + 1;
    }
    proof {
        assert(s.subrange(0, n as int) =~= s);
    }
    Ok(a)
}

} // verus!
