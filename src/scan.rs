use vstd::prelude::*;
use crate::cache::QueryCache;
use crate::source_file::query_compiles;
use crate::collector::{collect, report_of, views, MaxProblems};
use crate::irritation::{Irritation, IrritationView};
use crate::language::SupportedLanguage;
use crate::protocol::{
    absorb, find_views, finds_of, first_violation, intent_views, warn_views, warns_of, Intent,
    Phase, Violation,
};

verus! {

/// A search registered for the run or for one file: the language it targets, the
/// index of its compiled query in the cache, and the callback for its matches.
#[derive(Clone, Copy, Debug, PartialEq, Eq, Structural)]
pub struct QueryRef {
    pub language: SupportedLanguage,
    pub query: usize,
    pub on_match: usize,
}

/// Why a scan stopped.
#[derive(Debug)]
pub enum ScanError {
    /// An intent out of its phase: a defect of the dispatch, never a diagnostic.
    Protocol(Violation),
    /// A search whose query does not compile.
    Query(tree_sitter::QueryError),
}

/// The searches among `refs` that target a language, in order.
pub open spec fn refs_for(refs: Seq<QueryRef>, language: SupportedLanguage) -> Seq<QueryRef>
    decreases refs.len(),
{
    if refs.len() == 0 {
        Seq::empty()
    } else {
        let rest = refs_for(refs.drop_last(), language);
        if refs.last().language == language {
            rest.push(refs.last())
        } else {
            rest
        }
    }
}

/// A search as its rule module asked for it: language, query text and callback.
pub open spec fn find_of(cache: Seq<(SupportedLanguage, Seq<char>)>, q: QueryRef) -> (
    SupportedLanguage,
    Seq<char>,
    usize,
) {
    (q.language, cache[q.query as int].1, q.on_match)
}

pub open spec fn finds_in(cache: Seq<(SupportedLanguage, Seq<char>)>, refs: Seq<QueryRef>) -> Seq<
    (SupportedLanguage, Seq<char>, usize),
> {
    refs.map_values(|q: QueryRef| find_of(cache, q))
}

pub open spec fn refs_valid(cache: Seq<(SupportedLanguage, Seq<char>)>, refs: Seq<QueryRef>) -> bool {
    forall|i: int|
        0 <= i < refs.len() ==> (#[trigger] refs[i]).query < cache.len() && cache[refs[i].query as int].0
            == refs[i].language
}

/// Whether every search of a sequence has a query that compiles.
pub open spec fn all_compile(finds: Seq<(SupportedLanguage, Seq<char>, usize)>) -> bool {
    forall|i: int| 0 <= i < finds.len() ==> query_compiles(#[trigger] finds[i].0, finds[i].1)
}

/// What the run has seen so far, and what it reports at the end.
#[derive(Debug)]
pub struct RunData {
    irritations: Vec<Irritation>,
    num_files_scanned: usize,
}

impl RunData {
    pub closed spec fn spec_irritations(&self) -> Seq<IrritationView> {
        views(self.irritations@)
    }

    pub closed spec fn spec_num_files_scanned(&self) -> usize {
        self.num_files_scanned
    }

    /// The irritations reported, in order.
    pub fn into_irritations(self) -> (r: Vec<Irritation>)
        ensures
            views(r@) == self.spec_irritations(),
    {
        self.irritations
    }

    /// The number of files discovered.
    pub fn num_files_scanned(&self) -> (r: usize)
        ensures
            r == self.spec_num_files_scanned(),
    {
        self.num_files_scanned
    }
}

/// One run over a project's files. The caller dispatches each event to the rule
/// modules and hands the intents that came back to the matching method; the scan
/// keeps the searches, the query cache and the irritations, and decides which files
/// are parsed and which searches run on them.
#[derive(Debug)]
pub struct Scan {
    cache: QueryCache,
    project_queries: Vec<QueryRef>,
    file_queries: Vec<QueryRef>,
    raised: Vec<Irritation>,
    num_files: usize,
    max_problems: MaxProblems,
}

impl Scan {
    pub closed spec fn wf(&self) -> bool {
        &&& self.cache.wf()
        &&& refs_valid(self.cache@, self.project_queries@)
        &&& refs_valid(self.cache@, self.file_queries@)
    }

    pub closed spec fn spec_cache(&self) -> Seq<(SupportedLanguage, Seq<char>)> {
        self.cache@
    }

    /// The searches registered when the project was opened.
    pub closed spec fn spec_project_refs(&self) -> Seq<QueryRef> {
        self.project_queries@
    }

    /// The searches registered when the current file was opened.
    pub closed spec fn spec_file_refs(&self) -> Seq<QueryRef> {
        self.file_queries@
    }

    pub closed spec fn spec_raised(&self) -> Seq<IrritationView> {
        warn_views(self.raised@)
    }

    pub closed spec fn spec_max_problems(&self) -> MaxProblems {
        self.max_problems
    }

    pub closed spec fn spec_num_files(&self) -> usize {
        self.num_files
    }

    /// A scan over `num_files` discovered files, starting from the irritations raised
    /// at initialisation, with room in the cache for the expected searches.
    pub fn new(
        initial: Vec<Irritation>,
        project_queries_hint: usize,
        file_queries_hint: usize,
        num_files: usize,
        max_problems: MaxProblems,
    ) -> (r: Scan)
        ensures
            r.wf(),
            r.spec_cache() == Seq::<(SupportedLanguage, Seq<char>)>::empty(),
            r.spec_project_refs() == Seq::<QueryRef>::empty(),
            r.spec_file_refs() == Seq::<QueryRef>::empty(),
            r.spec_raised() == warn_views(initial@),
            r.spec_max_problems() == max_problems,
            r.spec_num_files() == num_files,
    {
        let capacity = if project_queries_hint <= usize::MAX - file_queries_hint {
            project_queries_hint + file_queries_hint
        } else {
            usize::MAX
        };
        let r = Scan {
            cache: QueryCache::with_capacity(capacity),
            project_queries: Vec::with_capacity(project_queries_hint),
            file_queries: Vec::with_capacity(file_queries_hint),
            raised: initial,
            num_files,
            max_problems,
        };
        assert(r.project_queries@ =~= Seq::<QueryRef>::empty());
        assert(r.file_queries@ =~= Seq::<QueryRef>::empty());
        r
    }

    /// The compiled query of a search.
    pub fn query(&self, q: QueryRef) -> (r: &tree_sitter::Query)
        requires
            self.wf(),
            q.query < self.spec_cache().len(),
    {
        self.cache.query(q.query)
    }

    /// Resolves searches through the cache, appending them to the project's searches
    /// or to the file's.
    fn register(&mut self, finds: Vec<(SupportedLanguage, String, usize)>, project: bool) -> (r:
        Result<(), tree_sitter::QueryError>)
        requires
            old(self).wf(),
        ensures
            final(self).wf(),
            final(self).raised == old(self).raised,
            final(self).max_problems == old(self).max_problems,
            final(self).num_files == old(self).num_files,
            old(self).cache@.len() <= final(self).cache@.len(),
            final(self).cache@.subrange(0, old(self).cache@.len() as int) == old(self).cache@,
            r is Ok <==> all_compile(find_views(finds@)),
            r is Ok && project ==> final(self).file_queries@ == old(self).file_queries@
                && finds_in(final(self).cache@, final(self).project_queries@) == finds_in(
                old(self).cache@,
                old(self).project_queries@,
            ) + find_views(finds@),
            r is Ok && !project ==> final(self).project_queries@ == old(self).project_queries@
                && finds_in(final(self).cache@, final(self).file_queries@) == finds_in(
                old(self).cache@,
                old(self).file_queries@,
            ) + find_views(finds@),
    {
        let ghost c0 = self.cache@;
        let ghost proj0 = self.project_queries@;
        let ghost f0 = self.file_queries@;
        let ghost fv = find_views(finds@);
        let mut k: usize = 0;
        assert(c0.subrange(0, c0.len() as int) =~= c0);
        assert(fv.subrange(0, 0) =~= Seq::<(SupportedLanguage, Seq<char>, usize)>::empty());
        assert(finds_in(c0, proj0) + fv.subrange(0, 0) =~= finds_in(c0, proj0));
        assert(finds_in(c0, f0) + fv.subrange(0, 0) =~= finds_in(c0, f0));
        while k < finds.len()
            invariant
                k <= finds.len(),
                fv == find_views(finds@),
                c0 == old(self).cache@,
                proj0 == old(self).project_queries@,
                f0 == old(self).file_queries@,
                self.wf(),
                self.raised == old(self).raised,
                self.max_problems == old(self).max_problems,
                self.num_files == old(self).num_files,
                c0.len() <= self.cache@.len(),
                self.cache@.subrange(0, c0.len() as int) == c0,
                refs_valid(c0, proj0),
                refs_valid(c0, f0),
                project ==> self.file_queries@ == f0 && finds_in(self.cache@, self.project_queries@)
                    == finds_in(c0, proj0) + fv.subrange(0, k as int),
                forall|j: int| 0 <= j < k ==> query_compiles(#[trigger] fv[j].0, fv[j].1),
                !project ==> self.project_queries@ == proj0 && finds_in(self.cache@, self.file_queries@)
                    == finds_in(c0, f0) + fv.subrange(0, k as int),
            decreases finds.len() - k,
        {
            let ghost c1 = self.cache@;
            let ghost pq = self.project_queries@;
            let ghost fq = self.file_queries@;
            let (language, text, on_match) = (finds[k].0, finds[k].1.as_str(), finds[k].2);
            let res = self.cache.resolve(language, text);
            let id = match res {
                Ok((id, _)) => id,
                Err(e) => {
                    assert(fv[k as int] == (language, text@, on_match));
                    assert(self.cache@ == c1);
                    assert(self.cache@.subrange(0, c0.len() as int) == c0);
                    assert(!query_compiles(fv[k as int].0, fv[k as int].1));
                    assert(!all_compile(fv));
                    return Err(e);
                },
            };
            let q = QueryRef { language, query: id, on_match };
            proof {
                assert(self.cache@.subrange(0, c1.len() as int) =~= c1);
                assert(self.cache@.subrange(0, c0.len() as int) =~= c0);
                assert(self.cache@[id as int] == (language, text@));
                assert(fv[k as int] == (language, text@, on_match));
                assert(fv.subrange(0, k + 1) =~= fv.subrange(0, k as int).push(fv[k as int]));
                // searches resolved earlier keep their keys in the grown cache
                assert forall|i: int| 0 <= i < pq.len() implies find_of(self.cache@, #[trigger] pq[i])
                    == find_of(c1, pq[i]) && pq[i].query < self.cache@.len()
                    && self.cache@[pq[i].query as int].0 == pq[i].language by {
                    assert(self.cache@[pq[i].query as int] == c1[pq[i].query as int]);
                }
                assert forall|i: int| 0 <= i < fq.len() implies find_of(self.cache@, #[trigger] fq[i])
                    == find_of(c1, fq[i]) && fq[i].query < self.cache@.len()
                    && self.cache@[fq[i].query as int].0 == fq[i].language by {
                    assert(self.cache@[fq[i].query as int] == c1[fq[i].query as int]);
                }
                assert(finds_in(self.cache@, pq) =~= finds_in(c1, pq));
                assert(finds_in(self.cache@, fq) =~= finds_in(c1, fq));
            }
            if project {
                self.project_queries.push(q);
                assert(finds_in(self.cache@, self.project_queries@) =~= finds_in(self.cache@, pq).push(
                    find_of(self.cache@, q),
                ));
            } else {
                self.file_queries.push(q);
                assert(finds_in(self.cache@, self.file_queries@) =~= finds_in(self.cache@, fq).push(
                    find_of(self.cache@, q),
                ));
            }
            k = k + 1;
        }
        assert(fv.subrange(0, k as int) =~= fv);
        assert(all_compile(fv));
        Ok(())
    }

    /// Takes in what the observers of the project's opening returned: their searches
    /// run on every file of their language; `observe` is a violation there.
    pub fn open_project(&mut self, intents: Vec<Intent>) -> (r: Result<(), ScanError>)
        requires
            old(self).wf(),
        ensures
            final(self).wf(),
            ({
                let s = intent_views(intents@);
                &&& first_violation(Phase::OpenProject, s) matches Some(v) ==> (r matches Err(
                    ScanError::Protocol(w),
                ) && w == v)
                &&& r matches Err(ScanError::Protocol(w)) ==> first_violation(Phase::OpenProject, s)
                    == Some(w) && *final(self) == *old(self)
                &&& first_violation(Phase::OpenProject, s) is None ==> (r is Ok <==> all_compile(
                    finds_of(s),
                ))
                &&& r is Ok ==> {
                    &&& finds_in(final(self).spec_cache(), final(self).spec_project_refs())
                        == finds_in(old(self).spec_cache(), old(self).spec_project_refs())
                        + finds_of(s)
                    &&& final(self).spec_file_refs() == old(self).spec_file_refs()
                    &&& final(self).spec_raised() == old(self).spec_raised() + warns_of(s)
                }
            }),
            final(self).spec_max_problems() == old(self).spec_max_problems(),
            final(self).spec_num_files() == old(self).spec_num_files(),
    {
        let a = match absorb(Phase::OpenProject, intents) {
            Ok(a) => a,
            Err(v) => {
                return Err(ScanError::Protocol(v));
            },
        };
        match self.register(a.finds, true) {
            Ok(()) => {},
            Err(e) => {
                return Err(ScanError::Query(e));
            },
        }
        let ghost w0 = self.raised@;
        let mut warns = a.warns;
        self.raised.append(&mut warns);
        assert(warn_views(self.raised@) =~= warn_views(w0) + warn_views(a.warns@));
        Ok(())
    }

    /// Takes in what the observers of a file's opening returned, for a file whose
    /// language is known. Its searches replace those of the previous file. Gives the
    /// searches to run on the file: the project's and the file's that target its
    /// language, in order. Where there is none, the file is not parsed.
    pub fn open_file(&mut self, language: SupportedLanguage, intents: Vec<Intent>) -> (r: Result<
        Vec<QueryRef>,
        ScanError,
    >)
        requires
            old(self).wf(),
        ensures
            final(self).wf(),
            ({
                let s = intent_views(intents@);
                &&& first_violation(Phase::OpenFile, s) matches Some(v) ==> (r matches Err(
                    ScanError::Protocol(w),
                ) && w == v)
                &&& r matches Err(ScanError::Protocol(w)) ==> first_violation(Phase::OpenFile, s)
                    == Some(w) && *final(self) == *old(self)
                &&& first_violation(Phase::OpenFile, s) is None ==> (r is Ok <==> all_compile(
                    finds_of(s),
                ))
                &&& r matches Ok(plan) ==> {
                    &&& final(self).spec_project_refs() == old(self).spec_project_refs()
                    &&& finds_in(final(self).spec_cache(), final(self).spec_project_refs())
                        == finds_in(old(self).spec_cache(), old(self).spec_project_refs())
                    &&& finds_in(final(self).spec_cache(), final(self).spec_file_refs())
                        == finds_of(s)
                    &&& final(self).spec_raised() == old(self).spec_raised() + warns_of(s)
                    &&& plan@ == refs_for(
                        final(self).spec_project_refs() + final(self).spec_file_refs(),
                        language,
                    )
                    &&& forall|i: int|
                        0 <= i < plan@.len() ==> (#[trigger] plan@[i]).query
                            < final(self).spec_cache().len()
                }
            }),
            final(self).spec_max_problems() == old(self).spec_max_problems(),
            final(self).spec_num_files() == old(self).spec_num_files(),
    {
        let a = match absorb(Phase::OpenFile, intents) {
            Ok(a) => a,
            Err(v) => {
                return Err(ScanError::Protocol(v));
            },
        };
        self.file_queries = Vec::new();
        assert(finds_in(self.cache@, self.file_queries@) =~= Seq::<
            (SupportedLanguage, Seq<char>, usize),
        >::empty());
        match self.register(a.finds, false) {
            Ok(()) => {},
            Err(e) => {
                return Err(ScanError::Query(e));
            },
        }
        assert(Seq::<(SupportedLanguage, Seq<char>, usize)>::empty() + find_views(a.finds@)
            =~= find_views(a.finds@));
        let ghost w0 = self.raised@;
        let mut warns = a.warns;
        self.raised.append(&mut warns);
        assert(warn_views(self.raised@) =~= warn_views(w0) + warn_views(a.warns@));
        let plan = self.plan(language);
        Ok(plan)
    }

    /// The searches, of the project's then of the file's, that target a language.
    fn plan(&self, language: SupportedLanguage) -> (r: Vec<QueryRef>)
        requires
            self.wf(),
        ensures
            r@ == refs_for(self.project_queries@ + self.file_queries@, language),
            forall|i: int| 0 <= i < r@.len() ==> (#[trigger] r@[i]).query < self.cache@.len(),
    {
        let ghost all = self.project_queries@ + self.file_queries@;
        let np = self.project_queries.len();
        let nf = self.file_queries.len();
        let mut r: Vec<QueryRef> = Vec::new();
        let mut k: usize = 0;
        while k < np
            invariant
                self.wf(),
                k <= np,
                np == self.project_queries.len(),
                all == self.project_queries@ + self.file_queries@,
                r@ == refs_for(all.subrange(0, k as int), language),
                forall|i: int| 0 <= i < r@.len() ==> (#[trigger] r@[i]).query < self.cache@.len(),
            decreases np - k,
        {
            let q = self.project_queries[k];
            proof {
                assert(q == all[k as int]);
                assert(all.subrange(0, k + 1).drop_last() =~= all.subrange(0, k as int));
            }
            if q.language == language {
                r.push(q);
            }
            k = k + 1;
        }
        let mut m: usize = 0;
        while m < nf
            invariant
                self.wf(),
                m <= nf,
                np == self.project_queries.len(),
                nf == self.file_queries.len(),
                all == self.project_queries@ + self.file_queries@,
                r@ == refs_for(all.subrange(0, np + m), language),
                forall|i: int| 0 <= i < r@.len() ==> (#[trigger] r@[i]).query < self.cache@.len(),
            decreases nf - m,
        {
            let q = self.file_queries[m];
            proof {
                assert(q == all[np + m]);
                assert(all.subrange(0, np + m + 1).drop_last() =~= all.subrange(0, np + m));
            }
            if q.language == language {
                r.push(q);
            }
            m = m + 1;
        }
        assert(all.subrange(0, np + m) =~= all);
        r
    }

    /// Takes in what a search's callback returned on one match: only `warn` is legal.
    pub fn on_match(&mut self, intents: Vec<Intent>) -> (r: Result<(), Violation>)
        requires
            old(self).wf(),
        ensures
            final(self).wf(),
            ({
                let s = intent_views(intents@);
                &&& first_violation(Phase::Match, s) matches Some(v) ==> r == Err::<(), Violation>(v)
                    && *final(self) == *old(self)
                &&& first_violation(Phase::Match, s) is None ==> r is Ok
                &&& r is Ok ==> final(self).spec_raised() == old(self).spec_raised() + warns_of(s)
            }),
            final(self).spec_cache() == old(self).spec_cache(),
            final(self).spec_project_refs() == old(self).spec_project_refs(),
            final(self).spec_file_refs() == old(self).spec_file_refs(),
            final(self).spec_max_problems() == old(self).spec_max_problems(),
            final(self).spec_num_files() == old(self).spec_num_files(),
    {
        let a = match absorb(Phase::Match, intents) {
            Ok(a) => a,
            Err(v) => {
                return Err(v);
            },
        };
        let ghost w0 = self.raised@;
        let mut warns = a.warns;
        self.raised.append(&mut warns);
        assert(warn_views(self.raised@) =~= warn_views(w0) + warn_views(a.warns@));
        Ok(())
    }

    /// Ends the run: every irritation raised, in order, cut down to the cap.
    pub fn finish(self) -> (r: RunData)
        ensures
            r.spec_irritations() == report_of(self.spec_raised(), self.spec_max_problems()),
            r.spec_num_files_scanned() == self.spec_num_files(),
    {
        let irritations = collect(self.raised, self.max_problems);
        RunData { irritations, num_files_scanned: self.num_files }
    }
}

/// A file is parsed only when some search targets its language: the searches to run
/// on it are none exactly when no registered search targets its language.
pub proof fn lemma_untargeted_not_parsed(refs: Seq<QueryRef>, language: SupportedLanguage)
    ensures
        refs_for(refs, language).len() == 0 <==> forall|i: int|
            0 <= i < refs.len() ==> (#[trigger] refs[i]).language != language,
    decreases refs.len(),
{
    if refs.len() > 0 {
        lemma_untargeted_not_parsed(refs.drop_last(), language);
        assert forall|i: int| 0 <= i < refs.len() - 1 implies refs.drop_last()[i] == #[trigger] refs[i] by {}
    }
}

} // verus!
