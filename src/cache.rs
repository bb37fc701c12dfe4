use vstd::prelude::*;
use crate::irritation::same_text;
use crate::language::SupportedLanguage;
use crate::source_file::{compile_query, grammar, query_compiles};

verus! {

#[verifier::external_type_specification]
#[verifier::external_body]
pub struct ExQuery(tree_sitter::Query);

#[verifier::external_type_specification]
#[verifier::external_body]
pub struct ExQueryError(tree_sitter::QueryError);

/// The compiled-query cache, keyed by language and query text. The cache hands out
/// one index per distinct key, in order of first request, and compiles each key once.
#[derive(Debug)]
pub struct QueryCache {
    keys: Vec<(SupportedLanguage, String)>,
    queries: Vec<tree_sitter::Query>,
}

pub open spec fn key_views(keys: Seq<(SupportedLanguage, String)>) -> Seq<(SupportedLanguage, Seq<char>)> {
    keys.map_values(|k: (SupportedLanguage, String)| (k.0, k.1@))
}

/// Whether no key occurs twice.
pub open spec fn distinct_keys(keys: Seq<(SupportedLanguage, Seq<char>)>) -> bool {
    forall|i: int, j: int| 0 <= i < j < keys.len() ==> keys[i] != keys[j]
}

impl View for QueryCache {
    type V = Seq<(SupportedLanguage, Seq<char>)>;

    closed spec fn view(&self) -> Seq<(SupportedLanguage, Seq<char>)> {
        key_views(self.keys@)
    }
}

impl QueryCache {
    pub closed spec fn wf(&self) -> bool {
        &&& distinct_keys(self@)
        &&& self.keys.len() == self.queries.len()
        &&& forall|i: int| 0 <= i < self@.len() ==> query_compiles(#[trigger] self@[i].0, self@[i].1)
    }

    /// An empty cache with room for `capacity` queries.
    pub fn with_capacity(capacity: usize) -> (r: QueryCache)
        ensures
            r.wf(),
            r@ == Seq::<(SupportedLanguage, Seq<char>)>::empty(),
    {
        let r = QueryCache { keys: Vec::with_capacity(capacity), queries: Vec::with_capacity(capacity) };
        assert(r@ =~= Seq::<(SupportedLanguage, Seq<char>)>::empty());
        r
    }

    /// The number of distinct queries requested so far.
    pub fn len(&self) -> (r: usize)
        ensures
            r == self@.len(),
    {
        self.keys.len()
    }

    /// The compiled query of an index.
    pub fn query(&self, id: usize) -> (r: &tree_sitter::Query)
        requires
            self.wf(),
            id < self@.len(),
    {
        &self.queries[id]
    }

    /// The key of a cached query.
    pub fn key(&self, id: usize) -> (r: (SupportedLanguage, &str))
        requires
            id < self@.len(),
        ensures
            r.0 == self@[id as int].0,
            r.1@ == self@[id as int].1,
    {
        let k = &self.keys[id];
        (k.0, k.1.as_str())
    }

    /// The index of a query. A query not yet in the cache is compiled and added, and
    /// `true` comes alongside its index; where it does not compile, the cache stays as
    /// it was.
    pub fn resolve(&mut self, language: SupportedLanguage, query: &str) -> (r: Result<
        (usize, bool),
        tree_sitter::QueryError,
    >)
        requires
            old(self).wf(),
        ensures
            final(self).wf(),
            old(self)@.contains((language, query@)) ==> (r matches Ok((id, fresh)) && !fresh
                && final(self)@ == old(self)@ && id < old(self)@.len()
                && old(self)@[id as int] == (language, query@)),
            !old(self)@.contains((language, query@)) ==> (match r {
                Ok((id, fresh)) => fresh && id == old(self)@.len()
                    && final(self)@ == old(self)@.push((language, query@)),
                Err(_) => final(self)@ == old(self)@,
            }),
            r is Ok <==> query_compiles(language, query@),
    {
        let ghost v = self@;
        let mut k: usize = 0;
        while k < self.keys.len()
            invariant
                k <= self.keys.len(),
                self@ == v,
                self.wf(),
                v.len() == self.keys.len(),
                forall|m: int| 0 <= m < k ==> v[m] != (language, query@),
            decreases self.keys.len() - k,
        {
            assert(v[k as int] == (self.keys@[k as int].0, self.keys@[k as int].1@));
            if self.keys[k].0 == language && same_text(self.keys[k].1.as_str(), query) {
                assert(query_compiles(v[k as int].0, v[k as int].1));
                return Ok((k, false));
            }
            k = k + 1;
        }
        let compiled = match compile_query(&grammar(language), query) {
            Ok(q) => q,
            Err(e) => {
                return Err(e);
            },
        };
        let mut text = String::new();
        text.append(query);
        self.keys.push((language, text));
        self.queries.push(compiled);
        proof {
            assert(self@ =~= v.push((language, query@)));
            assert(!v.contains((language, query@)));
            lemma_new_key_stays_distinct(v, language, query@);
        }
        Ok((k, true))
    }
}

/// Adding a key the cache does not hold keeps the keys distinct: together with
/// [`QueryCache::resolve`], each distinct query is compiled once per run.
pub proof fn lemma_new_key_stays_distinct(
    before: Seq<(SupportedLanguage, Seq<char>)>,
    language: SupportedLanguage,
    query: Seq<char>,
)
    requires
        distinct_keys(before),
        !before.contains((language, query)),
    ensures
        distinct_keys(before.push((language, query))),
{
    let after = before.push((language, query));
    assert forall|i: int, j: int| 0 <= i < j < after.len() implies after[i] != after[j] by {
        if j == before.len() {
            assert(after[i] == before[i]);
        }
    }
}

} // verus!
