use vstd::prelude::*;

verus! {

/// A language whose files the engine can parse.
#[derive(Clone, Copy, Debug, PartialEq, Eq, Structural, Hash, PartialOrd, Ord)]
pub enum SupportedLanguage {
    Go,
    Python,
    Rust,
}

/// The extension registry: extensions are matched case-sensitively.
pub open spec fn language_of_extension(ext: Seq<char>) -> Option<SupportedLanguage> {
    if ext == seq!['g', 'o'] {
        Some(SupportedLanguage::Go)
    } else if ext == seq!['p', 'y'] {
        Some(SupportedLanguage::Python)
    } else if ext == seq!['r', 's'] {
        Some(SupportedLanguage::Rust)
    } else {
        None
    }
}

/// Index just past the last `/` of `p` (0 when there is none): where the file name starts.
pub open spec fn file_name_start(p: Seq<char>) -> int
    decreases p.len(),
{
    if p.len() == 0 {
        0
    } else if p.last() == '/' {
        p.len() as int
    } else {
        file_name_start(p.drop_last())
    }
}

/// The last component of `p`.
pub open spec fn file_name_of(p: Seq<char>) -> Seq<char> {
    p.subrange(file_name_start(p), p.len() as int)
}

/// Index of the last `.` in `s`, or -1.
pub open spec fn last_dot(s: Seq<char>) -> int
    decreases s.len(),
{
    if s.len() == 0 {
        -1
    } else if s.last() == '.' {
        s.len() - 1
    } else {
        last_dot(s.drop_last())
    }
}

/// The extension of a path: what follows the last `.` of its file name, where that
/// dot is not the file name's first character (so `.bashrc` has none).
pub open spec fn extension_of(p: Seq<char>) -> Option<Seq<char>> {
    let name = file_name_of(p);
    let d = last_dot(name);
    if d <= 0 || name == seq!['.', '.'] {
        None
    } else {
        Some(name.subrange(d + 1, name.len() as int))
    }
}

/// The language detected for a path, from its extension alone.
pub open spec fn language_of_path(p: Seq<char>) -> Option<SupportedLanguage> {
    match extension_of(p) {
        Some(ext) => language_of_extension(ext),
        None => None,
    }
}

pub(crate) proof fn lemma_file_name_start_bounds(p: Seq<char>)
    ensures
        0 <= file_name_start(p) <= p.len(),
        forall|k: int| file_name_start(p) <= k < p.len() ==> p[k] != '/',
        file_name_start(p) > 0 ==> p[file_name_start(p) - 1] == '/',
    decreases p.len(),
{
    if p.len() > 0 && p.last() != '/' {
        lemma_file_name_start_bounds(p.drop_last());
        assert forall|k: int| file_name_start(p) <= k < p.len() implies p[k] != '/' by {
            if k < p.len() - 1 {
                assert(p.drop_last()[k] == p[k]);
            }
        }
    }
}

proof fn lemma_last_dot_bounds(s: Seq<char>)
    ensures
        -1 <= last_dot(s) < s.len(),
        forall|k: int| last_dot(s) < k < s.len() ==> s[k] != '.',
        last_dot(s) >= 0 ==> s[last_dot(s)] == '.',
    decreases s.len(),
{
    if s.len() > 0 && s.last() != '.' {
        lemma_last_dot_bounds(s.drop_last());
        assert forall|k: int| last_dot(s) < k < s.len() implies s[k] != '.' by {
            if k < s.len() - 1 {
                assert(s.drop_last()[k] == s[k]);
            }
        }
    }
}

/// Copies the characters of `s` into a vector.
pub fn chars_of(s: &str) -> (r: Vec<char>)
    ensures
        r@ == s@,
{
    let n = s.unicode_len();
    let mut r: Vec<char> = Vec::new();
    let mut i: usize = 0;
    while i < n
        invariant
            n == s@.len(),
            i <= n,
            r@ == s@.subrange(0, i as int),
        decreases n - i,
    {
        r.push(s.get_char(i));
        i = i + 1;
    }
    assert(r@ =~= s@);
    r
}

/// Builds a string from characters.
pub fn string_of(cs: &Vec<char>, from: usize, to: usize) -> (r: String)
    requires
        from <= to <= cs.len(),
    ensures
        r@ == cs@.subrange(from as int, to as int),
{
    let mut r = String::new();
    let mut i: usize = from;
    while i < to
        invariant
            from <= i <= to <= cs.len(),
            r@ == cs@.subrange(from as int, i as int),
        decreases to - i,
    {
        let mut one = String::new();
        push_char(&mut one, cs[i]);
        r.append(one.as_str());
        i = i + 1;
        assert(r@ =~= cs@.subrange(from as int, i as int));
    }
    r
}

/// Relies on String::push: appends one character.
#[verifier::external_body]
fn push_char(s: &mut String, c: char)
    ensures
        final(s)@ == old(s)@.push(c),
{
    s.push(c)
}

/// The index where the file name of `p` starts.
pub(crate) fn file_name_start_exec(p: &Vec<char>) -> (r: usize)
    ensures
        r == file_name_start(p@),
{
    let mut k: usize = p.len();
    assert(p@.subrange(0, k as int) =~= p@);
    while k > 0 && p[k - 1] != '/'
        invariant
            k <= p.len(),
            file_name_start(p@) == file_name_start(p@.subrange(0, k as int)),
        decreases k,
    {
        assert(p@.subrange(0, k as int).drop_last() =~= p@.subrange(0, k - 1));
        k = k - 1;
    }
    if k > 0 {
        assert(p@.subrange(0, k as int).last() == '/');
    } else {
        assert(p@.subrange(0, 0) =~= Seq::<char>::empty());
    }
    k
}

/// The extension of a path, as [`extension_of`] defines it.
pub fn extension(path: &str) -> (r: Option<String>)
    ensures
        r matches Some(e) ==> extension_of(path@) == Some(e@),
        r is None ==> extension_of(path@) is None,
{
    let p = chars_of(path);
    let start = file_name_start_exec(&p);
    let ghost name = file_name_of(p@);
    proof {
        lemma_file_name_start_bounds(p@);
    }
    let mut k: usize = p.len();
    assert(name.subrange(0, k - start) =~= name);
    // look for the last dot within the file name
    while k > start && p[k - 1] != '.'
        invariant
            start <= k <= p.len(),
            start == file_name_start(p@),
            name == p@.subrange(start as int, p.len() as int),
            last_dot(name) == last_dot(name.subrange(0, k - start)),
        decreases k,
    {
        assert(name.subrange(0, k - start).drop_last() =~= name.subrange(0, k - 1 - start));
        k = k - 1;
    }
    let ghost d = last_dot(name);
    if k > start {
        assert(name.subrange(0, k - start).last() == '.');
        assert(d == k - 1 - start);
    } else {
        assert(name.subrange(0, 0) =~= Seq::<char>::empty());
        assert(d == -1);
    }
    if k - start <= 1 {
        return None;
    }
    let n = p.len();
    if n - start == 2 && p[start] == '.' && p[start + 1] == '.' {
        assert(name =~= seq!['.', '.']);
        return None;
    }
    proof {
        if name == seq!['.', '.'] {
            assert(name[0] == p@[start as int]);
            assert(name[1] == p@[start + 1]);
        }
    }
    let e = string_of(&p, k, n);
    assert(e@ =~= name.subrange(d + 1, name.len() as int));
    Some(e)
}

/// The file name of a path without its extension.
pub open spec fn file_stem_of(p: Seq<char>) -> Seq<char> {
    let name = file_name_of(p);
    let d = last_dot(name);
    if d <= 0 || name == seq!['.', '.'] {
        name
    } else {
        name.subrange(0, d)
    }
}

/// The file name of a path without its extension, as [`file_stem_of`] defines it.
pub fn file_stem(path: &str) -> (r: String)
    ensures
        r@ == file_stem_of(path@),
{
    let p = chars_of(path);
    let start = file_name_start_exec(&p);
    let ghost name = file_name_of(p@);
    proof {
        lemma_file_name_start_bounds(p@);
    }
    let n = p.len();
    let mut k: usize = n;
    assert(name.subrange(0, k - start) =~= name);
    while k > start && p[k - 1] != '.'
        invariant
            start <= k <= n,
            n == p.len(),
            start == file_name_start(p@),
            name == p@.subrange(start as int, n as int),
            last_dot(name) == last_dot(name.subrange(0, k - start)),
        decreases k,
    {
        assert(name.subrange(0, k - start).drop_last() =~= name.subrange(0, k - 1 - start));
        k = k - 1;
    }
    let ghost d = last_dot(name);
    if k > start {
        assert(name.subrange(0, k - start).last() == '.');
        assert(d == k - 1 - start);
    } else {
        assert(name.subrange(0, 0) =~= Seq::<char>::empty());
        assert(d == -1);
    }
    proof {
        if name == seq!['.', '.'] {
            assert(name[0] == p@[start as int]);
            assert(name[1] == p@[start + 1]);
        }
    }
    if k - start <= 1 || (n - start == 2 && p[start] == '.' && p[start + 1] == '.') {
        if n - start == 2 && p[start] == '.' && p[start + 1] == '.' {
            assert(name =~= seq!['.', '.']);
        }
        return string_of(&p, start, n);
    }
    let r = string_of(&p, start, k - 1);
    assert(r@ =~= name.subrange(0, d));
    r
}

/// The name a language is shown by.
pub open spec fn language_name(l: SupportedLanguage) -> Seq<char> {
    match l {
        SupportedLanguage::Go => seq!['g', 'o'],
        SupportedLanguage::Python => seq!['p', 'y', 't', 'h', 'o', 'n'],
        SupportedLanguage::Rust => seq!['r', 'u', 's', 't'],
    }
}

impl SupportedLanguage {
    /// Every supported language, in order.
    pub fn all() -> (r: Vec<SupportedLanguage>)
        ensures
            r@ == seq![SupportedLanguage::Go, SupportedLanguage::Python, SupportedLanguage::Rust],
    {
        let r = vec![SupportedLanguage::Go, SupportedLanguage::Python, SupportedLanguage::Rust];
        assert(r@ =~= seq![SupportedLanguage::Go, SupportedLanguage::Python, SupportedLanguage::Rust]);
        r
    }

    /// The name the language is shown by.
    pub fn name(&self) -> (r: String)
        ensures
            r@ == language_name(*self),
    {
        let cs: Vec<char> = match self {
            SupportedLanguage::Go => vec!['g', 'o'],
            SupportedLanguage::Python => vec!['p', 'y', 't', 'h', 'o', 'n'],
            SupportedLanguage::Rust => vec!['r', 'u', 's', 't'],
        };
        assert(cs@ =~= language_name(*self));
        string_of(&cs, 0, cs.len())
    }

    /// The language registered for an extension.
    pub fn try_from_extension(ext: &str) -> (r: Option<SupportedLanguage>)
        ensures
            r == language_of_extension(ext@),
    {
        let n = ext.unicode_len();
        if n != 2 {
            proof {
                reveal_strlit("go");
            }
            assert(ext@.len() != 2);
            return None;
        }
        let a = ext.get_char(0);
        let b = ext.get_char(1);
        if a == 'g' && b == 'o' {
            assert(ext@ =~= seq!['g', 'o']);
            Some(SupportedLanguage::Go)
        } else if a == 'p' && b == 'y' {
            assert(ext@ =~= seq!['p', 'y']);
            Some(SupportedLanguage::Python)
        } else if a == 'r' && b == 's' {
            assert(ext@ =~= seq!['r', 's']);
            Some(SupportedLanguage::Rust)
        } else {
            None
        }
    }

    /// The language of a file, detected from its path's extension.
    pub fn of_path(path: &str) -> (r: Option<SupportedLanguage>)
        ensures
            r == language_of_path(path@),
    {
        match extension(path) {
            Some(e) => SupportedLanguage::try_from_extension(e.as_str()),
            None => None,
        }
    }
}

} // verus!
