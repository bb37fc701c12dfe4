use vstd::prelude::*;
use crate::language::chars_of;

verus! {

/// Glob matching of `p[i..]` against `t[j..]`: `**` matches any run of characters,
/// `*` any run without `/`, `?` one character other than `/`, anything else itself.
pub open spec fn glob_at(p: Seq<char>, i: int, t: Seq<char>, j: int) -> bool
    decreases (p.len() - i) + (t.len() - j),
{
    if i < 0 || j < 0 || i > p.len() || j > t.len() {
        false
    } else if i == p.len() {
        j == t.len()
    } else if p[i] == '*' && i + 1 < p.len() && p[i + 1] == '*' {
        glob_at(p, i + 2, t, j) || (j < t.len() && glob_at(p, i, t, j + 1))
    } else if p[i] == '*' {
        glob_at(p, i + 1, t, j) || (j < t.len() && t[j] != '/' && glob_at(p, i, t, j + 1))
    } else if j == t.len() {
        false
    } else if p[i] == '?' {
        t[j] != '/' && glob_at(p, i + 1, t, j + 1)
    } else {
        p[i] == t[j] && glob_at(p, i + 1, t, j + 1)
    }
}

/// Whether a whole glob matches a whole text.
pub open spec fn glob(p: Seq<char>, t: Seq<char>) -> bool {
    glob_at(p, 0, t, 0)
}

/// A pattern as written is anchored at the project root when it starts with `/`;
/// otherwise it may match at any depth.
pub open spec fn anchored(pattern: Seq<char>) -> Seq<char> {
    if pattern.len() > 0 && pattern[0] == '/' {
        pattern
    } else {
        seq!['*', '*', '/'] + pattern
    }
}

/// Whether a pattern, as written, matches a project-relative path (one that starts
/// with `/`, such as `/src/main.rs`).
pub open spec fn pattern_matches(pattern: Seq<char>, rel_path: Seq<char>) -> bool {
    glob(anchored(pattern), rel_path)
}

/// Whether any pattern of a list matches a project-relative path.
pub open spec fn any_matches(patterns: Seq<Seq<char>>, rel_path: Seq<char>) -> bool {
    exists|k: int| 0 <= k < patterns.len() && pattern_matches(#[trigger] patterns[k], rel_path)
}

/// A compiled path pattern, used for the ignore and the allow lists.
#[derive(Debug)]
pub struct FilePattern {
    source: String,
    glob: Vec<char>,
}

impl View for FilePattern {
    type V = Seq<char>;

    /// The pattern as written.
    closed spec fn view(&self) -> Seq<char> {
        self.source@
    }
}

impl FilePattern {
    pub closed spec fn wf(&self) -> bool {
        self.glob@ == anchored(self.source@)
    }

    /// Compiles a pattern as written.
    pub fn new(source: &str) -> (r: FilePattern)
        ensures
            r@ == source@,
            r.wf(),
    {
        let cs = chars_of(source);
        let glob = if cs.len() > 0 && cs[0] == '/' {
            cs
        } else {
            let mut g: Vec<char> = vec!['*', '*', '/'];
            let mut rest = cs;
            g.append(&mut rest);
            g
        };
        proof {
            assert(glob@ =~= anchored(source@));
        }
        let mut s = String::new();
        s.append(source);
        FilePattern { source: s, glob }
    }

    /// The pattern as written.
    pub fn as_str(&self) -> (r: &str)
        ensures
            r@ == self@,
    {
        self.source.as_str()
    }

    /// Whether the pattern matches a project-relative path.
    pub fn matches(&self, rel_path: &str) -> (r: bool)
        requires
            self.wf(),
        ensures
            r == pattern_matches(self@, rel_path@),
    {
        let t = chars_of(rel_path);
        glob_exec(&self.glob, 0, &t, 0)
    }
}

fn glob_exec(p: &Vec<char>, i: usize, t: &Vec<char>, j: usize) -> (r: bool)
    requires
        i <= p.len(),
        j <= t.len(),
    ensures
        r == glob_at(p@, i as int, t@, j as int),
    decreases (p.len() - i) + (t.len() - j),
{
    if i == p.len() {
        j == t.len()
    } else if p[i] == '*' && i + 1 < p.len() && p[i + 1] == '*' {
        glob_exec(p, i + 2, t, j) || (j < t.len() && glob_exec(p, i, t, j + 1))
    } else if p[i] == '*' {
        glob_exec(p, i + 1, t, j) || (j < t.len() && t[j] != '/' && glob_exec(p, i, t, j + 1))
    } else if j == t.len() {
        false
    } else if p[i] == '?' {
        t[j] != '/' && glob_exec(p, i + 1, t, j + 1)
    } else {
        p[i] == t[j] && glob_exec(p, i + 1, t, j + 1)
    }
}

/// Whether some pattern of the list matches a project-relative path.
pub fn any_pattern_matches(patterns: &Vec<FilePattern>, rel_path: &str) -> (r: bool)
    requires
        forall|k: int| 0 <= k < patterns.len() ==> (#[trigger] patterns[k]).wf(),
    ensures
        r == any_matches(patterns@.map_values(|q: FilePattern| q@), rel_path@),
{
    let ghost views = patterns@.map_values(|q: FilePattern| q@);
    let mut k: usize = 0;
    while k < patterns.len()
        invariant
            k <= patterns.len(),
            views == patterns@.map_values(|q: FilePattern| q@),
            forall|m: int| 0 <= m < patterns.len() ==> (#[trigger] patterns[m]).wf(),
            forall|m: int| 0 <= m < k ==> !pattern_matches(#[trigger] views[m], rel_path@),
        decreases patterns.len() - k,
    {
        if patterns[k].matches(rel_path) {
            assert(pattern_matches(views[k as int], rel_path@));
            return true;
        }
        k = k + 1;
    }
    false
}

} // verus!
