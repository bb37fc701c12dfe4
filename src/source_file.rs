use vstd::prelude::*;
use crate::language::{chars_of, language_name, language_of_path, string_of, SupportedLanguage};
use crate::walk::has_prefix;

verus! {

#[verifier::external_type_specification]
#[verifier::external_body]
pub struct ExTree(tree_sitter::Tree);

#[verifier::external_type_specification]
#[verifier::external_body]
pub struct ExParser(tree_sitter::Parser);

#[verifier::external_type_specification]
#[verifier::external_body]
pub struct ExTsLanguage(tree_sitter::Language);

#[verifier::external_type_specification]
#[verifier::external_body]
pub struct ExLanguageError(tree_sitter::LanguageError);

/// Relies on tree_sitter::Parser::new: a parser with no language yet.
pub assume_specification[ tree_sitter::Parser::new ]() -> tree_sitter::Parser;

/// Whether the parser library refuses a language's grammar (its ABI version is outside
/// the range the library supports): a property of the grammar alone.
pub uninterp spec fn grammar_refused(language: SupportedLanguage) -> bool;

/// Whether a text, parsed with a language's grammar, holds a syntax error anywhere.
pub uninterp spec fn syntax_error_of(language: SupportedLanguage, text: Seq<char>) -> bool;

/// A language's grammar as the parser library holds it, tagged with the language.
#[derive(Debug)]
pub struct Grammar {
    ts: tree_sitter::Language,
    language: SupportedLanguage,
}

impl Grammar {
    pub closed spec fn spec_language(&self) -> SupportedLanguage {
        self.language
    }
}

/// Relies on tree_sitter_go::language: the Go grammar.
#[verifier::external_body]
fn go_grammar() -> (r: Grammar)
    ensures
        r.spec_language() == SupportedLanguage::Go,
{
    Grammar { ts: tree_sitter_go::language(), language: SupportedLanguage::Go }
}

/// Relies on tree_sitter_python::language: the Python grammar.
#[verifier::external_body]
fn python_grammar() -> (r: Grammar)
    ensures
        r.spec_language() == SupportedLanguage::Python,
{
    Grammar { ts: tree_sitter_python::language(), language: SupportedLanguage::Python }
}

/// Relies on tree_sitter_rust::language: the Rust grammar.
#[verifier::external_body]
fn rust_grammar() -> (r: Grammar)
    ensures
        r.spec_language() == SupportedLanguage::Rust,
{
    Grammar { ts: tree_sitter_rust::language(), language: SupportedLanguage::Rust }
}

/// The grammar the parser library has for a language.
pub fn grammar(language: SupportedLanguage) -> (r: Grammar)
    ensures
        r.spec_language() == language,
{
    match language {
        SupportedLanguage::Go => go_grammar(),
        SupportedLanguage::Python => python_grammar(),
        SupportedLanguage::Rust => rust_grammar(),
    }
}

/// Whether a query's text compiles against a language's grammar.
pub uninterp spec fn query_compiles(language: SupportedLanguage, text: Seq<char>) -> bool;

/// Relies on tree_sitter::Query::new: compiles a query's text for a grammar, or
/// fails with the place of the first error in the text; which of the two depends on
/// the grammar and the text alone.
#[verifier::external_body]
pub(crate) fn compile_query(grammar: &Grammar, text: &str) -> (r: Result<
    tree_sitter::Query,
    tree_sitter::QueryError,
>)
    ensures
        r is Ok <==> query_compiles(grammar.spec_language(), text@),
{
    tree_sitter::Query::new(&grammar.ts, text)
}

/// Relies on tree_sitter::Parser::set_language: loads a grammar into the parser, and
/// fails only where the grammar's ABI version is out of the supported range.
#[verifier::external_body]
fn set_grammar(parser: &mut tree_sitter::Parser, grammar: &Grammar) -> (r: Result<
    (),
    tree_sitter::LanguageError,
>)
    ensures
        r is Err <==> grammar_refused(grammar.spec_language()),
{
    parser.set_language(&grammar.ts)
}

/// A parser with a language's grammar loaded; only [`LanguageParser::new`] makes one.
pub struct LanguageParser {
    parser: tree_sitter::Parser,
    language: SupportedLanguage,
}

/// Relies on tree_sitter::Parser::parse, tree_sitter::Tree::root_node and
/// tree_sitter::Node::has_error: the tree of a text, and whether it holds a syntax
/// error anywhere. `parse` yields no tree only where no language is loaded or a
/// timeout or cancellation flag is set; a `LanguageParser` has its grammar loaded and
/// sets neither.
#[verifier::external_body]
fn parse_checked(p: &mut LanguageParser, text: &str) -> (r: Option<(tree_sitter::Tree, bool)>)
    ensures
        final(p).spec_language() == old(p).spec_language(),
        r is Some,
        r matches Some((_, e)) ==> e == syntax_error_of(old(p).spec_language(), text@),
{
    match p.parser.parse(text, None) {
        Some(tree) => {
            let e = tree.root_node().has_error();
            Some((tree, e))
        },
        None => None,
    }
}

impl LanguageParser {
    pub closed spec fn spec_language(&self) -> SupportedLanguage {
        self.language
    }

    /// A parser for a language, unless the parser library refuses its grammar.
    pub fn new(language: SupportedLanguage) -> (r: Result<LanguageParser, tree_sitter::LanguageError>)
        ensures
            r is Err <==> grammar_refused(language),
            r matches Ok(p) ==> p.spec_language() == language,
    {
        let mut parser = tree_sitter::Parser::new();
        let g = grammar(language);
        match set_grammar(&mut parser, &g) {
            Ok(()) => Ok(LanguageParser { parser, language }),
            Err(e) => Err(e),
        }
    }
}

/// The path shown for a file: under the project root, the part after the root without
/// its leading `/`; elsewhere, the path as given.
pub open spec fn pretty_of(root: Seq<char>, p: Seq<char>) -> Seq<char> {
    if root.len() <= p.len() && p.subrange(0, root.len() as int) == root {
        let r = p.subrange(root.len() as int, p.len() as int);
        if r.len() > 0 && r[0] == '/' {
            r.drop_first()
        } else {
            r
        }
    } else {
        p
    }
}

/// A path named relative to a directory: kept when absolute, else joined to it.
pub open spec fn joined(dir: Seq<char>, p: Seq<char>) -> Seq<char> {
    if p.len() > 0 && p[0] == '/' {
        p
    } else {
        dir + seq!['/'] + p
    }
}

/// A file's absolute path, and the project-relative path that rule modules and
/// diagnostics see.
#[derive(Debug)]
pub struct SourcePath {
    pub abs_path: String,
    pub pretty_path: String,
}

impl SourcePath {
    /// The path of a file under a project root.
    pub fn new(path: &str, project_root: &str) -> (r: SourcePath)
        ensures
            r.abs_path@ == path@,
            r.pretty_path@ == pretty_of(project_root@, path@),
    {
        let root = chars_of(project_root);
        let p = chars_of(path);
        let n = p.len();
        let pretty = if has_prefix(&root, &p) {
            let k = root.len();
            if k < n && p[k] == '/' {
                let s = string_of(&p, k + 1, n);
                assert(s@ =~= p@.subrange(k as int, n as int).drop_first());
                s
            } else {
                string_of(&p, k, n)
            }
        } else {
            string_of(&p, 0, n)
        };
        assert(p@.subrange(0, n as int) =~= p@);
        SourcePath { abs_path: string_of(&p, 0, n), pretty_path: pretty }
    }

    /// The path of a file named as given relative to a directory (an argument on the
    /// command line): shown as given.
    pub fn new_in(path: &str, dir: &str) -> (r: SourcePath)
        ensures
            r.abs_path@ == joined(dir@, path@),
            r.pretty_path@ == path@,
    {
        let p = chars_of(path);
        let n = p.len();
        assert(p@.subrange(0, n as int) =~= p@);
        let abs = if n > 0 && p[0] == '/' {
            string_of(&p, 0, n)
        } else {
            let mut v = chars_of(dir);
            v.push('/');
            let mut rest = chars_of(path);
            v.append(&mut rest);
            assert(v@ =~= dir@ + seq!['/'] + path@);
            assert(v@.subrange(0, v.len() as int) =~= v@);
            string_of(&v, 0, v.len())
        };
        SourcePath { abs_path: abs, pretty_path: string_of(&p, 0, n) }
    }

    pub fn duplicate(&self) -> (r: SourcePath)
        ensures
            r.abs_path@ == self.abs_path@,
            r.pretty_path@ == self.pretty_path@,
    {
        SourcePath { abs_path: self.abs_path.clone(), pretty_path: self.pretty_path.clone() }
    }
}

/// What reading a file failed at.
#[derive(Clone, Copy, Debug, PartialEq, Eq, Structural)]
pub enum IoAction {
    Read,
}

/// The errors that stop a run.
#[derive(Debug)]
pub enum Error {
    /// A file could not be read; the cause as the system put it.
    Io { path: String, action: IoAction, cause: String },
    /// No language is known for the file.
    Unparseable(String),
    /// The parser found a syntax error in the file.
    UnparseableAsLanguage { path: String, language: SupportedLanguage },
    /// The parser library refused a grammar.
    Grammar(tree_sitter::LanguageError),
    /// A rule module's query does not compile.
    Query(tree_sitter::QueryError),
}

pub open spec fn cannot_parse(path: Seq<char>) -> Seq<char> {
    seq!['c', 'a', 'n', 'n', 'o', 't', ' ', 'p', 'a', 'r', 's', 'e', ' '] + path
}

pub open spec fn cannot_read(path: Seq<char>, cause: Seq<char>) -> Seq<char> {
    seq!['c', 'a', 'n', 'n', 'o', 't', ' ', 'r', 'e', 'a', 'd', ' '] + path + seq![':', ' '] + cause
}

fn cannot_parse_exec(path: &str) -> (r: Vec<char>)
    ensures
        r@ == cannot_parse(path@),
{
    let mut v: Vec<char> = vec!['c', 'a', 'n', 'n', 'o', 't', ' ', 'p', 'a', 'r', 's', 'e', ' '];
    let mut p = chars_of(path);
    v.append(&mut p);
    assert(v@ =~= cannot_parse(path@));
    v
}

impl Error {
    /// The message shown for an error about a file; `None` for a refused grammar.
    pub fn file_message(&self) -> (r: Option<String>)
        ensures
            self matches Error::Unparseable(p) ==> (r matches Some(m) && m@ == cannot_parse(p@)),
            self matches Error::UnparseableAsLanguage { path, language } ==> (r matches Some(m)
                && m@ == cannot_parse(path@) + seq![' ', 'a', 's', ' '] + language_name(*language)),
            self matches Error::Io { path, cause, .. } ==> (r matches Some(m) && m@ == cannot_read(
                path@,
                cause@,
            )),
            self is Grammar || self is Query ==> r is None,
    {
        match self {
            Error::Unparseable(p) => {
                let v = cannot_parse_exec(p.as_str());
                Some(string_of(&v, 0, v.len()))
            },
            Error::UnparseableAsLanguage { path, language } => {
                let mut v = cannot_parse_exec(path.as_str());
                v.push(' ');
                v.push('a');
                v.push('s');
                v.push(' ');
                let mut n = chars_of(language.name().as_str());
                v.append(&mut n);
                assert(v@ =~= cannot_parse(path@) + seq![' ', 'a', 's', ' '] + language_name(
                    *language,
                ));
                Some(string_of(&v, 0, v.len()))
            },
            Error::Io { path, cause, .. } => {
                let mut v: Vec<char> = vec!['c', 'a', 'n', 'n', 'o', 't', ' ', 'r', 'e', 'a', 'd', ' '];
                let mut p = chars_of(path.as_str());
                v.append(&mut p);
                v.push(':');
                v.push(' ');
                let mut c = chars_of(cause.as_str());
                v.append(&mut c);
                assert(v@ =~= cannot_read(path@, cause@));
                Some(string_of(&v, 0, v.len()))
            },
            Error::Grammar(_) => None,
            Error::Query(_) => None,
        }
    }
}

/// A file of the project, with the language detected from its extension.
#[derive(Debug)]
pub struct SourceFile {
    path: SourcePath,
    language: Option<SupportedLanguage>,
}

/// A file read and parsed.
#[derive(Debug)]
pub struct ParsedSourceFile {
    pub path: SourcePath,
    pub content: String,
    pub language: SupportedLanguage,
    pub tree: tree_sitter::Tree,
}

impl PartialEq for ParsedSourceFile {
    fn eq(&self, other: &ParsedSourceFile) -> (r: bool) {
        self.path.abs_path == other.path.abs_path && self.path.pretty_path == other.path.pretty_path
            && self.content == other.content && self.language == other.language
    }
}

impl vstd::std_specs::cmp::PartialEqSpecImpl for ParsedSourceFile {
    open spec fn obeys_eq_spec() -> bool {
        true
    }

    open spec fn eq_spec(&self, other: &ParsedSourceFile) -> bool {
        &&& self.path.abs_path@ == other.path.abs_path@
        &&& self.path.pretty_path@ == other.path.pretty_path@
        &&& self.content@ == other.content@
        &&& self.language == other.language
    }
}

impl SourceFile {
    pub closed spec fn spec_path(&self) -> &SourcePath {
        &self.path
    }

    pub closed spec fn spec_language(&self) -> Option<SupportedLanguage> {
        self.language
    }

    /// A file at a path; its language comes from the extension alone.
    pub fn new(path: SourcePath) -> (r: Result<SourceFile, Error>)
        ensures
            r matches Ok(f) && f.spec_path().abs_path@ == path.abs_path@
                && f.spec_path().pretty_path@ == path.pretty_path@
                && f.spec_language() == language_of_path(path.abs_path@),
    {
        let language = SupportedLanguage::of_path(path.abs_path.as_str());
        Ok(SourceFile { path, language })
    }

    pub fn path(&self) -> (r: &SourcePath)
        ensures
            r == self.spec_path(),
    {
        &self.path
    }

    pub fn language(&self) -> (r: Option<SupportedLanguage>)
        ensures
            r == self.spec_language(),
    {
        self.language
    }

    /// Whether a language is known for the file.
    pub fn parseable(&self) -> (r: bool)
        ensures
            r == self.spec_language() is Some,
    {
        self.language.is_some()
    }

    /// The error for a file that could not be read, with the cause as the system put it.
    pub fn read_error(&self, cause: String) -> (r: Error)
        ensures
            r matches Error::Io { path, action, cause: c } && path@ == self.spec_path().pretty_path@
                && action == IoAction::Read && c@ == cause@,
    {
        Error::Io { path: self.path.pretty_path.clone(), action: IoAction::Read, cause }
    }

    /// Parses the file's content. A file of no known language is `Unparseable`; a
    /// refused grammar stops with the parser library's error; a tree with a syntax
    /// error anywhere makes the file `UnparseableAsLanguage`; otherwise the file parses.
    pub fn parse(&self, content: String) -> (r: Result<ParsedSourceFile, Error>)
        ensures
            match self.spec_language() {
                None => r matches Err(Error::Unparseable(p)) && p@ == self.spec_path().pretty_path@,
                Some(l) => if grammar_refused(l) {
                    r is Err && r->Err_0 is Grammar
                } else if syntax_error_of(l, content@) {
                    r matches Err(Error::UnparseableAsLanguage { path, language }) && path@
                        == self.spec_path().pretty_path@ && language == l
                } else {
                    r matches Ok(f) && f.content@ == content@ && f.language == l
                        && f.path.abs_path@ == self.spec_path().abs_path@ && f.path.pretty_path@
                        == self.spec_path().pretty_path@
                },
            },
    {
        let language = match self.language {
            Some(l) => l,
            None => {
                return Err(Error::Unparseable(self.path.pretty_path.clone()));
            },
        };
        let mut parser = match LanguageParser::new(language) {
            Ok(p) => p,
            Err(e) => {
                return Err(Error::Grammar(e));
            },
        };
        let (tree, has_error) = match parse_checked(&mut parser, content.as_str()) {
            Some(t) => t,
            None => {
                return Err(
                    Error::UnparseableAsLanguage { path: self.path.pretty_path.clone(), language },
                );
            },
        };
        if has_error {
            return Err(
                Error::UnparseableAsLanguage { path: self.path.pretty_path.clone(), language },
            );
        }
        Ok(ParsedSourceFile { path: self.path.duplicate(), content, language, tree })
    }
}

} // verus!
