use vstd::prelude::*;
use vstd::utf8::{decode_utf8, encode_utf8, valid_utf8};
use crate::location::Location;
use tree_sitter::Node as SyntaxNode;
use crate::source_file::ParsedSourceFile;

verus! {

#[verifier::external_type_specification]
#[verifier::external_body]
pub struct ExTsNode<'tree>(SyntaxNode<'tree>);

/// Relies on tree_sitter::Node::id: an identifier unique among the live nodes of a tree.
#[verifier::external_body]
fn ts_id(node: &SyntaxNode) -> usize {
    node.id()
}

/// Relies on tree_sitter::Node::grammar_name: the node's symbol as the grammar names it.
#[verifier::external_body]
fn ts_grammar_name(node: &SyntaxNode) -> &'static str {
    node.grammar_name()
}

/// Relies on tree_sitter::Node::start_position: row and column where the node starts.
#[verifier::external_body]
fn ts_start_position(node: &SyntaxNode) -> (usize, usize) {
    let p = node.start_position();
    (p.row, p.column)
}

/// Relies on tree_sitter::Node::end_position: row and column just past the node's end.
#[verifier::external_body]
fn ts_end_position(node: &SyntaxNode) -> (usize, usize) {
    let p = node.end_position();
    (p.row, p.column)
}

/// Relies on tree_sitter::Node::start_byte: the byte offset where the node starts.
#[verifier::external_body]
fn ts_start_byte(node: &SyntaxNode) -> usize {
    node.start_byte()
}

/// Relies on tree_sitter::Node::end_byte: the byte offset just past the node's end.
#[verifier::external_body]
fn ts_end_byte(node: &SyntaxNode) -> usize {
    node.end_byte()
}

/// Relies on tree_sitter::Node::to_sexp: the subtree as an s-expression.
#[verifier::external_body]
fn ts_to_sexp(node: &SyntaxNode) -> String {
    node.to_sexp()
}

/// Relies on String::from_utf8: the text the bytes encode, where they are valid UTF-8.
#[verifier::external_body]
fn utf8_string(bytes: Vec<u8>) -> (r: Option<String>)
    ensures
        r is Some <==> valid_utf8(bytes@),
        r matches Some(s) ==> s@ == decode_utf8(bytes@),
{
    String::from_utf8(bytes).ok()
}

/// The text of a byte range of a file's content, where the range lies in the content
/// and holds valid UTF-8.
pub fn text_between(content: &str, start: usize, end: usize) -> (r: Option<String>)
    ensures
        r is Some <==> start <= end <= encode_utf8(content@).len() && valid_utf8(
            encode_utf8(content@).subrange(start as int, end as int),
        ),
        r matches Some(t) ==> t@ == decode_utf8(
            encode_utf8(content@).subrange(start as int, end as int),
        ),
{
    let bytes = content.as_bytes_vec();
    if start > end || end > bytes.len() {
        return None;
    }
    let mut part: Vec<u8> = Vec::with_capacity(end - start);
    let mut k: usize = start;
    while k < end
        invariant
            start <= k <= end <= bytes.len(),
            bytes@ == encode_utf8(content@),
            part@ == bytes@.subrange(start as int, k as int),
        decreases end - k,
    {
        part.push(bytes[k]);
        k = k + 1;
        assert(part@ =~= bytes@.subrange(start as int, k as int));
    }
    utf8_string(part)
}

/// A node captured by a search: a handle into the syntax tree of a parsed file,
/// which it borrows, with the node's attributes read once when the handle is made.
/// Two handles are the same node when their identifiers agree.
#[derive(Clone, Copy, Debug)]
pub struct Node<'v> {
    ts_node: SyntaxNode<'v>,
    pub source_file: &'v ParsedSourceFile,
    id: usize,
    kind: &'static str,
    location: Location,
    start_byte: usize,
    end_byte: usize,
}

impl<'v> Node<'v> {
    pub closed spec fn spec_source_file(&self) -> &'v ParsedSourceFile {
        self.source_file
    }

    /// The node's identifier in its tree.
    pub closed spec fn spec_id(&self) -> usize {
        self.id
    }

    /// The node's grammar symbol.
    pub closed spec fn spec_kind(&self) -> Seq<char> {
        self.kind@
    }

    /// The node's span in rows and columns.
    pub closed spec fn spec_location(&self) -> Location {
        self.location
    }

    /// The byte offset where the node starts.
    pub closed spec fn spec_start_byte(&self) -> usize {
        self.start_byte
    }

    /// The byte offset just past the node's end.
    pub closed spec fn spec_end_byte(&self) -> usize {
        self.end_byte
    }

    /// The handle of a node of `source_file`'s tree.
    pub fn new(ts_node: SyntaxNode<'v>, source_file: &'v ParsedSourceFile) -> (r: Node<'v>)
        ensures
            r.spec_source_file() == source_file,
    {
        let (start_row, start_column) = ts_start_position(&ts_node);
        let (end_row, end_column) = ts_end_position(&ts_node);
        Node {
            ts_node,
            source_file,
            id: ts_id(&ts_node),
            kind: ts_grammar_name(&ts_node),
            location: Location { start_row, start_column, end_row, end_column },
            start_byte: ts_start_byte(&ts_node),
            end_byte: ts_end_byte(&ts_node),
        }
    }

    /// The node in the parser library's terms.
    pub fn ts_node(&self) -> SyntaxNode<'v> {
        self.ts_node
    }

    /// The node's identifier, which equality and hashing go by.
    pub fn id(&self) -> (r: usize)
        ensures
            r == self.spec_id(),
    {
        self.id
    }

    /// Whether two handles are the same node: identity goes by the identifier, never
    /// by content.
    pub fn same_node(&self, other: &Node) -> (r: bool)
        ensures
            r == (self.spec_id() == other.spec_id()),
    {
        self.id == other.id
    }

    /// The `kind` attribute: the node's grammar symbol.
    pub fn kind(&self) -> (r: &'static str)
        ensures
            r@ == self.spec_kind(),
    {
        self.kind
    }

    /// The `location` attribute: the node's span.
    pub fn location(&self) -> (r: Location)
        ensures
            r == self.spec_location(),
    {
        Location::of(self)
    }

    /// The node's text: the bytes of its file's content in the node's byte range, where
    /// the range lies in the content and holds valid UTF-8.
    pub fn text(&self) -> (r: Option<String>)
        ensures
            ({
                let bytes = encode_utf8(self.spec_source_file().content@);
                let s = self.spec_start_byte() as int;
                let e = self.spec_end_byte() as int;
                &&& r is Some <==> s <= e <= bytes.len() && valid_utf8(bytes.subrange(s, e))
                &&& r matches Some(t) ==> t@ == decode_utf8(bytes.subrange(s, e))
            }),
    {
        text_between(self.source_file.content.as_str(), self.start_byte, self.end_byte)
    }

    /// The subtree as an s-expression: the node's display form.
    pub fn to_sexp(&self) -> String {
        ts_to_sexp(&self.ts_node)
    }
}

impl Location {
    /// The span of a captured node: where it starts and just past where it ends.
    pub fn of(node: &Node) -> (r: Location)
        ensures
            r == node.spec_location(),
    {
        node.location
    }
}

} // verus!
