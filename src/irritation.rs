use vstd::prelude::*;
use crate::language::{chars_of, string_of};
use crate::location::{lemma_location_cmp, location_cmp, location_text, Location};

verus! {

/// Rank of a character in the order of texts; in paths `/` ranks below every other
/// character, so that paths order component by component.
pub open spec fn rank(c: char, path: bool) -> int {
    if path && c == '/' {
        -1
    } else {
        c as int
    }
}

/// Lexicographic order of two texts: -1, 0 or 1.
pub open spec fn text_cmp(a: Seq<char>, b: Seq<char>, path: bool) -> int
    decreases a.len(),
{
    if a.len() == 0 {
        if b.len() == 0 {
            0
        } else {
            -1
        }
    } else if b.len() == 0 {
        1
    } else if rank(a[0], path) < rank(b[0], path) {
        -1
    } else if rank(a[0], path) > rank(b[0], path) {
        1
    } else {
        text_cmp(a.drop_first(), b.drop_first(), path)
    }
}

proof fn lemma_char_nonneg(c: char)
    ensures
        c as int >= 0,
{
}

pub proof fn lemma_text_cmp(a: Seq<char>, b: Seq<char>, c: Seq<char>, path: bool)
    ensures
        text_cmp(a, b, path) == -text_cmp(b, a, path),
        text_cmp(a, b, path) == 0 ==> a == b,
        -1 <= text_cmp(a, b, path) <= 1,
        text_cmp(a, b, path) <= 0 && text_cmp(b, c, path) <= 0 ==> text_cmp(a, c, path) <= 0,
        text_cmp(a, b, path) < 0 && text_cmp(b, c, path) <= 0 ==> text_cmp(a, c, path) < 0,
    decreases a.len(),
{
    if a.len() > 0 && b.len() > 0 {
        if a.len() > 0 && b.len() > 0 && c.len() > 0 {
            lemma_text_cmp(a.drop_first(), b.drop_first(), c.drop_first(), path);
        } else {
            lemma_text_cmp(a.drop_first(), b.drop_first(), b.drop_first(), path);
        }
        if text_cmp(a, b, path) == 0 {
            lemma_char_nonneg(a[0]);
            lemma_char_nonneg(b[0]);
            assert(a[0] == b[0]);
            assert(a =~= seq![a[0]] + a.drop_first());
            assert(b =~= seq![b[0]] + b.drop_first());
        }
    }
}

/// Where in a file an irritation points: the file's project-relative path, the span,
/// and the name of the capture it was raised at.
#[derive(Debug)]
pub struct Site {
    pub path: String,
    pub location: Location,
    pub label: String,
}

/// A diagnostic.
#[derive(Debug)]
pub struct Irritation {
    pub message: String,
    pub at: Option<Site>,
}

pub ghost struct SiteView {
    pub path: Seq<char>,
    pub location: Location,
    pub label: Seq<char>,
}

pub ghost struct IrritationView {
    pub message: Seq<char>,
    pub at: Option<SiteView>,
}

impl View for Site {
    type V = SiteView;

    open spec fn view(&self) -> SiteView {
        SiteView { path: self.path@, location: self.location, label: self.label@ }
    }
}

impl View for Irritation {
    type V = IrritationView;

    open spec fn view(&self) -> IrritationView {
        IrritationView {
            message: self.message@,
            at: match self.at {
                Some(s) => Some(s@),
                None => None,
            },
        }
    }
}

/// The order of irritations: first by file path (irritations tied to no file come
/// first), then by location, then by message, then by label.
pub open spec fn irritation_cmp(a: IrritationView, b: IrritationView) -> int {
    match (a.at, b.at) {
        (None, Some(_)) => -1,
        (Some(_), None) => 1,
        (None, None) => text_cmp(a.message, b.message, false),
        (Some(x), Some(y)) => {
            let c1 = text_cmp(x.path, y.path, true);
            let c2 = location_cmp(x.location, y.location);
            let c3 = text_cmp(a.message, b.message, false);
            if c1 != 0 {
                c1
            } else if c2 != 0 {
                c2
            } else if c3 != 0 {
                c3
            } else {
                text_cmp(x.label, y.label, false)
            }
        },
    }
}

pub open spec fn irritation_le(a: IrritationView, b: IrritationView) -> bool {
    irritation_cmp(a, b) <= 0
}

/// The irritation order is a total order.
pub proof fn lemma_irritation_order(a: IrritationView, b: IrritationView, c: IrritationView)
    ensures
        irritation_cmp(a, b) == -irritation_cmp(b, a),
        irritation_cmp(a, b) == 0 ==> a == b,
        irritation_le(a, b) && irritation_le(b, c) ==> irritation_le(a, c),
        irritation_le(a, b) || irritation_le(b, a),
{
    lemma_text_cmp(a.message, b.message, c.message, false);
    if let (Some(x), Some(y)) = (a.at, b.at) {
        lemma_text_cmp(x.path, y.path, x.path, true);
        lemma_location_cmp(x.location, y.location, x.location);
        lemma_text_cmp(x.label, y.label, x.label, false);
        if irritation_cmp(a, b) == 0 {
            assert(x == y);
        }
        if let Some(z) = c.at {
            lemma_text_cmp(x.path, y.path, z.path, true);
            lemma_location_cmp(x.location, y.location, z.location);
            lemma_text_cmp(x.label, y.label, z.label, false);
            lemma_text_cmp(y.path, z.path, x.path, true);
            lemma_location_cmp(y.location, z.location, x.location);
        }
    }
}

/// Compares two texts in the order [`text_cmp`] defines.
pub fn compare_text(a: &str, b: &str, path: bool) -> (r: i8)
    ensures
        r as int == text_cmp(a@, b@, path),
{
    let x = chars_of(a);
    let y = chars_of(b);
    let mut i: usize = 0;
    assert(x@.subrange(0, x.len() as int) =~= x@);
    assert(y@.subrange(0, y.len() as int) =~= y@);
    while i < x.len() && i < y.len()
        invariant
            i <= x.len(),
            i <= y.len(),
            x@ == a@,
            y@ == b@,
            text_cmp(a@, b@, path) == text_cmp(
                x@.subrange(i as int, x.len() as int),
                y@.subrange(i as int, y.len() as int),
                path,
            ),
        decreases x.len() - i,
    {
        let p = path && x[i] == '/';
        let q = path && y[i] == '/';
        if p != q || x[i] != y[i] {
            let below = if p != q {
                p
            } else {
                x[i] < y[i]
            };
            proof {
                assert(x@.subrange(i as int, x.len() as int)[0] == x@[i as int]);
                assert(y@.subrange(i as int, y.len() as int)[0] == y@[i as int]);
                lemma_char_nonneg(x@[i as int]);
                lemma_char_nonneg(y@[i as int]);
                assert(below == (rank(x@[i as int], path) < rank(y@[i as int], path)));
            }
            if below {
                return -1;
            } else {
                return 1;
            }
        }
        proof {
            assert(x@.subrange(i as int, x.len() as int).drop_first() =~= x@.subrange(
                i + 1,
                x.len() as int,
            ));
            assert(y@.subrange(i as int, y.len() as int).drop_first() =~= y@.subrange(
                i + 1,
                y.len() as int,
            ));
            assert(x@.subrange(i as int, x.len() as int)[0] == x@[i as int]);
            assert(y@.subrange(i as int, y.len() as int)[0] == y@[i as int]);
        }
        i = i + 1;
    }
    if i < x.len() {
        1
    } else if i < y.len() {
        -1
    } else {
        0
    }
}

/// Whether two texts are equal.
pub fn same_text(a: &str, b: &str) -> (r: bool)
    ensures
        r == (a@ == b@),
{
    let c = compare_text(a, b, false);
    proof {
        lemma_text_cmp(a@, b@, a@, false);
        lemma_text_cmp(a@, a@, a@, false);
    }
    c == 0
}

/// The display line of an irritation: `path [r, c] - [r, c]: message`, or the
/// message alone where it points at no file.
pub open spec fn irritation_text(v: IrritationView) -> Seq<char> {
    match v.at {
        Some(s) => s.path + seq![' '] + location_text(s.location) + seq![':', ' '] + v.message,
        None => v.message,
    }
}

impl Irritation {
    /// An irritation tied to no file.
    pub fn new(message: String) -> (r: Irritation)
        ensures
            r@ == (IrritationView { message: message@, at: None }),
    {
        Irritation { message, at: None }
    }

    /// An irritation raised at a node of a file.
    pub fn at_site(message: String, path: String, location: Location, label: String) -> (r:
        Irritation)
        ensures
            r@ == (IrritationView {
                message: message@,
                at: Some(SiteView { path: path@, location, label: label@ }),
            }),
    {
        Irritation { message, at: Some(Site { path, location, label }) }
    }

    pub fn duplicate(&self) -> (r: Irritation)
        ensures
            r@ == self@,
    {
        let at = match &self.at {
            Some(s) => Some(
                Site { path: s.path.clone(), location: s.location, label: s.label.clone() },
            ),
            None => None,
        };
        Irritation { message: self.message.clone(), at }
    }

    /// Compares two irritations: -1, 0 or 1.
    pub fn compare(&self, other: &Irritation) -> (r: i8)
        ensures
            r as int == irritation_cmp(self@, other@),
    {
        match (&self.at, &other.at) {
            (None, Some(_)) => -1,
            (Some(_), None) => 1,
            (None, None) => compare_text(self.message.as_str(), other.message.as_str(), false),
            (Some(x), Some(y)) => {
                let c1 = compare_text(x.path.as_str(), y.path.as_str(), true);
                if c1 != 0 {
                    return c1;
                }
                let c2 = x.location.compare(&y.location);
                if c2 != 0 {
                    return c2;
                }
                let c3 = compare_text(self.message.as_str(), other.message.as_str(), false);
                if c3 != 0 {
                    return c3;
                }
                compare_text(x.label.as_str(), y.label.as_str(), false)
            },
        }
    }

    /// The display line, as [`irritation_text`] defines it.
    pub fn to_text(&self) -> (r: String)
        ensures
            r@ == irritation_text(self@),
    {
        match &self.at {
            Some(s) => {
                let mut v = chars_of(s.path.as_str());
                v.push(' ');
                s.location.push_text(&mut v);
                v.push(':');
                v.push(' ');
                let mut m = chars_of(self.message.as_str());
                v.append(&mut m);
                assert(v@ =~= irritation_text(self@));
                string_of(&v, 0, v.len())
            },
            None => self.message.clone(),
        }
    }
}

} // verus!
