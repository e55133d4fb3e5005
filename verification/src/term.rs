use vstd::prelude::*;

verus! {

/// One field of a ledger entry, as the database file holds it.
///
/// `Text` is a JSON string, `Number` a JSON number written in its JSON
/// text, and `Other` any other JSON value (null, a boolean, an array or an
/// object), also written in its JSON text.
///
/// A `Number` holds the text `serde_json` writes for the number (so `1`,
/// `1.5`, `0.0`, `-0.0`, never `1.00`), and an `Other` the compact text
/// `serde_json` writes for the value. Two terms hold the same value (see
/// [`same_value`]) when their kind and their text agree, except that the
/// two zeros `0.0` and `-0.0` are the same number, as `serde_json` counts
/// them. (A negative zero nested inside an `Other` value is still told
/// apart from a positive one.)
#[derive(Clone, Debug, PartialEq, Eq)]
pub enum Term {
    Text(String),
    Number(String),
    Other(String),
}

/// The mathematical value of a [`Term`].
pub enum TermV {
    Text(Seq<char>),
    Number(Seq<char>),
    Other(Seq<char>),
}

impl View for Term {
    type V = TermV;

    open spec fn view(&self) -> TermV {
        match self {
            Term::Text(s) => TermV::Text(s@),
            Term::Number(s) => TermV::Number(s@),
            Term::Other(s) => TermV::Other(s@),
        }
    }
}

/// One ledger entry: `subject predicate object`, e.g. `house is assett`,
/// `house med 250000`, `alice 0.5 house`.
///
/// `origin` is the position of the entry in the database it was read from,
/// or `None` for an entry that was made since; it travels with the entry
/// and plays no part in any rule.
#[derive(Clone, Debug, PartialEq, Eq)]
pub struct Triple {
    pub subject: Term,
    pub predicate: Term,
    pub object: Term,
    pub origin: Option<usize>,
}

/// The mathematical value of a [`Triple`].
pub struct TripleV {
    pub subject: TermV,
    pub predicate: TermV,
    pub object: TermV,
    pub origin: Option<usize>,
}

impl View for Triple {
    type V = TripleV;

    open spec fn view(&self) -> TripleV {
        TripleV {
            subject: self.subject@,
            predicate: self.predicate@,
            object: self.object@,
            origin: self.origin,
        }
    }
}

/// The entries of a ledger, by their values.
pub open spec fn entries(list: Seq<Triple>) -> Seq<TripleV> {
    list.map_values(|t: Triple| t@)
}

/// The text term whose characters are those of `s`.
pub open spec fn text(s: Seq<char>) -> TermV {
    TermV::Text(s)
}

/// Whether a number text is one of the two zeros, `0.0` and `-0.0`.
pub open spec fn is_zero_text(s: Seq<char>) -> bool {
    s == "0.0"@ || s == "-0.0"@
}

/// Whether two terms hold the same JSON value: the same kind and the same
/// text, or two zero numbers.
pub open spec fn same_value(a: TermV, b: TermV) -> bool {
    match a {
        TermV::Number(x) => match b {
            TermV::Number(y) => x == y || (is_zero_text(x) && is_zero_text(y)),
            _ => false,
        },
        _ => a == b,
    }
}

fn zero_text(s: &str) -> (r: bool)
    ensures
        r == is_zero_text(s@),
{
    same_text(s, "0.0") || same_text(s, "-0.0")
}

/// Whether two strings hold the same characters.
pub fn same_text(a: &str, b: &str) -> (r: bool)
    ensures
        r == (a@ == b@),
{
    let x = a.to_owned();
    let y = b.to_owned();
    x == y
}

/// A copy of a string.
pub fn copy_string(s: &String) -> (r: String)
    ensures
        r@ == s@,
{
    s.clone()
}

impl Term {
    /// A copy of this term.
    pub fn copied(&self) -> (r: Term)
        ensures
            r@ == self@,
    {
        match self {
            Term::Text(s) => Term::Text(copy_string(s)),
            Term::Number(s) => Term::Number(copy_string(s)),
            Term::Other(s) => Term::Other(copy_string(s)),
        }
    }

    /// Whether this term is the JSON string `s`.
    pub fn is_text(&self, s: &str) -> (r: bool)
        ensures
            r == (self@ == text(s@)),
    {
        match self {
            Term::Text(t) => same_text(t.as_str(), s),
            _ => false,
        }
    }

    /// Whether this term is a JSON number.
    pub fn is_number(&self) -> (r: bool)
        ensures
            r == (self@ is Number),
    {
        match self {
            Term::Number(_) => true,
            _ => false,
        }
    }

    /// Whether two terms hold the same JSON value (see [`same_value`]).
    pub fn same(&self, other: &Term) -> (r: bool)
        ensures
            r == same_value(self@, other@),
    {
        match self {
            Term::Text(a) => match other {
                Term::Text(b) => same_text(a.as_str(), b.as_str()),
                _ => false,
            },
            Term::Number(a) => match other {
                Term::Number(b) => same_text(a.as_str(), b.as_str()) || (zero_text(a.as_str())
                    && zero_text(b.as_str())),
                _ => false,
            },
            Term::Other(a) => match other {
                Term::Other(b) => same_text(a.as_str(), b.as_str()),
                _ => false,
            },
        }
    }
}

impl Triple {
    /// A copy of this entry.
    pub fn copied(&self) -> (r: Triple)
        ensures
            r@ == self@,
    {
        Triple {
            subject: self.subject.copied(),
            predicate: self.predicate.copied(),
            object: self.object.copied(),
            origin: self.origin,
        }
    }
}

} // verus!
