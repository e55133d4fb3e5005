use vstd::prelude::*;
use crate::term::{copy_string, entries, same_text, text, Term, Triple, TripleV};

verus! {

/// The predicates an attribute edit may use.
pub open spec fn is_field_name(p: Seq<char>) -> bool {
    ||| p == "min"@
    ||| p == "max"@
    ||| p == "med"@
    ||| p == "frequency"@
    ||| p == "appreciation"@
    ||| p == "volatility"@
    ||| p == "ticker"@
    ||| p == "type"@
    ||| p == "is"@
    ||| p == "number"@
    ||| p == "startdate"@
    ||| p == "enddate"@
}

/// The kinds a name can be declared as, with `name is kind`.
pub open spec fn is_item_kind(o: Seq<char>) -> bool {
    ||| o == "person"@
    ||| o == "assett"@
    ||| o == "debt"@
    ||| o == "income"@
    ||| o == "expense"@
    ||| o == "environment"@
}

/// Why an attribute edit was refused.
#[derive(Clone, Debug, PartialEq, Eq)]
pub enum PredError {
    /// The predicate is not one of the known attribute names.
    UnknownPredicate(String),
    /// An `is` edit names something that is not a kind of item.
    NotAnItem(String),
}

impl PredError {
    /// The line the command prints when it refuses the edit.
    pub fn message(&self) -> (r: String)
        ensures
            match self {
                PredError::UnknownPredicate(p) => r@ == p@ + " does not exist"@,
                PredError::NotAnItem(o) => r@ == o@
                    + " not in [\"person\", \"assett\", \"debt\", \"income\", \"expense\", \"environment\"]"@,
            },
    {
        match self {
            PredError::UnknownPredicate(p) => {
                let mut s = copy_string(p);
                s.append(" does not exist");
                s
            },
            PredError::NotAnItem(o) => {
                let mut s = copy_string(o);
                s.append(
                    " not in [\"person\", \"assett\", \"debt\", \"income\", \"expense\", \"environment\"]",
                );
                s
            },
        }
    }
}

fn field_name(p: &str) -> (r: bool)
    ensures
        r == is_field_name(p@),
{
    same_text(p, "min") || same_text(p, "max") || same_text(p, "med") || same_text(p, "frequency")
        || same_text(p, "appreciation") || same_text(p, "volatility") || same_text(p, "ticker")
        || same_text(p, "type") || same_text(p, "is") || same_text(p, "number") || same_text(
        p,
        "startdate",
    ) || same_text(p, "enddate")
}

fn item_kind(o: &str) -> (r: bool)
    ensures
        r == is_item_kind(o@),
{
    same_text(o, "person") || same_text(o, "assett") || same_text(o, "debt") || same_text(
        o,
        "income",
    ) || same_text(o, "expense") || same_text(o, "environment")
}

/// Checks the predicate and object of an attribute edit: the predicate
/// must be a known attribute name, and an `is` edit must name a kind of
/// item.
pub fn predcheck(pred: &str, obj: &str) -> (r: Result<(), PredError>)
    ensures
        match r {
            Ok(()) => is_field_name(pred@) && (pred@ == "is"@ ==> is_item_kind(obj@)),
            Err(PredError::UnknownPredicate(p)) => !is_field_name(pred@) && p@ == pred@,
            Err(PredError::NotAnItem(o)) => {
                &&& is_field_name(pred@)
                &&& pred@ == "is"@
                &&& !is_item_kind(obj@)
                &&& o@ == obj@
            },
        },
{
    if !field_name(pred) {
        return Err(PredError::UnknownPredicate(pred.to_owned()));
    }
    if same_text(pred, "is") {
        if !item_kind(obj) {
            return Err(PredError::NotAnItem(obj.to_owned()));
        }
    }
    Ok(())
}

/// Whether an entry declares `name`: `name is ...`.
pub open spec fn declares(t: TripleV, name: Seq<char>) -> bool {
    t.predicate == text("is"@) && t.subject == text(name)
}

/// Whether the ledger declares `name`.
pub open spec fn is_known(db: Seq<TripleV>, name: Seq<char>) -> bool {
    exists|i: int| 0 <= i < db.len() && declares(#[trigger] db[i], name)
}

/// Every declaration in the ledger has a string as its subject.
pub open spec fn declarations_named(db: Seq<TripleV>) -> bool {
    forall|i: int| 0 <= i < db.len() && (#[trigger] db[i]).predicate == text("is"@) ==> db[i].subject is Text
}

/// Why a name was refused.
#[derive(Clone, Debug, PartialEq, Eq)]
pub enum NameError {
    /// A new name is already declared.
    AlreadyExists(String),
    /// A name that should be declared is not.
    DoesNotExist(String),
}

impl NameError {
    /// The line the command prints when it refuses the name.
    pub fn message(&self) -> (r: String)
        ensures
            match self {
                NameError::AlreadyExists(n) => r@ == n@ + " already exists"@,
                NameError::DoesNotExist(n) => r@ == n@ + " does not exist"@,
            },
    {
        match self {
            NameError::AlreadyExists(n) => {
                let mut s = copy_string(n);
                s.append(" already exists");
                s
            },
            NameError::DoesNotExist(n) => {
                let mut s = copy_string(n);
                s.append(" does not exist");
                s
            },
        }
    }
}

/// Whether the ledger declares `name`.
pub fn known(list: &Vec<Triple>, name: &str) -> (r: bool)
    ensures
        r == is_known(entries(list@), name@),
{
    let n = list.len();
    for i in 0..n
        invariant
            n == list.len(),
            forall|j: int| 0 <= j < i ==> !declares(#[trigger] entries(list@)[j], name@),
    {
        let t = &list[i];
        if t.predicate.is_text("is") && t.subject.is_text(name) {
            assert(declares(entries(list@)[i as int], name@));
            return true;
        }
    }
    false
}

/// Checks a name against the declared names: with `dir` set it must be
/// new, else it must already be declared.
pub fn namecheck(list: &Vec<Triple>, name: &str, dir: bool) -> (r: Result<(), NameError>)
    requires
        declarations_named(entries(list@)),
    ensures
        match r {
            Ok(()) => dir != is_known(entries(list@), name@),
            Err(NameError::AlreadyExists(n)) => dir && is_known(entries(list@), name@) && n@
                == name@,
            Err(NameError::DoesNotExist(n)) => !dir && !is_known(entries(list@), name@) && n@
                == name@,
        },
{
    let k = known(list, name);
    if dir && k {
        Err(NameError::AlreadyExists(name.to_owned()))
    } else if !dir && !k {
        Err(NameError::DoesNotExist(name.to_owned()))
    } else {
        Ok(())
    }
}


/// Whether every declaration in the ledger has a string as its subject
/// (what [`namecheck`] needs).
pub fn declarations_are_named(list: &Vec<Triple>) -> (r: bool)
    ensures
        r == declarations_named(entries(list@)),
{
    let n = list.len();
    for i in 0..n
        invariant
            n == list.len(),
            forall|j: int|
                0 <= j < i && (#[trigger] entries(list@)[j]).predicate == text("is"@)
                    ==> entries(list@)[j].subject is Text,
    {
        let t = &list[i];
        if t.predicate.is_text("is") {
            match &t.subject {
                Term::Text(_) => {},
                _ => {
                    assert(entries(list@)[i as int].predicate == text("is"@));
                    return false;
                },
            }
        }
    }
    true
}

} // verus!
