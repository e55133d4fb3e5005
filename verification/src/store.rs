use vstd::prelude::*;
use crate::checks::{declarations_named, is_known, known, NameError};
use crate::term::{copy_string, entries, text, Term, TermV, Triple, TripleV};

verus! {

broadcast use vstd::seq_lib::group_seq_properties;

/// Whether an entry names `name` as its subject or as its object.
pub open spec fn mentions(t: TripleV, name: Seq<char>) -> bool {
    t.subject == text(name) || t.object == text(name)
}

/// The entries that do not name `name` as subject or object.
pub open spec fn unmentioned(name: Seq<char>) -> spec_fn(TripleV) -> bool {
    |t: TripleV| !mentions(t, name)
}

/// The values of a ledger grow by one entry when an entry is pushed.
pub proof fn lemma_entries_push(list: Seq<Triple>, t: Triple)
    ensures
        entries(list.push(t)) == entries(list).push(t@),
{
    assert(entries(list.push(t)) =~= entries(list).push(t@));
}

/// The values of the first `i + 1` entries are those of the first `i`,
/// followed by the value of entry `i`.
pub proof fn lemma_entries_take(list: Seq<Triple>, i: int)
    requires
        0 <= i < list.len(),
    ensures
        entries(list).take(i + 1) == entries(list).take(i).push(list[i]@),
{
    assert(entries(list).take(i + 1) =~= entries(list).take(i).push(list[i]@));
}

/// The ledger without every entry whose subject or object is `name`.
///
/// Entries are kept in their order; an entry that holds `name` only as its
/// predicate stays.
pub fn delete_name(list: &Vec<Triple>, name: &str) -> (r: Vec<Triple>)
    ensures
        entries(r@) == entries(list@).filter(unmentioned(name@)),
{
    let mut r: Vec<Triple> = Vec::new();
    let n = list.len();
    for i in 0..n
        invariant
            n == list.len(),
            entries(r@) == entries(list@).take(i as int).filter(unmentioned(name@)),
    {
        let t = &list[i];
        proof {
            lemma_entries_take(list@, i as int);
            entries(list@).take(i as int).lemma_filter_push(list@[i as int]@, unmentioned(name@));
        }
        if !(t.subject.is_text(name) || t.object.is_text(name)) {
            let c = t.copied();
            proof {
                lemma_entries_push(r@, c);
            }
            r.push(c);
        }
    }
    proof {
        assert(entries(list@).take(n as int) =~= entries(list@));
    }
    r
}


/// A new entry `subject predicate object`.
pub open spec fn fact(subject: TermV, predicate: TermV, object: TermV) -> TripleV {
    TripleV { subject, predicate, object, origin: None }
}

/// An owner of an item and the share of it that they own.
#[derive(Clone, Debug, PartialEq, Eq)]
pub struct Owner {
    pub name: String,
    pub share: Term,
}

/// What the ledger records of an asset, a debt, an income or an expense.
#[derive(Clone, Debug, PartialEq, Eq)]
pub struct Holding {
    pub startdate: String,
    pub min: Term,
    pub med: Term,
    pub max: Term,
    pub appreciation: Term,
    pub owners: Vec<Owner>,
}

/// A new item of the ledger, by its kind.
#[derive(Clone, Debug, PartialEq, Eq)]
pub enum Listing {
    Person,
    Assett { number: Term, holding: Holding },
    Debt { holding: Holding },
    Income { holding: Holding, frequency: String },
    Expense { holding: Holding, frequency: String },
}

/// The ownership entries `owner share item`, one per owner, in order.
pub open spec fn owner_facts(owners: Seq<Owner>, item: Seq<char>) -> Seq<TripleV> {
    owners.map_values(|o: Owner| fact(text(o.name@), o.share@, text(item)))
}

/// The entries that record a new item called `name`.
pub open spec fn listing_facts(name: Seq<char>, l: Listing) -> Seq<TripleV> {
    let n = text(name);
    match l {
        Listing::Person => seq![fact(n, text("is"@), text("person"@))],
        Listing::Assett { number, holding } => seq![
            fact(n, text("is"@), text("assett"@)),
            fact(n, text("number"@), number@),
            fact(n, text("startdate"@), text(holding.startdate@)),
            fact(n, text("min"@), holding.min@),
            fact(n, text("med"@), holding.med@),
            fact(n, text("max"@), holding.max@),
            fact(n, text("appreciation"@), holding.appreciation@),
        ] + owner_facts(holding.owners@, name),
        Listing::Debt { holding } => seq![
            fact(n, text("is"@), text("debt"@)),
            fact(n, text("startdate"@), text(holding.startdate@)),
            fact(n, text("min"@), holding.min@),
            fact(n, text("med"@), holding.med@),
            fact(n, text("max"@), holding.max@),
            fact(n, text("appreciation"@), holding.appreciation@),
        ] + owner_facts(holding.owners@, name),
        Listing::Income { holding, frequency } => seq![
            fact(n, text("is"@), text("income"@)),
            fact(n, text("startdate"@), text(holding.startdate@)),
            fact(n, text("min"@), holding.min@),
            fact(n, text("med"@), holding.med@),
            fact(n, text("max"@), holding.max@),
            fact(n, text("frequency"@), text(frequency@)),
            fact(n, text("appreciation"@), holding.appreciation@),
        ] + owner_facts(holding.owners@, name),
        Listing::Expense { holding, frequency } => seq![
            fact(n, text("is"@), text("expense"@)),
            fact(n, text("startdate"@), text(holding.startdate@)),
            fact(n, text("min"@), holding.min@),
            fact(n, text("med"@), holding.med@),
            fact(n, text("max"@), holding.max@),
            fact(n, text("frequency"@), text(frequency@)),
            fact(n, text("appreciation"@), holding.appreciation@),
        ] + owner_facts(holding.owners@, name),
    }
}

/// Appends the new entry `subject predicate object`.
fn push_fact(v: &mut Vec<Triple>, subject: &str, predicate: &str, object: Term)
    ensures
        entries(final(v)@) == entries(old(v)@).push(
            fact(text(subject@), text(predicate@), object@),
        ),
{
    let t = Triple {
        subject: Term::Text(subject.to_owned()),
        predicate: Term::Text(predicate.to_owned()),
        object,
        origin: None,
    };
    proof {
        lemma_entries_push(v@, t);
    }
    v.push(t);
}

/// Appends the ownership entries of `item`.
fn push_owners(v: &mut Vec<Triple>, owners: &Vec<Owner>, item: &str)
    ensures
        entries(final(v)@) == entries(old(v)@) + owner_facts(owners@, item@),
{
    let ghost start = entries(v@);
    let n = owners.len();
    for i in 0..n
        invariant
            n == owners.len(),
            entries(v@) == start + owner_facts(owners@.take(i as int), item@),
    {
        let o = &owners[i];
        let t = Triple {
            subject: Term::Text(copy_string(&o.name)),
            predicate: o.share.copied(),
            object: Term::Text(item.to_owned()),
            origin: None,
        };
        proof {
            lemma_entries_push(v@, t);
            assert(owner_facts(owners@.take(i + 1), item@) =~= owner_facts(
                owners@.take(i as int),
                item@,
            ).push(t@));
        }
        v.push(t);
    }
    assert(owners@.take(n as int) =~= owners@);
}

/// Appends the entries of a holding that follow its kind and number:
/// start date, minimum, median, maximum, then (for an income or an
/// expense) the frequency.
fn push_holding(v: &mut Vec<Triple>, name: &str, h: &Holding)
    ensures
        entries(final(v)@) == entries(old(v)@) + seq![
            fact(text(name@), text("startdate"@), text(h.startdate@)),
            fact(text(name@), text("min"@), h.min@),
            fact(text(name@), text("med"@), h.med@),
            fact(text(name@), text("max"@), h.max@),
        ],
{
    let ghost start = entries(v@);
    push_fact(v, name, "startdate", Term::Text(copy_string(&h.startdate)));
    push_fact(v, name, "min", h.min.copied());
    push_fact(v, name, "med", h.med.copied());
    push_fact(v, name, "max", h.max.copied());
    assert(entries(v@) =~= start + seq![
        fact(text(name@), text("startdate"@), text(h.startdate@)),
        fact(text(name@), text("min"@), h.min@),
        fact(text(name@), text("med"@), h.med@),
        fact(text(name@), text("max"@), h.max@),
    ]);
}

/// The entries that record a new item called `name`, in the order the
/// ledger stores them.
pub fn listing_triples(name: &str, l: &Listing) -> (r: Vec<Triple>)
    ensures
        entries(r@) == listing_facts(name@, *l),
{
    let mut v: Vec<Triple> = Vec::new();
    assert(entries(v@) =~= Seq::<TripleV>::empty());
    match l {
        Listing::Person => {
            push_fact(&mut v, name, "is", Term::Text("person".to_owned()));
        },
        Listing::Assett { number, holding } => {
            push_fact(&mut v, name, "is", Term::Text("assett".to_owned()));
            push_fact(&mut v, name, "number", number.copied());
            push_holding(&mut v, name, holding);
            push_fact(&mut v, name, "appreciation", holding.appreciation.copied());
            push_owners(&mut v, &holding.owners, name);
        },
        Listing::Debt { holding } => {
            push_fact(&mut v, name, "is", Term::Text("debt".to_owned()));
            push_holding(&mut v, name, holding);
            push_fact(&mut v, name, "appreciation", holding.appreciation.copied());
            push_owners(&mut v, &holding.owners, name);
        },
        Listing::Income { holding, frequency } => {
            push_fact(&mut v, name, "is", Term::Text("income".to_owned()));
            push_holding(&mut v, name, holding);
            push_fact(&mut v, name, "frequency", Term::Text(copy_string(frequency)));
            push_fact(&mut v, name, "appreciation", holding.appreciation.copied());
            push_owners(&mut v, &holding.owners, name);
        },
        Listing::Expense { holding, frequency } => {
            push_fact(&mut v, name, "is", Term::Text("expense".to_owned()));
            push_holding(&mut v, name, holding);
            push_fact(&mut v, name, "frequency", Term::Text(copy_string(frequency)));
            push_fact(&mut v, name, "appreciation", holding.appreciation.copied());
            push_owners(&mut v, &holding.owners, name);
        },
    }
    assert(entries(v@) =~= listing_facts(name@, *l));
    v
}


/// The values of two ledgers placed one after the other.
pub proof fn lemma_entries_add(a: Seq<Triple>, b: Seq<Triple>)
    ensures
        entries(a + b) == entries(a) + entries(b),
{
    assert(entries(a + b) =~= entries(a) + entries(b));
}

/// Records a new item called `name`, after checking that the name is not
/// declared yet; a refused name leaves the ledger as it was.
pub fn register(list: &mut Vec<Triple>, name: &str, l: &Listing) -> (r: Result<(), NameError>)
    requires
        declarations_named(entries(old(list)@)),
    ensures
        match r {
            Ok(()) => {
                &&& !is_known(entries(old(list)@), name@)
                &&& entries(final(list)@) == entries(old(list)@) + listing_facts(name@, *l)
            },
            Err(NameError::AlreadyExists(n)) => {
                &&& is_known(entries(old(list)@), name@)
                &&& n@ == name@
                &&& final(list)@ == old(list)@
            },
            Err(NameError::DoesNotExist(_)) => false,
        },
{
    if known(list, name) {
        return Err(NameError::AlreadyExists(name.to_owned()));
    }
    let mut new = listing_triples(name, l);
    proof {
        lemma_entries_add(list@, new@);
    }
    list.append(&mut new);
    Ok(())
}

/// Whether the ledger has an entry `name ... assett`.
pub open spec fn lists_assett(db: Seq<TripleV>, name: Seq<char>) -> bool {
    exists|i: int|
        0 <= i < db.len() && (#[trigger] db[i]).object == text("assett"@) && db[i].subject == text(
            name,
        )
}

/// Every entry whose object is `assett` has a string as its subject.
pub open spec fn assetts_named(db: Seq<TripleV>) -> bool {
    forall|i: int|
        0 <= i < db.len() && (#[trigger] db[i]).object == text("assett"@) ==> db[i].subject is Text
}

/// Records a new asset called `name` in `dblist`, where no entry of
/// `list` (the ledger as it was read, which the check consults) lists it
/// as an asset yet. Entries already in `dblist` are not consulted.
pub fn add_assett(
    list: &Vec<Triple>,
    dblist: &mut Vec<Triple>,
    name: &str,
    number: Term,
    holding: Holding,
)
    requires
        assetts_named(entries(list@)),
        !lists_assett(entries(list@), name@),
    ensures
        entries(final(dblist)@) == entries(old(dblist)@) + listing_facts(
            name@,
            Listing::Assett { number, holding },
        ),
{
    let l = Listing::Assett { number, holding };
    let mut new = listing_triples(name, &l);
    proof {
        lemma_entries_add(dblist@, new@);
    }
    dblist.append(&mut new);
}


/// Whether every entry whose object is `assett` has a string as its
/// subject, and none of them is `name` (what [`add_assett`] needs).
pub fn assett_is_new(list: &Vec<Triple>, name: &str) -> (r: (bool, bool))
    ensures
        r.0 == assetts_named(entries(list@)),
        r.0 ==> (r.1 == !lists_assett(entries(list@), name@)),
{
    let n = list.len();
    let mut fresh = true;
    for i in 0..n
        invariant
            n == list.len(),
            forall|j: int|
                0 <= j < i && (#[trigger] entries(list@)[j]).object == text("assett"@)
                    ==> entries(list@)[j].subject is Text,
            fresh == !(exists|j: int|
                0 <= j < i && (#[trigger] entries(list@)[j]).object == text("assett"@)
                    && entries(list@)[j].subject == text(name@)),
    {
        let t = &list[i];
        if t.object.is_text("assett") {
            match &t.subject {
                Term::Text(_) => {},
                _ => {
                    assert(entries(list@)[i as int].object == text("assett"@));
                    return (false, false);
                },
            }
            if t.subject.is_text(name) {
                fresh = false;
            }
        }
    }
    (true, fresh)
}

} // verus!
