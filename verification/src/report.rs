use vstd::prelude::*;
use crate::store::{lemma_entries_take};
use crate::term::{copy_string, entries, same_text, same_value, text, Term, TermV, Triple, TripleV};

verus! {

broadcast use vstd::seq_lib::group_seq_properties;

/// The kinds of item the report lists, in the order it lists them.
#[derive(Clone, Copy, PartialEq, Eq, Structural, Debug)]
pub enum ItemKind {
    Assett,
    Debt,
    Income,
    Expense,
    Environment,
}

/// The kinds of item, in report order.
pub open spec fn all_kinds() -> Seq<ItemKind> {
    seq![ItemKind::Assett, ItemKind::Debt, ItemKind::Income, ItemKind::Expense, ItemKind::Environment]
}

impl ItemKind {
    /// The object that declares an item of this kind: `name is <tag>`.
    pub open spec fn tag_of(self) -> Seq<char> {
        match self {
            ItemKind::Assett => "assett"@,
            ItemKind::Debt => "debt"@,
            ItemKind::Income => "income"@,
            ItemKind::Expense => "expense"@,
            ItemKind::Environment => "environment"@,
        }
    }

    /// The heading of this kind's section of the report.
    pub open spec fn heading_of(self) -> Seq<char> {
        match self {
            ItemKind::Assett => "Assetts"@,
            ItemKind::Debt => "Debts"@,
            ItemKind::Income => "Income"@,
            ItemKind::Expense => "Expenses"@,
            ItemKind::Environment => "Environment"@,
        }
    }

    /// The class that asks for this kind's section alone: its heading in
    /// lower case.
    pub open spec fn class_of(self) -> Seq<char> {
        match self {
            ItemKind::Assett => "assetts"@,
            ItemKind::Debt => "debts"@,
            ItemKind::Income => "income"@,
            ItemKind::Expense => "expenses"@,
            ItemKind::Environment => "environment"@,
        }
    }

    /// See [`ItemKind::tag_of`].
    pub fn tag(&self) -> (r: &'static str)
        ensures
            r@ == self.tag_of(),
    {
        match self {
            ItemKind::Assett => "assett",
            ItemKind::Debt => "debt",
            ItemKind::Income => "income",
            ItemKind::Expense => "expense",
            ItemKind::Environment => "environment",
        }
    }

    /// See [`ItemKind::heading_of`].
    pub fn heading(&self) -> (r: &'static str)
        ensures
            r@ == self.heading_of(),
    {
        match self {
            ItemKind::Assett => "Assetts",
            ItemKind::Debt => "Debts",
            ItemKind::Income => "Income",
            ItemKind::Expense => "Expenses",
            ItemKind::Environment => "Environment",
        }
    }

    fn class(&self) -> (r: &'static str)
        ensures
            r@ == self.class_of(),
    {
        match self {
            ItemKind::Assett => "assetts",
            ItemKind::Debt => "debts",
            ItemKind::Income => "income",
            ItemKind::Expense => "expenses",
            ItemKind::Environment => "environment",
        }
    }
}

/// The sections that `view <class>` shows.
#[derive(Clone, Debug, PartialEq, Eq)]
pub struct Sections {
    /// Whether the people are listed.
    pub people: bool,
    /// The kinds of item listed, in report order.
    pub kinds: Vec<ItemKind>,
}

/// Whether `view <class>` shows the section of `kind`.
pub open spec fn shows_kind(class: Seq<char>, kind: ItemKind) -> bool {
    class == "all"@ || class == kind.class_of()
}

/// The sections that `view <class>` shows: the people for `all` and
/// `people`, and each kind of item for `all` and for its own class.
pub fn sections(class: &str) -> (r: Sections)
    ensures
        r.people == (class@ == "all"@ || class@ == "people"@),
        r.kinds@ == all_kinds().filter(|k: ItemKind| shows_kind(class@, k)),
{
    let all = same_text(class, "all");
    let people = all || same_text(class, "people");
    let mut kinds: Vec<ItemKind> = Vec::new();
    let order = [
        ItemKind::Assett,
        ItemKind::Debt,
        ItemKind::Income,
        ItemKind::Expense,
        ItemKind::Environment,
    ];
    assert(order@ =~= all_kinds());
    let ghost keep = |k: ItemKind| shows_kind(class@, k);
    for i in 0..5
        invariant
            order@ == all_kinds(),
            all == (class@ == "all"@),
            keep == (|k: ItemKind| shows_kind(class@, k)),
            kinds@ == all_kinds().take(i as int).filter(keep),
    {
        let k = order[i];
        proof {
            assert(all_kinds().take(i + 1) =~= all_kinds().take(i as int).push(k));
            all_kinds().take(i as int).lemma_filter_push(k, keep);
        }
        if all || same_text(class, k.class()) {
            kinds.push(k);
        }
    }
    assert(all_kinds().take(5) =~= all_kinds());
    Sections { people, kinds }
}

/// Entries whose object is `o`.
pub open spec fn with_object(o: TermV) -> spec_fn(TripleV) -> bool {
    |t: TripleV| t.object == o
}

/// The subjects of the entries `... person`, in ledger order.
pub open spec fn people_of(db: Seq<TripleV>) -> Seq<TermV> {
    db.filter(with_object(text("person"@))).map_values(|t: TripleV| t.subject)
}

/// The people of the ledger: the subject of every entry whose object is
/// `person`, in ledger order.
pub fn people(list: &Vec<Triple>) -> (r: Vec<Term>)
    ensures
        r@.map_values(|t: Term| t@) == people_of(entries(list@)),
{
    let ghost keep = with_object(text("person"@));
    let mut r: Vec<Term> = Vec::new();
    let n = list.len();
    for i in 0..n
        invariant
            n == list.len(),
            keep == with_object(text("person"@)),
            r@.map_values(|t: Term| t@) == entries(list@).take(i as int).filter(keep).map_values(
                |t: TripleV| t.subject,
            ),
    {
        let t = &list[i];
        proof {
            lemma_entries_take(list@, i as int);
            entries(list@).take(i as int).lemma_filter_push(list@[i as int]@, keep);
        }
        if t.object.is_text("person") {
            let s = t.subject.copied();
            assert(r@.push(s).map_values(|t: Term| t@) =~= r@.map_values(|t: Term| t@).push(s@));
            assert(entries(list@).take(i as int).filter(keep).push(list@[i as int]@).map_values(
                |t: TripleV| t.subject,
            ) =~= entries(list@).take(i as int).filter(keep).map_values(|t: TripleV| t.subject).push(
                list@[i as int]@.subject,
            ));
            r.push(s);
        }
    }
    assert(entries(list@).take(n as int) =~= entries(list@));
    r
}

/// The items of a kind: every entry whose object is the kind's tag, in
/// ledger order.
pub fn items_of(list: &Vec<Triple>, kind: ItemKind) -> (r: Vec<Triple>)
    ensures
        entries(r@) == entries(list@).filter(with_object(text(kind.tag_of()))),
{
    let ghost keep = with_object(text(kind.tag_of()));
    let tag = kind.tag();
    let mut r: Vec<Triple> = Vec::new();
    let n = list.len();
    for i in 0..n
        invariant
            n == list.len(),
            tag@ == kind.tag_of(),
            keep == with_object(text(kind.tag_of())),
            entries(r@) == entries(list@).take(i as int).filter(keep),
    {
        let t = &list[i];
        proof {
            lemma_entries_take(list@, i as int);
            entries(list@).take(i as int).lemma_filter_push(list@[i as int]@, keep);
        }
        if t.object.is_text(tag) {
            let c = t.copied();
            proof {
                crate::store::lemma_entries_push(r@, c);
            }
            r.push(c);
        }
    }
    assert(entries(list@).take(n as int) =~= entries(list@));
    r
}

/// Entries that own a share of `item`: a number as predicate, and as
/// object the same value as `item` (see [`same_value`]).
pub open spec fn owning(item: TermV) -> spec_fn(TripleV) -> bool {
    |t: TripleV| t.predicate is Number && same_value(t.object, item)
}

/// Every entry that owns a share of `item` names its owner by a string.
pub open spec fn owners_named(db: Seq<TripleV>, item: TermV) -> bool {
    forall|i: int| 0 <= i < db.len() && owning(item)(#[trigger] db[i]) ==> db[i].subject is Text
}

/// The owners of `item` with their shares, in ledger order.
pub open spec fn owners_spec(db: Seq<TripleV>, item: TermV) -> Seq<(Seq<char>, TermV)> {
    db.filter(owning(item)).map_values(|t: TripleV| (t.subject->Text_0, t.predicate))
}

/// The values of a list of owners.
pub open spec fn owner_views(v: Seq<(String, Term)>) -> Seq<(Seq<char>, TermV)> {
    v.map_values(|p: (String, Term)| (p.0@, p.1@))
}

/// The owners of `item`, each with their share: the subject and the
/// predicate of every entry that has a number as predicate and `item` as
/// object, in ledger order.
pub fn owners_of(list: &Vec<Triple>, item: &Term) -> (r: Vec<(String, Term)>)
    requires
        owners_named(entries(list@), item@),
    ensures
        owner_views(r@) == owners_spec(entries(list@), item@),
{
    let ghost keep = owning(item@);
    let ghost f = |t: TripleV| (t.subject->Text_0, t.predicate);
    let mut r: Vec<(String, Term)> = Vec::new();
    let n = list.len();
    for i in 0..n
        invariant
            n == list.len(),
            keep == owning(item@),
            f == (|t: TripleV| (t.subject->Text_0, t.predicate)),
            owners_named(entries(list@), item@),
            owner_views(r@) == entries(list@).take(i as int).filter(keep).map_values(f),
    {
        let t = &list[i];
        proof {
            lemma_entries_take(list@, i as int);
            entries(list@).take(i as int).lemma_filter_push(list@[i as int]@, keep);
        }
        if t.predicate.is_number() && t.object.same(item) {
            assert(owning(item@)(entries(list@)[i as int]));
            match &t.subject {
                Term::Text(name) => {
                    let p = (copy_string(name), t.predicate.copied());
                    assert(owner_views(r@.push(p)) =~= owner_views(r@).push((p.0@, p.1@)));
                    assert(entries(list@).take(i as int).filter(keep).push(
                        list@[i as int]@,
                    ).map_values(f) =~= entries(list@).take(i as int).filter(keep).map_values(
                        f,
                    ).push(f(list@[i as int]@)));
                    r.push(p);
                },
                _ => {
                    assert(false);
                },
            }
        }
    }
    assert(entries(list@).take(n as int) =~= entries(list@));
    r
}

/// Entries that give `item` a value for the attribute `pred`: `pred` as
/// predicate, and as subject the same value as `item` (see [`same_value`]).
pub open spec fn describing(item: TermV, pred: Seq<char>) -> spec_fn(TripleV) -> bool {
    |t: TripleV| t.predicate == text(pred) && same_value(t.subject, item)
}

/// The values the ledger gives `item` for the attribute `pred`, in ledger
/// order.
pub open spec fn values_spec(db: Seq<TripleV>, item: TermV, pred: Seq<char>) -> Seq<TermV> {
    db.filter(describing(item, pred)).map_values(|t: TripleV| t.object)
}

/// The values the ledger gives `item` for the attribute `pred`: the object
/// of every entry `item pred ...`, in ledger order.
pub fn values_of(list: &Vec<Triple>, item: &Term, pred: &str) -> (r: Vec<Term>)
    ensures
        r@.map_values(|t: Term| t@) == values_spec(entries(list@), item@, pred@),
{
    let ghost keep = describing(item@, pred@);
    let mut r: Vec<Term> = Vec::new();
    let n = list.len();
    for i in 0..n
        invariant
            n == list.len(),
            keep == describing(item@, pred@),
            r@.map_values(|t: Term| t@) == entries(list@).take(i as int).filter(keep).map_values(
                |t: TripleV| t.object,
            ),
    {
        let t = &list[i];
        proof {
            lemma_entries_take(list@, i as int);
            entries(list@).take(i as int).lemma_filter_push(list@[i as int]@, keep);
        }
        if t.predicate.is_text(pred) && t.subject.same(item) {
            let o = t.object.copied();
            assert(r@.push(o).map_values(|t: Term| t@) =~= r@.map_values(|t: Term| t@).push(o@));
            assert(entries(list@).take(i as int).filter(keep).push(list@[i as int]@).map_values(
                |t: TripleV| t.object,
            ) =~= entries(list@).take(i as int).filter(keep).map_values(|t: TripleV| t.object).push(
                list@[i as int]@.object,
            ));
            r.push(o);
        }
    }
    assert(entries(list@).take(n as int) =~= entries(list@));
    r
}


/// What the report shows of one item.
#[derive(Clone, Debug, PartialEq, Eq)]
pub struct ItemSummary {
    /// The item (the subject of its declaration).
    pub name: Term,
    /// Its owners and their shares.
    pub owners: Vec<(String, Term)>,
    /// Its median value: the first value it has for `med`.
    pub med: Term,
    /// How many of it there are, where it has exactly one `number`.
    pub number: Option<Term>,
    /// How often it recurs, where it has exactly one `frequency`.
    pub frequency: Option<Term>,
}

/// The only element of a sequence of one, else nothing.
pub open spec fn single(s: Seq<TermV>) -> Option<TermV> {
    if s.len() == 1 {
        Some(s[0])
    } else {
        None
    }
}

/// The value of an optional term.
pub open spec fn opt_view(o: Option<Term>) -> Option<TermV> {
    match o {
        Some(t) => Some(t@),
        None => None,
    }
}

fn single_of(v: &Vec<Term>) -> (r: Option<Term>)
    ensures
        opt_view(r) == single(v@.map_values(|t: Term| t@)),
{
    if v.len() == 1 {
        Some(v[0].copied())
    } else {
        None
    }
}

/// What the report shows of the item declared by `item`: its owners, its
/// first median value, and its number and frequency where it has exactly
/// one of each.
pub fn summarize(list: &Vec<Triple>, item: &Triple) -> (r: ItemSummary)
    requires
        owners_named(entries(list@), item.subject@),
        values_spec(entries(list@), item.subject@, "med"@).len() > 0,
    ensures
        r.name@ == item.subject@,
        owner_views(r.owners@) == owners_spec(entries(list@), item.subject@),
        r.med@ == values_spec(entries(list@), item.subject@, "med"@)[0],
        opt_view(r.number) == single(values_spec(entries(list@), item.subject@, "number"@)),
        opt_view(r.frequency) == single(values_spec(entries(list@), item.subject@, "frequency"@)),
{
    let owners = owners_of(list, &item.subject);
    let meds = values_of(list, &item.subject, "med");
    let numbers = values_of(list, &item.subject, "number");
    let frequencies = values_of(list, &item.subject, "frequency");
    assert(meds@.map_values(|t: Term| t@)[0] == meds@[0]@);
    let med = meds[0].copied();
    ItemSummary {
        name: item.subject.copied(),
        owners,
        med,
        number: single_of(&numbers),
        frequency: single_of(&frequencies),
    }
}


/// Whether every entry that owns a share of `item` names its owner by a
/// string (what [`owners_of`] needs).
pub fn owners_are_named(list: &Vec<Triple>, item: &Term) -> (r: bool)
    ensures
        r == owners_named(entries(list@), item@),
{
    let n = list.len();
    for i in 0..n
        invariant
            n == list.len(),
            forall|j: int|
                0 <= j < i && owning(item@)(#[trigger] entries(list@)[j])
                    ==> entries(list@)[j].subject is Text,
    {
        let t = &list[i];
        if t.predicate.is_number() && t.object.same(item) {
            match &t.subject {
                Term::Text(_) => {},
                _ => {
                    assert(owning(item@)(entries(list@)[i as int]));
                    return false;
                },
            }
        }
    }
    true
}

} // verus!
