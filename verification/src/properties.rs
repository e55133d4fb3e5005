//! What the ledger's operations do, stated over the entries themselves:
//! their subjects, predicates and objects.

use vstd::prelude::*;
use crate::checks::is_known;
use crate::checks::{declarations_named, is_field_name, is_item_kind, NameError};
use crate::edit::{edit_outcome, undescribed, unlinked, EditError};
use crate::term::{entries, Term, Triple};
use crate::owners::{lemma_first_colon_bounds, owner_part, share_part};
use crate::store::{assetts_named, lists_assett, listing_facts, owner_facts, unmentioned, Listing, Owner};
use crate::report::{
    all_kinds, owners_named, owners_spec, people_of, shows_kind, single, values_spec, ItemKind,
};
use crate::term::{same_value, TermV, TripleV};

verus! {

broadcast use {vstd::seq_lib::group_seq_properties, vstd::seq_lib::group_filter_ensures};

/// Filtering keeps exactly the elements that pass, in order: where only
/// one element passes, the result is that element alone.
pub proof fn lemma_filter_single<A>(s: Seq<A>, p: spec_fn(A) -> bool, i: int)
    requires
        0 <= i < s.len(),
        p(s[i]),
        forall|j: int| 0 <= j < s.len() && j != i ==> !p(#[trigger] s[j]),
    ensures
        s.filter(p) == seq![s[i]],
    decreases s.len(),
{
    reveal(Seq::filter);
    let d = s.drop_last();
    if i == s.len() - 1 {
        assert forall|j: int| 0 <= j < d.len() implies !p(#[trigger] d[j]) by {
            assert(d[j] == s[j]);
        }
        lemma_filter_none_any(d, p);
        assert(Seq::<A>::empty().push(s[i]) =~= seq![s[i]]);
    } else {
        assert(!p(s.last()));
        assert forall|j: int| 0 <= j < d.len() && j != i implies !p(#[trigger] d[j]) by {
            assert(d[j] == s[j]);
        }
        assert(d[i] == s[i]);
        lemma_filter_single(d, p, i);
    }
}

/// Filtering leaves nothing where no element passes.
pub proof fn lemma_filter_none_any<A>(s: Seq<A>, p: spec_fn(A) -> bool)
    requires
        forall|i: int| 0 <= i < s.len() ==> !p(#[trigger] s[i]),
    ensures
        s.filter(p) == Seq::<A>::empty(),
    decreases s.len(),
{
    reveal(Seq::filter);
    if s.len() > 0 {
        let d = s.drop_last();
        assert forall|i: int| 0 <= i < d.len() implies !p(#[trigger] d[i]) by {
            assert(d[i] == s[i]);
        }
        lemma_filter_none_any(d, p);
    }
}

/// A name is declared exactly when some entry, wherever it came from,
/// reads `name is ...`.
pub proof fn law_known_iff_declared(db: Seq<TripleV>, name: Seq<char>)
    ensures
        is_known(db, name) <==> exists|i: int|
            0 <= i < db.len() && (#[trigger] db[i]).predicate == TermV::Text("is"@)
                && db[i].subject == TermV::Text(name),
{
    if exists|i: int|
        0 <= i < db.len() && (#[trigger] db[i]).predicate == TermV::Text("is"@) && db[i].subject
            == TermV::Text(name) {
        let i = choose|i: int|
            0 <= i < db.len() && (#[trigger] db[i]).predicate == TermV::Text("is"@)
                && db[i].subject == TermV::Text(name);
        assert(crate::checks::declares(db[i], name));
    }
}

/// `delete name` keeps exactly the entries that have `name` neither as
/// subject nor as object: every kept entry is such an entry, and every
/// such entry is kept.
pub proof fn law_delete_exact(db: Seq<TripleV>, name: Seq<char>)
    ensures
        forall|k: int|
            0 <= k < db.filter(unmentioned(name)).len() ==> {
                let t = #[trigger] db.filter(unmentioned(name))[k];
                &&& t.subject != TermV::Text(name)
                &&& t.object != TermV::Text(name)
                &&& db.contains(t)
            },
        forall|i: int|
            0 <= i < db.len() && db[i].subject != TermV::Text(name) && db[i].object
                != TermV::Text(name) ==> db.filter(unmentioned(name)).contains(#[trigger] db[i]),
{
    let r = db.filter(unmentioned(name));
    assert forall|k: int| 0 <= k < r.len() implies {
        let t = #[trigger] r[k];
        &&& t.subject != TermV::Text(name)
        &&& t.object != TermV::Text(name)
        &&& db.contains(t)
    } by {
        assert(unmentioned(name)(r[k]));
        assert(r.contains(r[k]));
        db.lemma_filter_contains_rev(unmentioned(name), r[k]);
    }
    assert forall|i: int|
        0 <= i < db.len() && db[i].subject != TermV::Text(name) && db[i].object != TermV::Text(
            name,
        ) implies r.contains(#[trigger] db[i]) by {
        assert(unmentioned(name)(db[i]));
    }
}

/// An ownership edit `subj share obj` drops exactly the entries with
/// `subj` as subject and `obj` as object: every other entry (another
/// owner's share of `obj`, say) is kept, and nothing else is.
pub proof fn law_ownership_edit_exact(db: Seq<TripleV>, subj: Seq<char>, obj: Seq<char>)
    ensures
        forall|k: int|
            0 <= k < db.filter(unlinked(subj, obj)).len() ==> {
                let t = #[trigger] db.filter(unlinked(subj, obj))[k];
                &&& !(t.subject == TermV::Text(subj) && t.object == TermV::Text(obj))
                &&& db.contains(t)
            },
        forall|i: int|
            0 <= i < db.len() && (db[i].subject != TermV::Text(subj) || db[i].object
                != TermV::Text(obj)) ==> db.filter(unlinked(subj, obj)).contains(#[trigger] db[i]),
{
    let r = db.filter(unlinked(subj, obj));
    assert forall|k: int| 0 <= k < r.len() implies {
        let t = #[trigger] r[k];
        &&& !(t.subject == TermV::Text(subj) && t.object == TermV::Text(obj))
        &&& db.contains(t)
    } by {
        assert(unlinked(subj, obj)(r[k]));
        assert(r.contains(r[k]));
        db.lemma_filter_contains_rev(unlinked(subj, obj), r[k]);
    }
    assert forall|i: int|
        0 <= i < db.len() && (db[i].subject != TermV::Text(subj) || db[i].object != TermV::Text(
            obj,
        )) implies r.contains(#[trigger] db[i]) by {
        assert(unlinked(subj, obj)(db[i]));
    }
}

/// An attribute edit `subj pred value` drops exactly the entries with
/// `subj` as subject and `pred` as predicate: every other entry is kept,
/// and nothing else is.
pub proof fn law_attribute_edit_exact(db: Seq<TripleV>, subj: Seq<char>, pred: Seq<char>)
    ensures
        forall|k: int|
            0 <= k < db.filter(undescribed(subj, pred)).len() ==> {
                let t = #[trigger] db.filter(undescribed(subj, pred))[k];
                &&& !(t.subject == TermV::Text(subj) && t.predicate == TermV::Text(pred))
                &&& db.contains(t)
            },
        forall|i: int|
            0 <= i < db.len() && (db[i].subject != TermV::Text(subj) || db[i].predicate
                != TermV::Text(pred)) ==> db.filter(undescribed(subj, pred)).contains(
                #[trigger] db[i],
            ),
{
    let r = db.filter(undescribed(subj, pred));
    assert forall|k: int| 0 <= k < r.len() implies {
        let t = #[trigger] r[k];
        &&& !(t.subject == TermV::Text(subj) && t.predicate == TermV::Text(pred))
        &&& db.contains(t)
    } by {
        assert(undescribed(subj, pred)(r[k]));
        assert(r.contains(r[k]));
        db.lemma_filter_contains_rev(undescribed(subj, pred), r[k]);
    }
    assert forall|i: int|
        0 <= i < db.len() && (db[i].subject != TermV::Text(subj) || db[i].predicate
            != TermV::Text(pred)) implies r.contains(#[trigger] db[i]) by {
        assert(undescribed(subj, pred)(db[i]));
    }
}


/// The new entry `subject predicate object`, made by an operation.
pub open spec fn new_entry(subject: TermV, predicate: TermV, object: TermV) -> TripleV {
    TripleV { subject, predicate, object, origin: None }
}

/// The ownership entries of an item are one per owner, in order:
/// `owner share item`.
pub proof fn law_owner_entries(owners: Seq<Owner>, item: Seq<char>)
    ensures
        owner_facts(owners, item).len() == owners.len(),
        forall|i: int|
            0 <= i < owners.len() ==> #[trigger] owner_facts(owners, item)[i] == new_entry(
                TermV::Text(owners[i].name@),
                owners[i].share@,
                TermV::Text(item),
            ),
{
}

/// Adding an item records its declaration first, then one entry per
/// attribute of its kind (each with the item as subject), then one
/// ownership entry per owner, in the order the owners were given.
pub proof fn law_listing_entries(name: Seq<char>, l: Listing)
    ensures
        ({
            let f = listing_facts(name, l);
            let n = TermV::Text(name);
            let head: int = match l {
                Listing::Person => 1,
                Listing::Assett { .. } => 7,
                Listing::Debt { .. } => 6,
                Listing::Income { .. } => 7,
                Listing::Expense { .. } => 7,
            };
            let owners: Seq<Owner> = match l {
                Listing::Person => Seq::empty(),
                Listing::Assett { holding, .. } => holding.owners@,
                Listing::Debt { holding } => holding.owners@,
                Listing::Income { holding, .. } => holding.owners@,
                Listing::Expense { holding, .. } => holding.owners@,
            };
            let kind: Seq<char> = match l {
                Listing::Person => "person"@,
                Listing::Assett { .. } => "assett"@,
                Listing::Debt { .. } => "debt"@,
                Listing::Income { .. } => "income"@,
                Listing::Expense { .. } => "expense"@,
            };
            &&& f.len() == head + owners.len()
            &&& f[0] == new_entry(n, TermV::Text("is"@), TermV::Text(kind))
            &&& forall|j: int| 0 <= j < head ==> (#[trigger] f[j]).subject == n && f[j].origin
                is None
            &&& forall|i: int|
                0 <= i < owners.len() ==> #[trigger] f[head + i] == new_entry(
                    TermV::Text(owners[i].name@),
                    owners[i].share@,
                    n,
                )
        }),
{
    let f = listing_facts(name, l);
    match l {
        Listing::Person => {},
        Listing::Assett { number, holding } => {
            assert forall|i: int| 0 <= i < holding.owners@.len() implies #[trigger] f[7 + i]
                == new_entry(TermV::Text(holding.owners@[i].name@), holding.owners@[i].share@, TermV::Text(name)) by {
                assert(f[7 + i] == owner_facts(holding.owners@, name)[i]);
            }
        },
        Listing::Debt { holding } => {
            assert forall|i: int| 0 <= i < holding.owners@.len() implies #[trigger] f[6 + i]
                == new_entry(TermV::Text(holding.owners@[i].name@), holding.owners@[i].share@, TermV::Text(name)) by {
                assert(f[6 + i] == owner_facts(holding.owners@, name)[i]);
            }
        },
        Listing::Income { holding, frequency } => {
            assert forall|i: int| 0 <= i < holding.owners@.len() implies #[trigger] f[7 + i]
                == new_entry(TermV::Text(holding.owners@[i].name@), holding.owners@[i].share@, TermV::Text(name)) by {
                assert(f[7 + i] == owner_facts(holding.owners@, name)[i]);
            }
        },
        Listing::Expense { holding, frequency } => {
            assert forall|i: int| 0 <= i < holding.owners@.len() implies #[trigger] f[7 + i]
                == new_entry(TermV::Text(holding.owners@[i].name@), holding.owners@[i].share@, TermV::Text(name)) by {
                assert(f[7 + i] == owner_facts(holding.owners@, name)[i]);
            }
        },
    }
}


/// The attribute entries an added item gets, as (predicate, object) pairs
/// in order after its declaration: an asset its number, then every item
/// but a person its start date, minimum, median and maximum, an income or
/// an expense its frequency, and every item but a person its appreciation.
pub open spec fn attributes_of(l: Listing) -> Seq<(TermV, TermV)> {
    let t = |s: Seq<char>| TermV::Text(s);
    match l {
        Listing::Person => Seq::empty(),
        Listing::Assett { number, holding } => seq![
            (t("number"@), number@),
            (t("startdate"@), t(holding.startdate@)),
            (t("min"@), holding.min@),
            (t("med"@), holding.med@),
            (t("max"@), holding.max@),
            (t("appreciation"@), holding.appreciation@),
        ],
        Listing::Debt { holding } => seq![
            (t("startdate"@), t(holding.startdate@)),
            (t("min"@), holding.min@),
            (t("med"@), holding.med@),
            (t("max"@), holding.max@),
            (t("appreciation"@), holding.appreciation@),
        ],
        Listing::Income { holding, frequency } => seq![
            (t("startdate"@), t(holding.startdate@)),
            (t("min"@), holding.min@),
            (t("med"@), holding.med@),
            (t("max"@), holding.max@),
            (t("frequency"@), t(frequency@)),
            (t("appreciation"@), holding.appreciation@),
        ],
        Listing::Expense { holding, frequency } => seq![
            (t("startdate"@), t(holding.startdate@)),
            (t("min"@), holding.min@),
            (t("med"@), holding.med@),
            (t("max"@), holding.max@),
            (t("frequency"@), t(frequency@)),
            (t("appreciation"@), holding.appreciation@),
        ],
    }
}

/// After its declaration, an added item's entries give it its attributes,
/// in the order [`attributes_of`] lists them.
pub proof fn law_listing_attributes(name: Seq<char>, l: Listing)
    ensures
        forall|j: int|
            0 <= j < attributes_of(l).len() ==> #[trigger] listing_facts(name, l)[j + 1] == new_entry(
                TermV::Text(name),
                attributes_of(l)[j].0,
                attributes_of(l)[j].1,
            ),
{
}


/// Two terms hold the same value exactly when they are equal, or are the
/// numbers `0.0` and `-0.0` in either order.
pub proof fn law_same_value(a: TermV, b: TermV)
    ensures
        same_value(a, b) <==> (a == b || ((a == TermV::Number("0.0"@) || a == TermV::Number(
            "-0.0"@,
        )) && (b == TermV::Number("0.0"@) || b == TermV::Number("-0.0"@)))),
{
}

/// A report shows a number or a frequency exactly when there is one
/// value of it, and then shows that value, whatever its kind.
pub proof fn law_single(s: Seq<TermV>)
    ensures
        s.len() == 1 ==> single(s) == Some(s[0]),
        s.len() != 1 ==> single(s) is None,
        forall|v: TermV| single(seq![v]) == Some(v),
{
}

/// Where exactly one entry gives `item` a value for `pred`, that entry's
/// object is the only value the report finds, and the one it shows.
pub proof fn law_values_one(db: Seq<TripleV>, item: TermV, pred: Seq<char>, i: int)
    requires
        0 <= i < db.len(),
        db[i].predicate == TermV::Text(pred) && same_value(db[i].subject, item),
        forall|j: int|
            0 <= j < db.len() && j != i ==> !((#[trigger] db[j]).predicate == TermV::Text(pred)
                && same_value(db[j].subject, item)),
    ensures
        values_spec(db, item, pred) == seq![db[i].object],
        single(values_spec(db, item, pred)) == Some(db[i].object),
{
    let p = crate::report::describing(item, pred);
    assert forall|j: int| 0 <= j < db.len() && j != i implies !p(#[trigger] db[j]) by {}
    lemma_filter_single(db, p, i);
    assert(seq![db[i]].map_values(|t: TripleV| t.object) =~= seq![db[i].object]);
}

/// Where no entry gives `item` a value for `pred`, the report finds none.
pub proof fn law_values_none(db: Seq<TripleV>, item: TermV, pred: Seq<char>)
    requires
        forall|j: int|
            0 <= j < db.len() ==> !((#[trigger] db[j]).predicate == TermV::Text(pred)
                && same_value(db[j].subject, item)),
    ensures
        values_spec(db, item, pred).len() == 0,
{
    let p = crate::report::describing(item, pred);
    assert forall|j: int| 0 <= j < db.len() implies !p(#[trigger] db[j]) by {}
    lemma_filter_none_any(db, p);
}

/// Where exactly one entry has a number as predicate and `item` as
/// object, its subject is the item's only owner, with that number as
/// share.
pub proof fn law_owners_one(db: Seq<TripleV>, item: TermV, i: int, owner: Seq<char>)
    requires
        0 <= i < db.len(),
        db[i].predicate is Number && same_value(db[i].object, item),
        db[i].subject == TermV::Text(owner),
        forall|j: int|
            0 <= j < db.len() && j != i ==> !((#[trigger] db[j]).predicate is Number
                && same_value(db[j].object, item)),
    ensures
        owners_spec(db, item) == seq![(owner, db[i].predicate)],
{
    let p = crate::report::owning(item);
    assert forall|j: int| 0 <= j < db.len() && j != i implies !p(#[trigger] db[j]) by {}
    lemma_filter_single(db, p, i);
    assert(seq![db[i]].map_values(|t: TripleV| (t.subject->Text_0, t.predicate)) =~= seq![
        (owner, db[i].predicate),
    ]);
}

/// Where exactly one entry has `person` as object, its subject is the
/// only person the report lists.
pub proof fn law_people_one(db: Seq<TripleV>, i: int)
    requires
        0 <= i < db.len(),
        db[i].object == TermV::Text("person"@),
        forall|j: int|
            0 <= j < db.len() && j != i ==> (#[trigger] db[j]).object != TermV::Text("person"@),
    ensures
        people_of(db) == seq![db[i].subject],
{
    let p = crate::report::with_object(TermV::Text("person"@));
    assert forall|j: int| 0 <= j < db.len() && j != i implies !p(#[trigger] db[j]) by {}
    lemma_filter_single(db, p, i);
    assert(seq![db[i]].map_values(|t: TripleV| t.subject) =~= seq![db[i].subject]);
}

/// `view all` shows every kind in the order assets, debts, incomes,
/// expenses, environment; any other class shows at most the kind whose
/// plural, lower-case heading it names.
pub proof fn law_sections(class: Seq<char>, k: ItemKind)
    ensures
        all_kinds() == seq![
            ItemKind::Assett,
            ItemKind::Debt,
            ItemKind::Income,
            ItemKind::Expense,
            ItemKind::Environment,
        ],
        shows_kind("all"@, k),
        shows_kind(class, k) <==> (class == "all"@ || class == match k {
            ItemKind::Assett => "assetts"@,
            ItemKind::Debt => "debts"@,
            ItemKind::Income => "income"@,
            ItemKind::Expense => "expenses"@,
            ItemKind::Environment => "environment"@,
        }),
        k.heading_of() == match k {
            ItemKind::Assett => "Assetts"@,
            ItemKind::Debt => "Debts"@,
            ItemKind::Income => "Income"@,
            ItemKind::Expense => "Expenses"@,
            ItemKind::Environment => "Environment"@,
        },
        k.tag_of() == match k {
            ItemKind::Assett => "assett"@,
            ItemKind::Debt => "debt"@,
            ItemKind::Income => "income"@,
            ItemKind::Expense => "expense"@,
            ItemKind::Environment => "environment"@,
        },
{
}


/// Whether some entry reads `name is ...`.
pub open spec fn declared_in(db: Seq<TripleV>, name: Seq<char>) -> bool {
    exists|i: int|
        0 <= i < db.len() && (#[trigger] db[i]).predicate == TermV::Text("is"@) && db[i].subject
            == TermV::Text(name)
}

/// The declaration of an added item has as object the tag under which the
/// report lists items of its kind.
pub proof fn law_added_item_listed(name: Seq<char>, l: Listing)
    ensures
        match l {
            Listing::Person => listing_facts(name, l)[0].object == TermV::Text("person"@),
            Listing::Assett { .. } => listing_facts(name, l)[0].object == TermV::Text(
                ItemKind::Assett.tag_of(),
            ),
            Listing::Debt { .. } => listing_facts(name, l)[0].object == TermV::Text(
                ItemKind::Debt.tag_of(),
            ),
            Listing::Income { .. } => listing_facts(name, l)[0].object == TermV::Text(
                ItemKind::Income.tag_of(),
            ),
            Listing::Expense { .. } => listing_facts(name, l)[0].object == TermV::Text(
                ItemKind::Expense.tag_of(),
            ),
        },
{
}

/// What an edit does, over the entries: a refused edit changes nothing; an
/// accepted one needs the subject (and, for a share, the object) declared,
/// ends the ledger with the new entry, keeps every entry it does not
/// replace, and leaves no other entry for the same subject and predicate
/// (attribute) or subject and object (share).
pub proof fn law_edit_effect(
    before: Seq<TripleV>,
    after: Seq<TripleV>,
    subj: Seq<char>,
    pred: Seq<char>,
    obj: Seq<char>,
    pred_value: Option<Term>,
    obj_value: Option<Term>,
    r: Result<(), EditError>,
)
    requires
        edit_outcome(before, after, subj, pred, obj, pred_value, obj_value, r),
    ensures
        r is Err ==> after == before,
        r matches Err(EditError::Name(NameError::DoesNotExist(n))) ==> (n@ == subj && !declared_in(
            before,
            subj,
        )) || (n@ == obj && pred_value is Some && !declared_in(before, obj)),
        r is Ok ==> after.len() >= 1,
        r is Ok && pred_value is Some ==> {
            &&& declared_in(before, subj)
            &&& declared_in(before, obj)
            &&& after.last() == new_entry(TermV::Text(subj), pred_value->0@, TermV::Text(obj))
            &&& forall|i: int|
                0 <= i < before.len() && (before[i].subject != TermV::Text(subj)
                    || before[i].object != TermV::Text(obj)) ==> after.contains(#[trigger] before[i])
            &&& forall|k: int|
                0 <= k < after.len() - 1 ==> !((#[trigger] after[k]).subject == TermV::Text(subj)
                    && after[k].object == TermV::Text(obj))
        },
        r is Ok && pred_value is None ==> {
            &&& declared_in(before, subj)
            &&& is_field_name(pred)
            &&& (pred == "is"@ ==> is_item_kind(obj))
            &&& after.last() == new_entry(
                TermV::Text(subj),
                TermV::Text(pred),
                match obj_value {
                    Some(v) => v@,
                    None => TermV::Text(obj),
                },
            )
            &&& forall|i: int|
                0 <= i < before.len() && (before[i].subject != TermV::Text(subj)
                    || before[i].predicate != TermV::Text(pred)) ==> after.contains(
                    #[trigger] before[i],
                )
            &&& forall|k: int|
                0 <= k < after.len() - 1 ==> !((#[trigger] after[k]).subject == TermV::Text(subj)
                    && after[k].predicate == TermV::Text(pred))
        },
{
    law_known_iff_declared(before, subj);
    law_known_iff_declared(before, obj);
    match pred_value {
        Some(v) => {
            if r is Ok {
                let kept = before.filter(unlinked(subj, obj));
                law_ownership_edit_exact(before, subj, obj);
                assert forall|i: int|
                    0 <= i < before.len() && (before[i].subject != TermV::Text(subj)
                        || before[i].object != TermV::Text(obj)) implies after.contains(
                    #[trigger] before[i],
                ) by {
                    assert(kept.contains(before[i]));
                    let j = choose|j: int| 0 <= j < kept.len() && kept[j] == before[i];
                    assert(after[j] == kept[j]);
                }
                assert forall|k: int| 0 <= k < after.len() - 1 implies !((
                #[trigger] after[k]).subject == TermV::Text(subj) && after[k].object
                    == TermV::Text(obj)) by {
                    assert(after[k] == kept[k]);
                }
            }
        },
        None => {
            if r is Ok {
                let kept = before.filter(undescribed(subj, pred));
                law_attribute_edit_exact(before, subj, pred);
                assert forall|i: int|
                    0 <= i < before.len() && (before[i].subject != TermV::Text(subj)
                        || before[i].predicate != TermV::Text(pred)) implies after.contains(
                    #[trigger] before[i],
                ) by {
                    assert(kept.contains(before[i]));
                    let j = choose|j: int| 0 <= j < kept.len() && kept[j] == before[i];
                    assert(after[j] == kept[j]);
                }
                assert forall|k: int| 0 <= k < after.len() - 1 implies !((
                #[trigger] after[k]).subject == TermV::Text(subj) && after[k].predicate
                    == TermV::Text(pred)) by {
                    assert(after[k] == kept[k]);
                }
            }
        },
    }
}


/// The values of a ledger are its entries' values, one for one, in order.
pub proof fn law_entries(list: Seq<Triple>)
    ensures
        entries(list).len() == list.len(),
        forall|i: int|
            0 <= i < list.len() ==> #[trigger] entries(list)[i] == (TripleV {
                subject: list[i].subject@,
                predicate: list[i].predicate@,
                object: list[i].object@,
                origin: list[i].origin,
            }),
{
}

/// A term's value keeps its kind and its characters.
pub proof fn law_term_view(s: String)
    ensures
        Term::Text(s).view() == TermV::Text(s@),
        Term::Number(s).view() == TermV::Number(s@),
        Term::Other(s).view() == TermV::Other(s@),
{
}

/// The attribute names an edit accepts are exactly these twelve, and an
/// `is` edit accepts exactly these six kinds.
pub proof fn law_field_names(p: Seq<char>)
    ensures
        is_field_name(p) <==> (p == "min"@ || p == "max"@ || p == "med"@ || p == "frequency"@ || p
            == "appreciation"@ || p == "volatility"@ || p == "ticker"@ || p == "type"@ || p == "is"@
            || p == "number"@ || p == "startdate"@ || p == "enddate"@),
        is_item_kind(p) <==> (p == "person"@ || p == "assett"@ || p == "debt"@ || p == "income"@
            || p == "expense"@ || p == "environment"@),
{
}

/// Splitting `name:share`: the name is everything before the first `:`
/// and holds no `:`; the share is what follows that `:` up to the next
/// `:` or the end, and holds no `:`.
pub proof fn law_ownsplit_parts(s: Seq<char>)
    requires
        s.contains(':'),
    ensures
        ({
            let n = owner_part(s);
            let rest = s.skip(n.len() as int + 1);
            let sh = share_part(s);
            &&& n.len() < s.len()
            &&& s == n + seq![':'] + rest
            &&& forall|i: int| 0 <= i < n.len() ==> n[i] != ':'
            &&& sh.len() <= rest.len()
            &&& rest.take(sh.len() as int) == sh
            &&& forall|i: int| 0 <= i < sh.len() ==> sh[i] != ':'
            &&& (sh.len() == rest.len() || rest[sh.len() as int] == ':')
        }),
{
    lemma_first_colon_bounds(s);
    let k = crate::owners::first_colon(s);
    let i = choose|i: int| 0 <= i < s.len() && s[i] == ':';
    assert(k < s.len());
    let n = owner_part(s);
    assert(n.len() == k);
    let rest = s.skip(k + 1);
    assert(s =~= n + seq![':'] + rest);
    lemma_first_colon_bounds(rest);
    let sh = share_part(s);
    assert(rest.take(sh.len() as int) =~= sh);
}


/// What the checks made before an operation ask of the ledger, over its
/// entries: an asset is listed when some entry reads `name ... assett`;
/// the declarations, the asset entries and the ownership entries of an
/// item must each have a string as subject.
pub proof fn law_preconditions(db: Seq<TripleV>, name: Seq<char>, item: TermV)
    ensures
        lists_assett(db, name) <==> exists|i: int|
            0 <= i < db.len() && (#[trigger] db[i]).object == TermV::Text("assett"@)
                && db[i].subject == TermV::Text(name),
        assetts_named(db) <==> forall|i: int|
            0 <= i < db.len() && (#[trigger] db[i]).object == TermV::Text("assett"@)
                ==> db[i].subject is Text,
        declarations_named(db) <==> forall|i: int|
            0 <= i < db.len() && (#[trigger] db[i]).predicate == TermV::Text("is"@)
                ==> db[i].subject is Text,
        owners_named(db, item) <==> forall|i: int|
            0 <= i < db.len() && (#[trigger] db[i]).predicate is Number && same_value(
                db[i].object,
                item,
            ) ==> db[i].subject is Text,
{
    assert(owners_named(db, item) <==> forall|i: int|
        0 <= i < db.len() && (#[trigger] db[i]).predicate is Number && same_value(
            db[i].object,
            item,
        ) ==> db[i].subject is Text) by {
        if owners_named(db, item) {
            assert forall|i: int|
                0 <= i < db.len() && (#[trigger] db[i]).predicate is Number && same_value(
                    db[i].object,
                    item,
                ) implies db[i].subject is Text by {
                assert(crate::report::owning(item)(db[i]));
            }
        }
    }
}

} // verus!
