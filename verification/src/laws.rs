use vstd::prelude::*;
use crate::checks::{declares, is_known};
use crate::edit::{undescribed, unlinked};
use crate::store::{fact, listing_facts, mentions, owner_facts, unmentioned, Listing};
use crate::term::{text, TermV, TripleV};

verus! {

broadcast use {vstd::seq_lib::group_seq_properties, vstd::seq_lib::group_filter_ensures};

/// Filtering drops every element where no element passes.
pub proof fn lemma_filter_none(s: Seq<TripleV>, p: spec_fn(TripleV) -> bool)
    requires
        forall|i: int| 0 <= i < s.len() ==> !p(#[trigger] s[i]),
    ensures
        s.filter(p) == Seq::<TripleV>::empty(),
    decreases s.len(),
{
    reveal(Seq::filter);
    if s.len() > 0 {
        assert forall|i: int| 0 <= i < s.drop_last().len() implies !p(
            #[trigger] s.drop_last()[i],
        ) by {
            assert(s.drop_last()[i] == s[i]);
        }
        lemma_filter_none(s.drop_last(), p);
    }
}

/// Filtering twice by the same test is filtering once.
pub proof fn lemma_filter_twice(s: Seq<TripleV>, p: spec_fn(TripleV) -> bool)
    ensures
        s.filter(p).filter(p) == s.filter(p),
    decreases s.len(),
{
    reveal(Seq::filter);
    if s.len() > 0 {
        lemma_filter_twice(s.drop_last(), p);
        if p(s.last()) {
            s.drop_last().filter(p).lemma_filter_push(s.last(), p);
        }
    }
}

/// After `delete name`, no entry has `name` as its subject or its object,
/// and `name` is no longer declared.
pub proof fn law_delete_forgets(db: Seq<TripleV>, name: Seq<char>)
    ensures
        forall|i: int|
            0 <= i < db.filter(unmentioned(name)).len() ==> !mentions(
                #[trigger] db.filter(unmentioned(name))[i],
                name,
            ),
        !is_known(db.filter(unmentioned(name)), name),
{
    let r = db.filter(unmentioned(name));
    assert forall|i: int| 0 <= i < r.len() implies !mentions(#[trigger] r[i], name) by {
        assert(unmentioned(name)(r[i]));
    }
    if is_known(r, name) {
        let i = choose|i: int| 0 <= i < r.len() && declares(#[trigger] r[i], name);
        assert(!mentions(r[i], name));
    }
}

/// `delete name` keeps every entry that does not have `name` as its
/// subject or its object.
pub proof fn law_delete_keeps_others(db: Seq<TripleV>, name: Seq<char>, i: int)
    requires
        0 <= i < db.len(),
        !mentions(db[i], name),
    ensures
        db.filter(unmentioned(name)).contains(db[i]),
{
    assert(unmentioned(name)(db[i]));
}

/// Deleting a name a second time changes nothing.
pub proof fn law_delete_idempotent(db: Seq<TripleV>, name: Seq<char>)
    ensures
        db.filter(unmentioned(name)).filter(unmentioned(name)) == db.filter(unmentioned(name)),
{
    lemma_filter_twice(db, unmentioned(name));
}

/// Every entry that records a new item names the item, as subject or
/// (for an ownership entry) as object.
pub proof fn lemma_listing_mentions(name: Seq<char>, l: Listing)
    ensures
        forall|i: int|
            0 <= i < listing_facts(name, l).len() ==> mentions(
                #[trigger] listing_facts(name, l)[i],
                name,
            ),
{
    let f = listing_facts(name, l);
    match l {
        Listing::Person => {},
        Listing::Assett { number, holding } => {
            assert forall|i: int| 0 <= i < f.len() implies mentions(#[trigger] f[i], name) by {
                if i >= 7 {
                    assert(f[i] == owner_facts(holding.owners@, name)[i - 7]);
                }
            }
        },
        Listing::Debt { holding } => {
            assert forall|i: int| 0 <= i < f.len() implies mentions(#[trigger] f[i], name) by {
                if i >= 6 {
                    assert(f[i] == owner_facts(holding.owners@, name)[i - 6]);
                }
            }
        },
        Listing::Income { holding, frequency } => {
            assert forall|i: int| 0 <= i < f.len() implies mentions(#[trigger] f[i], name) by {
                if i >= 7 {
                    assert(f[i] == owner_facts(holding.owners@, name)[i - 7]);
                }
            }
        },
        Listing::Expense { holding, frequency } => {
            assert forall|i: int| 0 <= i < f.len() implies mentions(#[trigger] f[i], name) by {
                if i >= 7 {
                    assert(f[i] == owner_facts(holding.owners@, name)[i - 7]);
                }
            }
        },
    }
}

/// Deleting a name undoes adding an item of that name: what remains is
/// what deleting the name from the ledger before the addition leaves.
pub proof fn law_delete_undoes_add(db: Seq<TripleV>, name: Seq<char>, l: Listing)
    ensures
        (db + listing_facts(name, l)).filter(unmentioned(name)) == db.filter(unmentioned(name)),
{
    let f = listing_facts(name, l);
    lemma_listing_mentions(name, l);
    Seq::filter_distributes_over_add(db, f, unmentioned(name));
    assert forall|i: int| 0 <= i < f.len() implies !unmentioned(name)(#[trigger] f[i]) by {
        assert(mentions(f[i], name));
    }
    lemma_filter_none(f, unmentioned(name));
    assert(db.filter(unmentioned(name)) + Seq::<TripleV>::empty() =~= db.filter(
        unmentioned(name),
    ));
}

/// Once an item is added, its name is declared: a second addition of that
/// name is refused.
pub proof fn law_added_is_known(db: Seq<TripleV>, name: Seq<char>, l: Listing)
    ensures
        is_known(db + listing_facts(name, l), name),
{
    let s = db + listing_facts(name, l);
    assert(s[db.len() as int] == listing_facts(name, l)[0]);
    assert(declares(s[db.len() as int], name));
}

/// After an attribute edit `subj pred ...`, the new entry is the only one
/// that gives `subj` a value for `pred`.
pub proof fn law_attribute_edit_single(
    before: Seq<TripleV>,
    subj: Seq<char>,
    pred: Seq<char>,
    value: TermV,
)
    ensures
        ({
            let after = before.filter(undescribed(subj, pred)).push(
                fact(text(subj), text(pred), value),
            );
            &&& after.last() == fact(text(subj), text(pred), value)
            &&& forall|i: int|
                0 <= i < after.len() - 1 ==> !(#[trigger] after[i].subject == text(subj)
                    && after[i].predicate == text(pred))
        }),
{
    let kept = before.filter(undescribed(subj, pred));
    let after = kept.push(fact(text(subj), text(pred), value));
    assert forall|i: int| 0 <= i < after.len() - 1 implies !(#[trigger] after[i].subject == text(
        subj,
    ) && after[i].predicate == text(pred)) by {
        assert(after[i] == kept[i]);
        assert(undescribed(subj, pred)(kept[i]));
    }
}

/// After an ownership edit `subj share obj`, the new entry is the only one
/// that ties `subj` to `obj`.
pub proof fn law_ownership_edit_single(
    before: Seq<TripleV>,
    subj: Seq<char>,
    obj: Seq<char>,
    share: TermV,
)
    ensures
        ({
            let after = before.filter(unlinked(subj, obj)).push(fact(text(subj), share, text(obj)));
            &&& after.last() == fact(text(subj), share, text(obj))
            &&& forall|i: int|
                0 <= i < after.len() - 1 ==> !(#[trigger] after[i].subject == text(subj)
                    && after[i].object == text(obj))
        }),
{
    let kept = before.filter(unlinked(subj, obj));
    let after = kept.push(fact(text(subj), share, text(obj)));
    assert forall|i: int| 0 <= i < after.len() - 1 implies !(#[trigger] after[i].subject == text(
        subj,
    ) && after[i].object == text(obj)) by {
        assert(after[i] == kept[i]);
        assert(unlinked(subj, obj)(kept[i]));
    }
}

/// An attribute edit forgets no declared name.
pub proof fn law_attribute_edit_keeps_names(
    before: Seq<TripleV>,
    subj: Seq<char>,
    pred: Seq<char>,
    value: TermV,
    name: Seq<char>,
)
    requires
        is_known(before, name),
    ensures
        is_known(
            before.filter(undescribed(subj, pred)).push(fact(text(subj), text(pred), value)),
            name,
        ),
{
    let kept = before.filter(undescribed(subj, pred));
    let after = kept.push(fact(text(subj), text(pred), value));
    let i = choose|i: int| 0 <= i < before.len() && declares(#[trigger] before[i], name);
    if undescribed(subj, pred)(before[i]) {
        assert(kept.contains(before[i]));
        let j = choose|j: int| 0 <= j < kept.len() && kept[j] == before[i];
        assert(after[j] == kept[j]);
        assert(declares(after[j], name));
    } else {
        assert(declares(after[kept.len() as int], name));
    }
}


/// An attribute edit `subj pred ...` keeps every entry that does not give
/// `subj` a value for `pred`, and an ownership edit `subj share obj` keeps
/// every entry that does not tie `subj` to `obj`.
pub proof fn law_edit_keeps_unrelated(
    before: Seq<TripleV>,
    subj: Seq<char>,
    key: Seq<char>,
    new: TripleV,
    i: int,
)
    requires
        0 <= i < before.len(),
    ensures
        undescribed(subj, key)(before[i]) ==> before.filter(undescribed(subj, key)).push(
            new,
        ).contains(before[i]),
        unlinked(subj, key)(before[i]) ==> before.filter(unlinked(subj, key)).push(new).contains(
            before[i],
        ),
{
    if undescribed(subj, key)(before[i]) {
        let kept = before.filter(undescribed(subj, key));
        assert(kept.contains(before[i]));
        let j = choose|j: int| 0 <= j < kept.len() && kept[j] == before[i];
        assert(kept.push(new)[j] == before[i]);
    }
    if unlinked(subj, key)(before[i]) {
        let kept = before.filter(unlinked(subj, key));
        assert(kept.contains(before[i]));
        let j = choose|j: int| 0 <= j < kept.len() && kept[j] == before[i];
        assert(kept.push(new)[j] == before[i]);
    }
}

} // verus!
