use vstd::prelude::*;
use crate::checks::{
    declarations_named, is_field_name, is_item_kind, is_known, namecheck, predcheck, NameError,
    PredError,
};
use crate::numbers::{is_number, numberkit_number};
use crate::store::{fact, lemma_entries_push, lemma_entries_take};
use crate::term::{entries, text, Term, TermV, Triple, TripleV};

verus! {

broadcast use vstd::seq_lib::group_seq_properties;

/// Entries that do not tie `subject` to `object` (whatever the predicate).
pub open spec fn unlinked(subject: Seq<char>, object: Seq<char>) -> spec_fn(TripleV) -> bool {
    |t: TripleV| !(t.subject == text(subject) && t.object == text(object))
}

/// Entries that do not give `subject` a value for `predicate`.
pub open spec fn undescribed(subject: Seq<char>, predicate: Seq<char>) -> spec_fn(
    TripleV,
) -> bool {
    |t: TripleV| !(t.subject == text(subject) && t.predicate == text(predicate))
}

/// Why an edit was refused.
#[derive(Clone, Debug, PartialEq, Eq)]
pub enum EditError {
    Name(NameError),
    Pred(PredError),
}

impl EditError {
    /// The line the command prints when it refuses the edit.
    pub fn message(&self) -> (r: String)
        ensures
            match self {
                EditError::Name(NameError::AlreadyExists(n)) => r@ == n@ + " already exists"@,
                EditError::Name(NameError::DoesNotExist(n)) => r@ == n@ + " does not exist"@,
                EditError::Pred(PredError::UnknownPredicate(p)) => r@ == p@ + " does not exist"@,
                EditError::Pred(PredError::NotAnItem(o)) => r@ == o@
                    + " not in [\"person\", \"assett\", \"debt\", \"income\", \"expense\", \"environment\"]"@,
            },
    {
        match self {
            EditError::Name(e) => e.message(),
            EditError::Pred(e) => e.message(),
        }
    }
}

/// The ledger without the entries of `subject` whose object (when
/// `by_object`) or predicate (otherwise) is the string `key`.
fn drop_keyed(list: &Vec<Triple>, subject: &str, key: &str, by_object: bool) -> (r: Vec<Triple>)
    ensures
        by_object ==> entries(r@) == entries(list@).filter(unlinked(subject@, key@)),
        !by_object ==> entries(r@) == entries(list@).filter(undescribed(subject@, key@)),
{
    let ghost keep = if by_object {
        unlinked(subject@, key@)
    } else {
        undescribed(subject@, key@)
    };
    let mut r: Vec<Triple> = Vec::new();
    let n = list.len();
    for i in 0..n
        invariant
            n == list.len(),
            keep == (if by_object {
                unlinked(subject@, key@)
            } else {
                undescribed(subject@, key@)
            }),
            entries(r@) == entries(list@).take(i as int).filter(keep),
    {
        let t = &list[i];
        proof {
            lemma_entries_take(list@, i as int);
            entries(list@).take(i as int).lemma_filter_push(list@[i as int]@, keep);
        }
        let hit = if by_object {
            t.subject.is_text(subject) && t.object.is_text(key)
        } else {
            t.subject.is_text(subject) && t.predicate.is_text(key)
        };
        if !hit {
            let c = t.copied();
            proof {
                lemma_entries_push(r@, c);
            }
            r.push(c);
        }
    }
    proof {
        assert(entries(list@).take(n as int) =~= entries(list@));
    }
    r
}

/// The value an attribute edit stores: the object's reading as a number
/// where it has one, else the object as a string.
pub open spec fn stored_value(obj: Seq<char>, obj_value: Option<Term>) -> TermV {
    match obj_value {
        Some(v) => v@,
        None => text(obj),
    }
}

/// What an edit of `before` into `after` with result `r` means, given how
/// `pred` and `obj` read as numbers (see [`edit_with`]).
pub open spec fn edit_outcome(
    before: Seq<TripleV>,
    after: Seq<TripleV>,
    subj: Seq<char>,
    pred: Seq<char>,
    obj: Seq<char>,
    pred_value: Option<Term>,
    obj_value: Option<Term>,
    r: Result<(), EditError>,
) -> bool {
    match pred_value {
        Some(v) => match r {
            Ok(()) => {
                &&& is_known(before, subj)
                &&& is_known(before, obj)
                &&& after == before.filter(unlinked(subj, obj)).push(fact(text(subj), v@, text(obj)))
            },
            Err(EditError::Name(NameError::DoesNotExist(n))) => {
                &&& after == before
                &&& if !is_known(before, subj) {
                    n@ == subj
                } else {
                    !is_known(before, obj) && n@ == obj
                }
            },
            _ => false,
        },
        None => match r {
            Ok(()) => {
                &&& is_known(before, subj)
                &&& is_field_name(pred)
                &&& (pred == "is"@ ==> is_item_kind(obj))
                &&& after == before.filter(undescribed(subj, pred)).push(
                    fact(text(subj), text(pred), stored_value(obj, obj_value)),
                )
            },
            Err(EditError::Name(NameError::DoesNotExist(n))) => {
                &&& after == before
                &&& !is_known(before, subj)
                &&& n@ == subj
            },
            Err(EditError::Pred(PredError::UnknownPredicate(p))) => {
                &&& after == before
                &&& is_known(before, subj)
                &&& !is_field_name(pred)
                &&& p@ == pred
            },
            Err(EditError::Pred(PredError::NotAnItem(o))) => {
                &&& after == before
                &&& is_known(before, subj)
                &&& is_field_name(pred)
                &&& pred == "is"@
                &&& !is_item_kind(obj)
                &&& o@ == obj
            },
            _ => false,
        },
    }
}

/// Applies `edit subj pred obj`, given how `pred` and `obj` read as numbers.
///
/// With `pred_value` set, `pred` is a number and the edit records that
/// `subj` owns that share of `obj`: both names must be declared, and every
/// entry tying `subj` to `obj` gives way to the new one. Without it, the
/// edit sets the attribute `pred` of `subj`: the subject must be declared
/// and the predicate pass [`predcheck`]; every entry giving `subj` a value
/// for `pred` gives way to the new one, whose object is `obj_value` where
/// `obj` reads as a number and `obj` itself otherwise. A refused edit
/// leaves the ledger as it was.
pub fn edit_with(
    list: &mut Vec<Triple>,
    subj: &str,
    pred: &str,
    obj: &str,
    pred_value: Option<Term>,
    obj_value: Option<Term>,
) -> (r: Result<(), EditError>)
    requires
        declarations_named(entries(old(list)@)),
    ensures
        edit_outcome(
            entries(old(list)@),
            entries(final(list)@),
            subj@,
            pred@,
            obj@,
            pred_value,
            obj_value,
            r,
        ),
{
    match pred_value {
        Some(v) => {
            match namecheck(list, subj, false) {
                Ok(()) => {},
                Err(e) => {
                    return Err(EditError::Name(e));
                },
            }
            match namecheck(list, obj, false) {
                Ok(()) => {},
                Err(e) => {
                    return Err(EditError::Name(e));
                },
            }
            let t = Triple {
                subject: Term::Text(subj.to_owned()),
                predicate: v,
                object: Term::Text(obj.to_owned()),
                origin: None,
            };
            let mut kept = drop_keyed(list, subj, obj, true);
            proof {
                lemma_entries_push(kept@, t);
            }
            kept.push(t);
            *list = kept;
            Ok(())
        },
        None => {
            match namecheck(list, subj, false) {
                Ok(()) => {},
                Err(e) => {
                    return Err(EditError::Name(e));
                },
            }
            match predcheck(pred, obj) {
                Ok(()) => {},
                Err(e) => {
                    return Err(EditError::Pred(e));
                },
            }
            let value = match obj_value {
                Some(v) => v,
                None => Term::Text(obj.to_owned()),
            };
            let t = Triple {
                subject: Term::Text(subj.to_owned()),
                predicate: Term::Text(pred.to_owned()),
                object: value,
                origin: None,
            };
            let mut kept = drop_keyed(list, subj, pred, false);
            proof {
                lemma_entries_push(kept@, t);
            }
            kept.push(t);
            *list = kept;
            Ok(())
        },
    }
}

/// Applies `edit subj pred obj`.
///
/// `pred_reading` is the share that `pred` reads as, where it reads as one,
/// and `obj_reading` the amount that `obj` reads as (its fallback where it
/// does not). Whether `pred` and `obj` are numbers is decided by
/// `numberkit::is_number`. Where `pred` is a number that gave no reading,
/// nothing is done and `None` comes back; else the edit goes as
/// [`edit_with`] says.
pub fn edit(
    list: &mut Vec<Triple>,
    subj: &str,
    pred: &str,
    obj: &str,
    pred_reading: Option<Term>,
    obj_reading: Term,
) -> (r: Option<Result<(), EditError>>)
    requires
        declarations_named(entries(old(list)@)),
    ensures
        r is None <==> numberkit_number(pred@) && pred_reading is None,
        r is None ==> final(list)@ == old(list)@,
        r is Some ==> {
            let pv = if numberkit_number(pred@) {
                pred_reading
            } else {
                None
            };
            let ov = if numberkit_number(obj@) {
                Some(obj_reading)
            } else {
                None
            };
            edit_outcome(entries(old(list)@), entries(final(list)@), subj@, pred@, obj@, pv, ov, r->0)
        },
{
    let pn = is_number(pred);
    if pn && pred_reading.is_none() {
        return None;
    }
    let pv = if pn {
        pred_reading
    } else {
        None
    };
    let on = is_number(obj);
    let ov = if on {
        Some(obj_reading)
    } else {
        None
    };
    let res = edit_with(list, subj, pred, obj, pv, ov);
    Some(res)
}

} // verus!
