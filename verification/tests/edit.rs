use finances::checks::{NameError, PredError};
use finances::edit::{edit, edit_with, EditError};
use finances::term::{Term, Triple};

fn text(s: &str) -> Term {
    Term::Text(s.to_string())
}

fn num(s: &str) -> Term {
    Term::Number(s.to_string())
}

fn entry(s: Term, p: Term, o: Term) -> Triple {
    Triple { subject: s, predicate: p, object: o, origin: None }
}

fn ledger() -> Vec<Triple> {
    vec![
        entry(text("alice"), text("is"), text("person")),
        entry(text("house"), text("is"), text("assett")),
        entry(text("house"), text("med"), num("100.0")),
        entry(text("alice"), num("0.5"), text("house")),
        entry(text("house"), text("min"), num("50.0")),
    ]
}

#[test]
fn edit_attribute_with_number() {
    let mut l = ledger();
    let r = edit(&mut l, "house", "med", "250", None, num("250.0"));
    assert_eq!(r, Some(Ok(())));
    let mut want = ledger();
    want.remove(2);
    want.push(entry(text("house"), text("med"), num("250.0")));
    assert_eq!(l, want);
}

#[test]
fn edit_attribute_with_text() {
    let mut l = ledger();
    let r = edit(&mut l, "house", "ticker", "HSE", None, num("999.0"));
    assert_eq!(r, Some(Ok(())));
    assert_eq!(l.last().unwrap(), &entry(text("house"), text("ticker"), text("HSE")));
    assert_eq!(l.len(), 6);
}

#[test]
fn edit_number_suffix_falls_back() {
    // "3.5f32" reads as a number to numberkit, so the given fallback is stored.
    let mut l = ledger();
    let r = edit(&mut l, "house", "max", "3.5f32", None, num("999.0"));
    assert_eq!(r, Some(Ok(())));
    assert_eq!(l.last().unwrap(), &entry(text("house"), text("max"), num("999.0")));
}

#[test]
fn edit_ownership() {
    let mut l = ledger();
    let r = edit(&mut l, "alice", "0.75", "house", Some(num("0.75")), num("999.0"));
    assert_eq!(r, Some(Ok(())));
    let mut want = ledger();
    want.remove(3);
    want.push(entry(text("alice"), num("0.75"), text("house")));
    assert_eq!(l, want);
}

#[test]
fn edit_ownership_without_reading() {
    let mut l = ledger();
    assert_eq!(edit(&mut l, "alice", "2usize", "house", None, num("999.0")), None);
    assert_eq!(l, ledger());
}

#[test]
fn edit_ownership_needs_both_names() {
    let mut l = ledger();
    let r = edit(&mut l, "bob", "0.5", "house", Some(num("0.5")), num("0.5"));
    assert_eq!(r, Some(Err(EditError::Name(NameError::DoesNotExist("bob".to_string())))));
    let r = edit(&mut l, "alice", "0.5", "car", Some(num("0.5")), num("0.5"));
    assert_eq!(r, Some(Err(EditError::Name(NameError::DoesNotExist("car".to_string())))));
    assert_eq!(l, ledger());
}

#[test]
fn edit_attribute_errors() {
    let mut l = ledger();
    let r = edit_with(&mut l, "carol", "med", "1", None, None);
    assert_eq!(r, Err(EditError::Name(NameError::DoesNotExist("carol".to_string()))));
    let r = edit_with(&mut l, "house", "colour", "red", None, None);
    let e = r.unwrap_err();
    assert_eq!(e, EditError::Pred(PredError::UnknownPredicate("colour".to_string())));
    assert_eq!(e.message(), "colour does not exist");
    let r = edit_with(&mut l, "house", "is", "boat", None, None);
    assert_eq!(r, Err(EditError::Pred(PredError::NotAnItem("boat".to_string()))));
    assert_eq!(l, ledger());
}

#[test]
fn edit_is_keeps_name_declared() {
    let mut l = ledger();
    let r = edit_with(&mut l, "house", "is", "debt", None, None);
    assert_eq!(r, Ok(()));
    assert_eq!(l.last().unwrap(), &entry(text("house"), text("is"), text("debt")));
    assert_eq!(l.iter().filter(|t| t.subject == text("house") && t.predicate == text("is")).count(), 1);
}
