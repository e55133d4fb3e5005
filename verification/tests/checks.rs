use finances::checks::{declarations_are_named, namecheck, predcheck, NameError, PredError};
use finances::term::{Term, Triple};

fn text(s: &str) -> Term {
    Term::Text(s.to_string())
}

fn entry(s: &str, p: &str, o: &str) -> Triple {
    Triple { subject: text(s), predicate: text(p), object: text(o), origin: None }
}

fn ledger() -> Vec<Triple> {
    vec![
        entry("alice", "is", "person"),
        entry("house", "is", "assett"),
        entry("house", "med", "x"),
        entry("car", "owner", "bob"),
    ]
}

#[test]
fn predcheck_accepts_known_fields() {
    for p in ["min", "max", "med", "frequency", "appreciation", "volatility", "ticker", "type",
        "number", "startdate", "enddate"] {
        assert_eq!(predcheck(p, "anything"), Ok(()));
    }
}

#[test]
fn predcheck_is_needs_a_kind() {
    for o in ["person", "assett", "debt", "income", "expense", "environment"] {
        assert_eq!(predcheck("is", o), Ok(()));
    }
    assert_eq!(predcheck("is", "car"), Err(PredError::NotAnItem("car".to_string())));
}

#[test]
fn predcheck_refuses_unknown_field() {
    let e = predcheck("colour", "red").unwrap_err();
    assert_eq!(e, PredError::UnknownPredicate("colour".to_string()));
    assert_eq!(e.message(), "colour does not exist");
}

#[test]
fn pred_error_message_lists_items() {
    let e = predcheck("is", "car").unwrap_err();
    assert_eq!(
        e.message(),
        "car not in [\"person\", \"assett\", \"debt\", \"income\", \"expense\", \"environment\"]"
    );
}

#[test]
fn namecheck_new_name() {
    let l = ledger();
    assert_eq!(namecheck(&l, "carol", true), Ok(()));
    let e = namecheck(&l, "alice", true).unwrap_err();
    assert_eq!(e, NameError::AlreadyExists("alice".to_string()));
    assert_eq!(e.message(), "alice already exists");
}

#[test]
fn namecheck_existing_name() {
    let l = ledger();
    assert_eq!(namecheck(&l, "house", false), Ok(()));
    let e = namecheck(&l, "car", false).unwrap_err();
    assert_eq!(e, NameError::DoesNotExist("car".to_string()));
    assert_eq!(e.message(), "car does not exist");
}

#[test]
fn namecheck_only_counts_declarations() {
    // "bob" is only an object and "x" only a value: neither is declared.
    let l = ledger();
    assert!(namecheck(&l, "bob", false).is_err());
    assert!(namecheck(&l, "x", false).is_err());
    assert!(namecheck(&l, "person", false).is_err());
}

#[test]
fn declarations_must_be_strings() {
    let mut l = ledger();
    assert!(declarations_are_named(&l));
    l.push(Triple {
        subject: Term::Number("3".to_string()),
        predicate: text("is"),
        object: text("person"),
        origin: Some(7),
    });
    assert!(!declarations_are_named(&l));
}
