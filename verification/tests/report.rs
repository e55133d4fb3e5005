use finances::report::{
    items_of, owners_are_named, owners_of, people, sections, summarize, values_of, ItemKind,
};
use finances::term::{Term, Triple};

fn text(s: &str) -> Term {
    Term::Text(s.to_string())
}

fn num(s: &str) -> Term {
    Term::Number(s.to_string())
}

fn entry(s: Term, p: Term, o: Term) -> Triple {
    Triple { subject: s, predicate: p, object: o, origin: None }
}

fn ledger() -> Vec<Triple> {
    vec![
        entry(text("alice"), text("is"), text("person")),
        entry(text("bob"), text("is"), text("person")),
        entry(text("house"), text("is"), text("assett")),
        entry(text("house"), text("med"), num("100.0")),
        entry(text("house"), text("med"), num("120.0")),
        entry(text("house"), text("number"), num("2.0")),
        entry(text("alice"), num("0.5"), text("house")),
        entry(text("bob"), num("0.5"), text("house")),
        entry(text("job"), text("is"), text("income")),
        entry(text("job"), text("med"), num("10.0")),
        entry(text("job"), text("frequency"), text("monthly")),
        entry(text("job"), text("frequency"), text("weekly")),
    ]
}

#[test]
fn sections_all() {
    let s = sections("all");
    assert!(s.people);
    assert_eq!(s.kinds, vec![
        ItemKind::Assett,
        ItemKind::Debt,
        ItemKind::Income,
        ItemKind::Expense,
        ItemKind::Environment
    ]);
}

#[test]
fn sections_one_class() {
    let s = sections("people");
    assert!(s.people);
    assert!(s.kinds.is_empty());
    for (class, kind) in [
        ("assetts", ItemKind::Assett),
        ("debts", ItemKind::Debt),
        ("income", ItemKind::Income),
        ("expenses", ItemKind::Expense),
        ("environment", ItemKind::Environment),
    ] {
        let s = sections(class);
        assert!(!s.people);
        assert_eq!(s.kinds, vec![kind]);
    }
    let s = sections("assett");
    assert!(!s.people && s.kinds.is_empty());
}

#[test]
fn kind_names() {
    assert_eq!(ItemKind::Assett.heading(), "Assetts");
    assert_eq!(ItemKind::Assett.tag(), "assett");
    assert_eq!(ItemKind::Expense.heading(), "Expenses");
    assert_eq!(ItemKind::Environment.tag(), "environment");
}

#[test]
fn people_in_order() {
    assert_eq!(people(&ledger()), vec![text("alice"), text("bob")]);
}

#[test]
fn items_of_kind() {
    let l = ledger();
    assert_eq!(items_of(&l, ItemKind::Assett), vec![l[2].clone()]);
    assert_eq!(items_of(&l, ItemKind::Income), vec![l[8].clone()]);
    assert!(items_of(&l, ItemKind::Debt).is_empty());
}

#[test]
fn owners_with_shares() {
    let l = ledger();
    assert!(owners_are_named(&l, &text("house")));
    assert_eq!(owners_of(&l, &text("house")), vec![
        ("alice".to_string(), num("0.5")),
        ("bob".to_string(), num("0.5"))
    ]);
    assert!(owners_of(&l, &text("job")).is_empty());
}

#[test]
fn owners_must_be_named() {
    let mut l = ledger();
    l.push(entry(num("3"), num("0.1"), text("house")));
    assert!(!owners_are_named(&l, &text("house")));
}

#[test]
fn values_by_attribute() {
    let l = ledger();
    assert_eq!(values_of(&l, &text("house"), "med"), vec![num("100.0"), num("120.0")]);
    assert!(values_of(&l, &text("house"), "max").is_empty());
}

#[test]
fn summary_of_items() {
    let l = ledger();
    let s = summarize(&l, &l[2]);
    assert_eq!(s.name, text("house"));
    assert_eq!(s.med, num("100.0"));
    assert_eq!(s.number, Some(num("2.0")));
    assert_eq!(s.frequency, None);
    assert_eq!(s.owners.len(), 2);
    let s = summarize(&l, &l[8]);
    assert_eq!(s.med, num("10.0"));
    assert_eq!(s.number, None);
    // two frequencies: none is shown
    assert_eq!(s.frequency, None);
}

#[test]
fn zeros_are_the_same_item() {
    let l = vec![
        entry(num("-0.0"), text("is"), text("assett")),
        entry(num("0.0"), text("med"), num("5.0")),
        entry(text("alice"), num("1.0"), num("0.0")),
        entry(num("0"), text("med"), num("7.0")),
    ];
    assert_eq!(values_of(&l, &num("-0.0"), "med"), vec![num("5.0")]);
    assert_eq!(owners_of(&l, &num("-0.0")), vec![("alice".to_string(), num("1.0"))]);
    let s = summarize(&l, &l[0]);
    assert_eq!(s.med, num("5.0"));
    assert_eq!(values_of(&l, &num("0"), "med"), vec![num("7.0")]);
}
