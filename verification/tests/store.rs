use finances::checks::NameError;
use finances::store::{
    add_assett, assett_is_new, delete_name, listing_triples, register, Holding, Listing, Owner,
};
use finances::term::{Term, Triple};

fn text(s: &str) -> Term {
    Term::Text(s.to_string())
}

fn num(s: &str) -> Term {
    Term::Number(s.to_string())
}

fn entry(s: Term, p: Term, o: Term) -> Triple {
    Triple { subject: s, predicate: p, object: o, origin: None }
}

fn holding() -> Holding {
    Holding {
        startdate: "2020-01-01".to_string(),
        min: num("1.0"),
        med: num("2.0"),
        max: num("3.0"),
        appreciation: num("0.05"),
        owners: vec![
            Owner { name: "alice".to_string(), share: num("0.25") },
            Owner { name: "bob".to_string(), share: num("0.75") },
        ],
    }
}

fn tail(name: &str) -> Vec<Triple> {
    vec![
        entry(text("alice"), num("0.25"), text(name)),
        entry(text("bob"), num("0.75"), text(name)),
    ]
}

#[test]
fn listing_person() {
    assert_eq!(listing_triples("alice", &Listing::Person), vec![entry(
        text("alice"),
        text("is"),
        text("person")
    )]);
}

#[test]
fn listing_assett_order() {
    let got = listing_triples("house", &Listing::Assett { number: num("2.0"), holding: holding() });
    let mut want = vec![
        entry(text("house"), text("is"), text("assett")),
        entry(text("house"), text("number"), num("2.0")),
        entry(text("house"), text("startdate"), text("2020-01-01")),
        entry(text("house"), text("min"), num("1.0")),
        entry(text("house"), text("med"), num("2.0")),
        entry(text("house"), text("max"), num("3.0")),
        entry(text("house"), text("appreciation"), num("0.05")),
    ];
    want.extend(tail("house"));
    assert_eq!(got, want);
}

#[test]
fn listing_debt_order() {
    let got = listing_triples("loan", &Listing::Debt { holding: holding() });
    let mut want = vec![
        entry(text("loan"), text("is"), text("debt")),
        entry(text("loan"), text("startdate"), text("2020-01-01")),
        entry(text("loan"), text("min"), num("1.0")),
        entry(text("loan"), text("med"), num("2.0")),
        entry(text("loan"), text("max"), num("3.0")),
        entry(text("loan"), text("appreciation"), num("0.05")),
    ];
    want.extend(tail("loan"));
    assert_eq!(got, want);
}

#[test]
fn listing_income_and_expense_order() {
    for (kind, l) in [
        ("income", Listing::Income { holding: holding(), frequency: "monthly".to_string() }),
        ("expense", Listing::Expense { holding: holding(), frequency: "monthly".to_string() }),
    ] {
        let got = listing_triples("job", &l);
        let mut want = vec![
            entry(text("job"), text("is"), text(kind)),
            entry(text("job"), text("startdate"), text("2020-01-01")),
            entry(text("job"), text("min"), num("1.0")),
            entry(text("job"), text("med"), num("2.0")),
            entry(text("job"), text("max"), num("3.0")),
            entry(text("job"), text("frequency"), text("monthly")),
            entry(text("job"), text("appreciation"), num("0.05")),
        ];
        want.extend(tail("job"));
        assert_eq!(got, want);
    }
}

#[test]
fn register_appends_and_then_refuses() {
    let mut l = vec![entry(text("alice"), text("is"), text("person"))];
    assert_eq!(register(&mut l, "bob", &Listing::Person), Ok(()));
    assert_eq!(l.len(), 2);
    assert_eq!(l[1], entry(text("bob"), text("is"), text("person")));
    let before = l.clone();
    assert_eq!(
        register(&mut l, "bob", &Listing::Debt { holding: holding() }),
        Err(NameError::AlreadyExists("bob".to_string()))
    );
    assert_eq!(l, before);
}

#[test]
fn add_assett_appends() {
    let list = vec![entry(text("alice"), text("is"), text("person"))];
    let mut l = list.clone();
    assert_eq!(assett_is_new(&list, "house"), (true, true));
    add_assett(&list, &mut l, "house", num("1.0"), holding());
    assert_eq!(l.len(), 1 + 7 + 2);
    assert_eq!(l[1], entry(text("house"), text("is"), text("assett")));
    assert_eq!(assett_is_new(&l, "house"), (true, false));
}

#[test]
fn add_assett_checks_only_the_read_ledger() {
    // The appended ledger already lists the asset; the read one does not.
    let list = vec![entry(text("alice"), text("is"), text("person"))];
    let mut l = list.clone();
    l.push(entry(text("house"), text("is"), text("assett")));
    assert_eq!(assett_is_new(&list, "house"), (true, true));
    add_assett(&list, &mut l, "house", num("1.0"), holding());
    assert_eq!(l.len(), 2 + 7 + 2);
    assert_eq!(l[1], entry(text("house"), text("is"), text("assett")));
    assert_eq!(l[2], entry(text("house"), text("is"), text("assett")));
}

#[test]
fn assett_check_needs_string_subjects() {
    let l = vec![entry(num("1"), text("is"), text("assett"))];
    assert_eq!(assett_is_new(&l, "house").0, false);
}

#[test]
fn delete_removes_subject_and_object_mentions() {
    let l = vec![
        entry(text("alice"), text("is"), text("person")),
        entry(text("house"), text("is"), text("assett")),
        entry(text("alice"), num("0.5"), text("house")),
        entry(text("house"), text("alice"), text("x")),
        entry(text("bob"), text("is"), text("person")),
    ];
    let r = delete_name(&l, "alice");
    assert_eq!(r, vec![l[1].clone(), l[3].clone(), l[4].clone()]);
    assert_eq!(delete_name(&r, "alice"), r);
}

#[test]
fn delete_undoes_add_example() {
    let base = vec![entry(text("alice"), text("is"), text("person"))];
    let mut l = base.clone();
    register(&mut l, "house", &Listing::Assett { number: num("1"), holding: holding() }).unwrap();
    assert_eq!(delete_name(&l, "house"), delete_name(&base, "house"));
}

#[test]
fn delete_keeps_non_string_terms() {
    let l = vec![entry(num("1"), text("is"), text("alice")), entry(text("alice"), text("p"), num("2"))];
    assert_eq!(delete_name(&l, "1"), l);
    assert!(delete_name(&l, "alice").is_empty());
}
