use finances::owners::ownsplit;

#[test]
fn ownsplit_name_and_share() {
    assert_eq!(ownsplit("alice:0.5".to_string()), ("alice".to_string(), "0.5".to_string()));
}

#[test]
fn ownsplit_stops_at_second_colon() {
    assert_eq!(ownsplit("a:1:2".to_string()), ("a".to_string(), "1".to_string()));
}

#[test]
fn ownsplit_empty_pieces() {
    assert_eq!(ownsplit(":".to_string()), (String::new(), String::new()));
    assert_eq!(ownsplit("bob:".to_string()), ("bob".to_string(), String::new()));
}

#[test]
fn ownsplit_roundtrip_example() {
    let (n, s) = ("zoë", "0.25");
    assert_eq!(ownsplit(format!("{}:{}", n, s)), (n.to_string(), s.to_string()));
}
