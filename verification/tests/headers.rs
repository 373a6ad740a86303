use mensajero::headers::Headers;

fn s(text: &str) -> String {
    text.to_string()
}

#[test]
fn new_headers_are_empty() {
    let headers = Headers::new();
    assert_eq!(headers.len(), 0);
    assert_eq!(headers.get(&s("Accept")), None);
    assert_eq!(headers.find(&s("Accept")), None);
}

#[test]
fn insert_adds_new_names_at_the_end() {
    let mut headers = Headers::new();
    headers.insert(s("Accept"), s("text/plain"));
    headers.insert(s("Host"), s("localhost"));
    assert_eq!(headers.len(), 2);
    assert_eq!(headers.entry(0), (&s("Accept"), &s("text/plain")));
    assert_eq!(headers.entry(1), (&s("Host"), &s("localhost")));
    assert_eq!(headers.find(&s("Host")), Some(1));
}

#[test]
fn last_write_wins_and_keeps_the_place() {
    let mut headers = Headers::new();
    headers.insert(s("Accept"), s("text/plain"));
    headers.insert(s("Host"), s("localhost"));
    headers.insert(s("Accept"), s("application/json"));
    assert_eq!(headers.len(), 2);
    assert_eq!(headers.get(&s("Accept")), Some(&s("application/json")));
    assert_eq!(headers.get(&s("Host")), Some(&s("localhost")));
    assert_eq!(headers.entry(0), (&s("Accept"), &s("application/json")));
}

#[test]
fn names_are_matched_letter_for_letter() {
    let mut headers = Headers::new();
    headers.insert(s("Accept"), s("a"));
    headers.insert(s("accept"), s("b"));
    assert_eq!(headers.len(), 2);
    assert_eq!(headers.get(&s("Accept")), Some(&s("a")));
    assert_eq!(headers.get(&s("accept")), Some(&s("b")));
    assert_eq!(headers.get(&s("ACCEPT")), None);
}

#[test]
fn copy_has_the_same_entries() {
    let mut headers = Headers::new();
    headers.insert(s("A"), s("1"));
    headers.insert(s("B"), s("2"));
    let mut twin = headers.copy();
    assert_eq!(twin.len(), 2);
    assert_eq!(twin.entry(0), (&s("A"), &s("1")));
    assert_eq!(twin.entry(1), (&s("B"), &s("2")));
    twin.insert(s("A"), s("9"));
    assert_eq!(headers.get(&s("A")), Some(&s("1")));
}
