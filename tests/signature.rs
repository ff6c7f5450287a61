use plume_instance::signature::{find_header, signed_header_names, signing_string};

fn headers() -> Vec<(String, String)> {
    vec![
        ("host".to_string(), "example.org".to_string()),
        ("date".to_string(), "Tue, 07 Jun 2014 20:51:35 GMT".to_string()),
        ("digest".to_string(), "SHA-256=abc".to_string()),
    ]
}

fn names(n: &[&str]) -> Vec<String> {
    n.iter().map(|s| s.to_string()).collect()
}

#[test]
fn signing_string_joins_signed_headers_in_order() {
    let s = signing_string(&names(&["(request-target)", "host", "date", "digest"]), "post /inbox", &headers());
    assert_eq!(
        s,
        Some(
            "(request-target): post /inbox\nhost: example.org\ndate: Tue, 07 Jun 2014 20:51:35 GMT\ndigest: SHA-256=abc"
                .to_string()
        )
    );
    let s = signing_string(&names(&["date", "host"]), "post /inbox", &headers());
    assert_eq!(s, Some("date: Tue, 07 Jun 2014 20:51:35 GMT\nhost: example.org".to_string()));
}

#[test]
fn signing_string_needs_every_signed_header() {
    assert_eq!(signing_string(&names(&["host", "content-type"]), "post /inbox", &headers()), None);
    assert_eq!(signing_string(&names(&[]), "post /inbox", &headers()), Some(String::new()));
}

#[test]
fn first_header_of_a_name_wins() {
    let mut h = headers();
    h.push(("host".to_string(), "other.example".to_string()));
    assert_eq!(find_header(&h, "host"), Some(&"example.org".to_string()));
    assert_eq!(find_header(&h, "accept"), None);
}

#[test]
fn signed_header_names_split_at_spaces() {
    assert_eq!(
        signed_header_names("(request-target) host date"),
        names(&["(request-target)", "host", "date"])
    );
    assert_eq!(signed_header_names("  host   date "), names(&["host", "date"]));
    assert_eq!(signed_header_names(""), names(&[]));
    assert_eq!(signed_header_names("   "), names(&[]));
}
