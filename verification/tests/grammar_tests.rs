use did_parser::{Did, ParseError};

#[test]
fn test_bare_did_components() {
    let did = Did::parse("did:example:21tDAKCERh95uGgKbJNHYp").unwrap();
    assert_eq!("example", did.method);
    assert_eq!("21tDAKCERh95uGgKbJNHYp", did.id);
    assert!(did.method_params.is_none());
    assert!(did.path.is_none());
    assert!(did.query.is_none());
    assert!(did.frag.is_none());

    let did1 = Did::parse("did:a1:x.y-z_9").unwrap();
    assert_eq!("a1", did1.method);
    assert_eq!("x.y-z_9", did1.id);
}

#[test]
fn test_missing_did_prefix() {
    assert_eq!(Did::parse("").unwrap_err(), ParseError::MalformedDid);
    assert_eq!(Did::parse("dd:example:abc").unwrap_err(), ParseError::MalformedDid);
    assert_eq!(Did::parse("urn:example:abc").unwrap_err(), ParseError::MalformedDid);
    assert_eq!(Did::parse("did").unwrap_err(), ParseError::MalformedDid);
}

#[test]
fn test_uppercase_method_fails() {
    assert_eq!(Did::parse("did:eXample:abc").unwrap_err(), ParseError::MalformedDid);
    assert_eq!(Did::parse("did:EXAMPLE:abc").unwrap_err(), ParseError::MalformedDid);
}

#[test]
fn test_base_did_agrees_with_parse() {
    // valid bare DID: parse succeeds with every optional component absent
    assert!(Did::is_valid_base_did("did:example:21tDAKCERh95uGgKbJNHYp"));
    let did = Did::parse("did:example:21tDAKCERh95uGgKbJNHYp").unwrap();
    assert!(did.method_params.is_none() && did.path.is_none());
    assert!(did.query.is_none() && did.frag.is_none());

    // a URL suffix parses but is no bare DID
    assert!(!Did::is_valid_base_did("did:example:21tDAKCERh95uGgKbJNHYp/a"));
    assert!(Did::parse("did:example:21tDAKCERh95uGgKbJNHYp/a").is_ok());

    // inputs that fail to parse are no bare DIDs either
    assert!(!Did::is_valid_base_did("did:eXample:abc"));
    assert!(Did::parse("did:eXample:abc").is_err());
}

#[test]
fn test_round_trip_components() {
    let did = Did::parse("did:example:ID;k1=v1;k2=v2/seg1/seg2?q1=a&q2=b#frag1").unwrap();
    assert_eq!("example", did.method);
    assert_eq!("ID", did.id);
    assert_eq!(Some("v1".to_string()), did.method_param("k1"));
    assert_eq!(Some("v2".to_string()), did.method_param("k2"));
    assert_eq!(
        did.method_params.clone().unwrap(),
        vec![
            ("k1".to_string(), "v1".to_string()),
            ("k2".to_string(), "v2".to_string())
        ]
    );
    assert_eq!(did.path.clone().unwrap(), vec!["seg1", "seg2"]);
    assert_eq!(Some("a".to_string()), did.query_param("q1"));
    assert_eq!(Some("b".to_string()), did.query_param("q2"));
    assert_eq!(
        did.query.clone().unwrap(),
        vec![
            ("q1".to_string(), "a".to_string()),
            ("q2".to_string(), "b".to_string())
        ]
    );
    assert_eq!(did.frag.unwrap(), "frag1");
}

#[test]
fn test_reparse_same() {
    let input = "did:example:abc;k=v/p?q=r#f";
    let d1 = Did::parse(input).unwrap();
    let d2 = Did::parse(input).unwrap();
    assert_eq!(d1.method, d2.method);
    assert_eq!(d1.id, d2.id);
    assert_eq!(d1.method_params, d2.method_params);
    assert_eq!(d1.path, d2.path);
    assert_eq!(d1.query, d2.query);
    assert_eq!(d1.frag, d2.frag);
}

#[test]
fn test_empty_identifier() {
    // nothing at all after the second ':' is rejected
    assert_eq!(Did::parse("did:example:").unwrap_err(), ParseError::MissingIdentifier);
    assert!(!Did::is_valid_base_did("did:example:"));

    // an identifier run of zero characters before a URL component is kept
    let did = Did::parse("did:example:/a").unwrap();
    assert_eq!("", did.id);
    assert_eq!(did.path.unwrap(), vec!["a"]);
}

#[test]
fn test_extra_colon_segment_fails() {
    assert_eq!(
        Did::parse("did:exam:ple:21tDAKCERh95uGgKbJNHYp").unwrap_err(),
        ParseError::TrailingInput
    );
}

#[test]
fn test_error_kinds() {
    assert_eq!(Did::parse("did:").unwrap_err(), ParseError::MissingMethodName);
    assert_eq!(Did::parse("did::abc").unwrap_err(), ParseError::MissingMethodName);

    assert_eq!(Did::parse("did:example:").unwrap_err(), ParseError::MissingIdentifier);

    assert_eq!(Did::parse("did:example:abc;name").unwrap_err(), ParseError::MalformedKeyValue);
    assert_eq!(Did::parse("did:example:abc;").unwrap_err(), ParseError::MalformedKeyValue);
    assert_eq!(Did::parse("did:example:abc?").unwrap_err(), ParseError::MalformedKeyValue);

    assert_eq!(Did::parse("did:example:abc^").unwrap_err(), ParseError::TrailingInput);
    assert_eq!(Did::parse("did:example:abc;a=b;c").unwrap_err(), ParseError::TrailingInput);

    assert_eq!(Did::parse("did:example").unwrap_err(), ParseError::MalformedDid);
    assert_eq!(Did::parse("di:example:abc").unwrap_err(), ParseError::MalformedDid);
}

#[test]
fn test_duplicate_keys_last_wins() {
    let did = Did::parse("did:example:abc;k=a;k=b").unwrap();
    assert_eq!(Some("b".to_string()), did.method_param("k"));

    let did1 = Did::parse("did:example:abc?k=a&k=b&j=c").unwrap();
    assert_eq!(Some("b".to_string()), did1.query_param("k"));
    assert_eq!(Some("c".to_string()), did1.query_param("j"));

    assert_eq!(None, did1.query_param("missing"));
    assert_eq!(None, did1.method_param("k"));
}

#[test]
fn test_empty_path_segments() {
    let did = Did::parse("did:example:abc/").unwrap();
    assert_eq!(did.path.unwrap(), vec![""]);

    let did1 = Did::parse("did:example:abc//a/").unwrap();
    assert_eq!(did1.path.unwrap(), vec!["", "a", ""]);
}

#[test]
fn test_empty_fragment() {
    let did = Did::parse("did:example:abc#").unwrap();
    assert_eq!(did.frag.unwrap(), "");
}

#[test]
fn test_empty_key_and_value() {
    let did = Did::parse("did:example:abc;=v").unwrap();
    assert_eq!(Some("v".to_string()), did.method_param(""));

    let did1 = Did::parse("did:example:abc?k=").unwrap();
    assert_eq!(Some("".to_string()), did1.query_param("k"));
}

#[test]
fn test_fragment_char_class() {
    let did = Did::parse("did:example:abc#a/b?c:d@e").unwrap();
    assert_eq!(did.frag.unwrap(), "a/b?c:d@e");

    assert_eq!(Did::parse("did:example:abc#a b").unwrap_err(), ParseError::TrailingInput);
}
