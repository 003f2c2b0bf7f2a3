use did_parser::Did;

#[test]
fn test_parse_base_did() {
    // Bueno
    assert!(Did::parse("did:example:21tDAKCERh95uGgKbJNHYp").is_ok());
    assert!(Did::parse("did:exa123ple:21tDAKCERh95uGgKbJNHYp").is_ok());
    assert!(Did::parse("did:555:21tDAKCERh95uGgKbJNHYp").is_ok());
    assert!(Did::parse("did:example:21tDAKC.ERh95uGgKbJNHYp").is_ok());
    assert!(Did::parse("did:example:21tDAKC-ERh95uGgKbJNHYp").is_ok());

    // needs 'did'
    assert!(Did::parse("di:example:21tDAKCERh95uGgKbJNHYp").is_err());
    assert!(Did::parse(":example:21tDAKCERh95uGgKbJNHYp").is_err());

    // method must be lowercase or digit only
    assert!(Did::parse("did:eXample:21tDAKCERh95uGgKbJNHYp").is_err());
    assert!(Did::parse("did:exam?ple:21tDAKCERh95uGgKbJNHYp").is_err());
    assert!(Did::parse("did:exam:ple:21tDAKCERh95uGgKbJNHYp").is_err());

    // ID can't contain odd characters
    assert!(Did::parse("did:example:21tDAKC&ERh95uGgKbJNHYp").is_err());
    assert!(Did::parse("did:example:21tDAKC*ERh95uGgKbJNHYp").is_err());

    // ... but a URI prefix inside an ID slides through: the ID stops at the
    // '/' and the rest parses as a path.
    assert!(Did::parse("did:example:21tDAKC/ERh95uGgKbJNHYp").is_ok());
}

#[test]
fn test_query() {
    let did = Did::parse("did:example:21tDAKCERh95uGgKbJNHYp?name=bob").unwrap();
    assert_eq!(Some("bob".to_string()), did.query_param("name"));

    let did1 = Did::parse("did:example:21tDAKCERh95uGgKbJNHYp?name=bob&lang=rust").unwrap();
    assert_eq!(Some("bob".to_string()), did1.query_param("name"));
    assert_eq!(Some("rust".to_string()), did1.query_param("lang"));
}

#[test]
fn test_path_frag() {
    let did = Did::parse("did:example:21tDAKCERh95uGgKbJNHYp/a/b/c").unwrap();
    assert_eq!(did.path.unwrap(), vec!["a", "b", "c"]);

    let did1 = Did::parse("did:example:21tDAKCERh95uGgKbJNHYp/a/b/c#key1").unwrap();
    assert_eq!(did1.path.unwrap(), vec!["a", "b", "c"]);
    assert_eq!(did1.frag.unwrap(), "key1");

    let did2 = Did::parse("did:example:21tDAKCERh95uGgKbJNHY#key1:key2").unwrap();
    assert_eq!(did2.frag.unwrap(), "key1:key2");
}

#[test]
fn test_method_service() {
    let did = Did::parse("did:example:21tDAKCERh95uGgKbJNHYp;name=bob").unwrap();
    assert_eq!(Some("bob".to_string()), did.method_param("name"));

    let did1 = Did::parse("did:example:21tDAKCERh95uGgKbJNHYp;name=bob;lang=rust").unwrap();
    assert_eq!(Some("bob".to_string()), did1.method_param("name"));
    assert_eq!(Some("rust".to_string()), did1.method_param("lang"));
}

#[test]
fn test_the_whole_enchilada() {
    let did = Did::parse(
        "did:example:21tDAKCERh95uGgKbJNHYp;name=dave/a/b/c?query=hello&say=what#key1",
    )
    .unwrap();
    // method params
    assert_eq!(Some("dave".to_string()), did.method_param("name"));

    // Path
    assert_eq!(did.path.clone().unwrap(), vec!["a", "b", "c"]);

    // query
    assert_eq!(Some("hello".to_string()), did.query_param("query"));
    assert_eq!(Some("what".to_string()), did.query_param("say"));

    // Frag
    assert_eq!(did.frag.unwrap(), "key1");
}

#[test]
fn test_container() {
    let did = Did::parse(
        "did:example:21tDAKCERh95uGgKbJNHYp;name=dave/a/b/c?query=hello&say=what#key1",
    )
    .unwrap();
    assert_eq!("21tDAKCERh95uGgKbJNHYp", did.id.clone());
    assert_eq!("example", did.method.clone());

    // method params
    assert_eq!(Some("dave".to_string()), did.method_param("name"));

    // Path
    assert_eq!(did.path.clone().unwrap(), vec!["a", "b", "c"]);

    // query
    assert_eq!(Some("hello".to_string()), did.query_param("query"));
    assert_eq!(Some("what".to_string()), did.query_param("say"));

    // Frag
    assert_eq!(did.frag.unwrap(), "key1");
}

#[test]
fn test_validate_base_did() {
    assert_eq!(
        false,
        Did::is_valid_base_did("did:EXAMPLE:21tDAKCERh95uGgKbJNHYp")
    );
    assert_eq!(
        false,
        Did::is_valid_base_did("did:exa*mple:21tDAKCERh95uGgKbJNHYp")
    );
    assert_eq!(
        false,
        Did::is_valid_base_did("example:21tDAKCERh95uGgKbJNHYp")
    );
    assert_eq!(
        false,
        Did::is_valid_base_did("did:example:21tDAK/CERh95uGgKbJNHYp")
    );
    assert_eq!(false, Did::is_valid_base_did("did:example:"));
    assert_eq!(
        false,
        Did::is_valid_base_did("did::21tDAKACERh95uGgKbJNHYp")
    );

    assert!(Did::is_valid_base_did("did:example:21tDAKCERh95uGgKbJNHYp"));
}
