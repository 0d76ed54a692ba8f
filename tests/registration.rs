use doc_search::registration::{
    config_from_members, decode_register_response, register_body, register_url,
    registration_outcome, unregister_body, unregister_url, RegistrationError, RegistrationSchema,
};

#[test]
fn urls() {
    assert_eq!(register_url("http://b:80"), "http://b:80/modules/output/register");
    assert_eq!(unregister_url("http://b:80"), "http://b:80/modules/output/unregister");
}

#[test]
fn bodies() {
    assert_eq!(register_body("output", &RegistrationSchema::NameOnly), "{\"name\":\"output\"}");
    assert_eq!(
        register_body(
            "o\"x",
            &RegistrationSchema::NameAndAddress { address: "http://me:1".to_string() }
        ),
        "{\"name\":\"o\\\"x\",\"address\":\"http://me:1\"}"
    );
    assert_eq!(unregister_body(), "{}");
}

#[test]
fn service_unavailable_fails() {
    let body = br#"{"mongoAddress":"a","mongoDatabase":"d","mongoCollection":"c","qdrantAddress":"q"}"#;
    match registration_outcome(503, body, &RegistrationSchema::NameOnly) {
        Err(RegistrationError::Status { status }) => assert_eq!(status, 503),
        _ => panic!("expected a status error"),
    }
}

#[test]
fn camel_case_answer() {
    let body = br#"{"mongoAddress":"mongodb://m:27017","mongoDatabase":"d","mongoCollection":"c","qdrantAddress":"q","extra":1}"#;
    let r = registration_outcome(200, body, &RegistrationSchema::NameOnly);
    match r {
        Ok(cfg) => {
            assert_eq!(cfg.mongo_address, "mongodb://m:27017");
            assert_eq!(cfg.mongo_database, "d");
            assert_eq!(cfg.mongo_collection, "c");
            assert_eq!(cfg.qdrant_address, "q");
        }
        Err(_) => panic!("expected a configuration"),
    }
}

#[test]
fn snake_case_answer() {
    let body = br#"{"mongo_address":"a","mongo_database":"d","mongo_collection":"c","qdrant_address":"q"}"#;
    let schema = RegistrationSchema::NameAndAddress { address: "x".to_string() };
    match decode_register_response(body, &schema) {
        Ok(cfg) => assert_eq!(cfg.mongo_address, "a"),
        Err(_) => panic!("expected a configuration"),
    }
    assert!(matches!(
        decode_register_response(body, &RegistrationSchema::NameOnly),
        Err(RegistrationError::MalformedBody)
    ));
}

#[test]
fn malformed_answers() {
    let s = RegistrationSchema::NameOnly;
    assert!(matches!(registration_outcome(200, b"not json", &s), Err(RegistrationError::MalformedBody)));
    assert!(matches!(registration_outcome(200, b"[1,2]", &s), Err(RegistrationError::MalformedBody)));
    let missing = br#"{"mongoAddress":"a","mongoDatabase":"d","mongoCollection":"c"}"#;
    assert!(matches!(registration_outcome(200, missing, &s), Err(RegistrationError::MalformedBody)));
    let number = br#"{"mongoAddress":1,"mongoDatabase":"d","mongoCollection":"c","qdrantAddress":"q"}"#;
    assert!(matches!(registration_outcome(200, number, &s), Err(RegistrationError::MalformedBody)));
}

#[test]
fn members_assemble() {
    let ok = config_from_members(Some("a".into()), Some("d".into()), Some("c".into()), Some("q".into()));
    assert!(matches!(ok, Ok(ref c) if c.qdrant_address == "q"));
    let bad = config_from_members(Some("a".into()), None, Some("c".into()), Some("q".into()));
    assert!(matches!(bad, Err(RegistrationError::MalformedBody)));
}
