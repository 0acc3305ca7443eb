use tcc::{
    decode_base64, disclosure_key_of, extract_disclosure_keys, find_member_text, get_entities_from_jwt,
    EncodingError,
};

#[test]
fn decodes_unpadded_base64url() {
    assert_eq!(decode_base64("aGVsbG8").unwrap(), "hello");
    assert_eq!(decode_base64("aGk").unwrap(), "hi");
    assert_eq!(decode_base64("").unwrap(), "");
    assert_eq!(decode_base64("a*b"), Err(EncodingError::InvalidBase64));
    assert_eq!(decode_base64("_w"), Err(EncodingError::InvalidUtf8));
}

#[test]
fn disclosure_claim_names() {
    let d = vec![
        "WyJzYWx0MSIsImdpdmVuX25hbWUiLCJKb2huIl0".to_string(),
        "WyJzYWx0MiIsImFnZSIsNDJd".to_string(),
        "WyJzYWx0MyIsNywieCJd".to_string(),
    ];
    assert_eq!(extract_disclosure_keys(&d).unwrap(), vec!["given_name".to_string(), "age".to_string()]);
    assert_eq!(extract_disclosure_keys(&Vec::new()).unwrap(), Vec::<String>::new());
}

#[test]
fn disclosure_errors() {
    assert_eq!(extract_disclosure_keys(&vec!["!!".to_string()]), Err(EncodingError::InvalidBase64));
    assert_eq!(extract_disclosure_keys(&vec!["aGVsbG8".to_string()]), Err(EncodingError::InvalidJson));
}

#[test]
fn jwt_issuer_and_subject() {
    let jwt = "eyJhbGciOiJFZERTQSJ9.eyJpc3MiOiJkaWQ6aW90YTppc3N1ZXIiLCJzdWIiOiJkaWQ6aW90YTpob2xkZXIifQ.c2ln".to_string();
    let (iss, sub) = get_entities_from_jwt(&jwt).unwrap();
    assert_eq!(iss, "did:iota:issuer");
    assert_eq!(sub, "did:iota:holder");
}

#[test]
fn jwt_errors() {
    assert_eq!(get_entities_from_jwt(&"a.b".to_string()), Err(EncodingError::InvalidJwt));
    assert_eq!(get_entities_from_jwt(&"a.b.c.d".to_string()), Err(EncodingError::InvalidJwt));
    assert_eq!(
        get_entities_from_jwt(&"h.eyJpc3MiOiJkaWQ6aW90YTppc3N1ZXIifQ.s".to_string()),
        Err(EncodingError::MissingSubject)
    );
    assert_eq!(get_entities_from_jwt(&"h.eyJhbGciOiJFZERTQSJ9.s".to_string()), Err(EncodingError::MissingIssuer));
    assert_eq!(get_entities_from_jwt(&"h.aGVsbG8.s".to_string()), Err(EncodingError::InvalidJson));
    assert_eq!(get_entities_from_jwt(&"h.*.s".to_string()), Err(EncodingError::InvalidBase64));
}

#[test]
fn disclosure_key_is_second_string_item() {
    let items = vec![Some("salt".to_string()), Some("given_name".to_string()), None];
    assert_eq!(disclosure_key_of(&items), Some("given_name".to_string()));
    assert_eq!(disclosure_key_of(&vec![Some("salt".to_string()), None]), None);
    assert_eq!(disclosure_key_of(&vec![Some("only".to_string())]), None);
}

#[test]
fn member_text_lookup() {
    let members = vec![
        ("iss".to_string(), None),
        ("sub".to_string(), Some("did:b".to_string())),
        ("iss".to_string(), Some("did:a".to_string())),
    ];
    assert_eq!(find_member_text(&members, "iss"), Some("did:a".to_string()));
    assert_eq!(find_member_text(&members, "sub"), Some("did:b".to_string()));
    assert_eq!(find_member_text(&members, "aud"), None);
}
