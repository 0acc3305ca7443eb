use tcc::{generate_json_paths, have_same_structure, insert_holder_did, JsonValue, SubjectError};

fn s(x: &str) -> String {
    x.to_string()
}

fn subject() -> JsonValue {
    JsonValue::Object(vec![
        (s("name"), JsonValue::Str(s("Alice"))),
        (
            s("degree"),
            JsonValue::Object(vec![
                (s("type"), JsonValue::Str(s("BachelorDegree"))),
                (s("year"), JsonValue::Number(s("2020"))),
            ]),
        ),
        (s("tags"), JsonValue::Array(vec![JsonValue::Bool(true), JsonValue::Null])),
        (s("empty"), JsonValue::Array(vec![])),
    ])
}

#[test]
fn leaf_paths_in_document_order() {
    let paths = generate_json_paths(&subject(), "/vc/credentialSubject");
    assert_eq!(
        paths,
        vec![
            "/vc/credentialSubject/name",
            "/vc/credentialSubject/degree/type",
            "/vc/credentialSubject/degree/year",
            "/vc/credentialSubject/tags/0",
            "/vc/credentialSubject/tags/1",
        ]
    );
    assert_eq!(generate_json_paths(&JsonValue::Null, ""), vec![""]);
    assert_eq!(generate_json_paths(&JsonValue::Object(vec![]), "/x"), Vec::<String>::new());
}

#[test]
fn array_indices_past_nine() {
    let items: Vec<JsonValue> = (0..12).map(|_| JsonValue::Null).collect();
    let paths = generate_json_paths(&JsonValue::Array(items), "");
    assert_eq!(paths[10], "/10");
    assert_eq!(paths[11], "/11");
}

#[test]
fn structure_comparison() {
    let other = JsonValue::Object(vec![
        (s("tags"), JsonValue::Array(vec![JsonValue::Str(s("a")), JsonValue::Str(s("b"))])),
        (s("name"), JsonValue::Number(s("1"))),
        (
            s("degree"),
            JsonValue::Object(vec![
                (s("year"), JsonValue::Null),
                (s("type"), JsonValue::Null),
            ]),
        ),
    ]);
    assert!(have_same_structure(&subject(), &other));
    let fewer = JsonValue::Object(vec![(s("name"), JsonValue::Null)]);
    assert!(!have_same_structure(&subject(), &fewer));
    assert!(!have_same_structure(&fewer, &subject()));
}

#[test]
fn holder_id_inserted() {
    let r = insert_holder_did(subject(), "did:iota:holder").unwrap();
    match r {
        JsonValue::Object(m) => {
            assert_eq!(m.len(), 5);
            assert_eq!(m[4].0, "id");
            assert!(matches!(&m[4].1, JsonValue::Str(v) if v == "did:iota:holder"));
        }
        _ => panic!("not an object"),
    }
}

#[test]
fn holder_id_errors() {
    let with_id = JsonValue::Object(vec![(s("id"), JsonValue::Null)]);
    assert!(matches!(insert_holder_did(with_id, "d"), Err(SubjectError::IdPresent)));
    assert!(matches!(insert_holder_did(JsonValue::Array(vec![]), "d"), Err(SubjectError::NotAnObject)));
}
