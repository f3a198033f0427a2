use waylandkb::json::json_object_ranges;

#[test]
fn object_extents_are_byte_offsets_of_their_braces() {
    let json = r#"{"ключ":{"ü":"}"}}"#;
    let inner_open = json.find(":{").unwrap() + 1;
    let inner_close = json.len() - 2;
    assert_eq!(
        json_object_ranges(json),
        vec![(inner_open, inner_close), (0, json.len() - 1)]
    );
    assert_eq!(&json[inner_open..=inner_close], r#"{"ü":"}"}"#);
}

#[test]
fn unmatched_braces_give_no_object() {
    assert!(json_object_ranges(r#"} "{" {"#).is_empty());
}
