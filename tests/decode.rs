use channel_surfer::decode::{
    decode_search_response, decode_size, decode_string_list, decode_string_or_int,
    extract_string_array, i64_to_decimal, search_documents, try_extract_identifiers,
    u64_to_decimal, DecodeError, FieldError,
};
use channel_surfer::json::{member, Json};

fn s(x: &str) -> Json {
    Json::Str(x.to_string())
}

fn obj(fields: Vec<(&str, Json)>) -> Json {
    Json::Object(fields.into_iter().map(|(k, v)| (k.to_string(), v)).collect())
}

fn search(docs: Vec<Json>) -> Json {
    obj(vec![(
        "response",
        obj(vec![("numFound", Json::UInt(docs.len() as u64)), ("start", Json::UInt(0)), ("docs", Json::Array(docs))]),
    )])
}

#[test]
fn creator_as_string_array_or_absent() {
    let one = obj(vec![("creator", s("Alice"))]);
    assert_eq!(decode_string_list(member(&one, "creator")), Ok(vec!["Alice".to_string()]));
    let two = obj(vec![("creator", Json::Array(vec![s("Alice"), s("Bob")]))]);
    assert_eq!(
        decode_string_list(member(&two, "creator")),
        Ok(vec!["Alice".to_string(), "Bob".to_string()])
    );
    let none = obj(vec![("title", s("t"))]);
    assert_eq!(decode_string_list(member(&none, "creator")), Ok(vec![]));
}

#[test]
fn string_list_refuses_other_types() {
    assert_eq!(decode_string_list(Some(&Json::UInt(3))), Err(FieldError::UnexpectedType));
    assert_eq!(decode_string_list(Some(&Json::Null)), Err(FieldError::UnexpectedType));
    assert_eq!(
        decode_string_list(Some(&Json::Array(vec![s("a"), Json::Bool(true)]))),
        Err(FieldError::UnexpectedType)
    );
}

#[test]
fn size_from_numeric_string() {
    assert_eq!(decode_size(Some(&s("104857600"))), Ok(Some(104857600)));
    assert_eq!(decode_size(Some(&s("n/a"))), Ok(None));
    assert_eq!(decode_size(Some(&Json::UInt(42))), Ok(Some(42)));
    assert_eq!(decode_size(None), Ok(None));
    assert_eq!(decode_size(Some(&Json::Null)), Ok(None));
    assert_eq!(decode_size(Some(&s(""))), Ok(None));
    assert_eq!(decode_size(Some(&s("+5"))), Ok(None));
    assert_eq!(decode_size(Some(&s("18446744073709551616"))), Ok(None));
    assert_eq!(decode_size(Some(&s("18446744073709551615"))), Ok(Some(u64::MAX)));
    assert_eq!(decode_size(Some(&Json::NegInt(-1))), Ok(None));
    assert_eq!(decode_size(Some(&Json::Bool(false))), Err(FieldError::UnexpectedType));
}

#[test]
fn year_as_string_or_integer() {
    assert_eq!(decode_string_or_int(Some(&s("1975"))), Ok(Some("1975".to_string())));
    assert_eq!(decode_string_or_int(Some(&Json::UInt(1999))), Ok(Some("1999".to_string())));
    assert_eq!(decode_string_or_int(Some(&Json::NegInt(-42))), Ok(Some("-42".to_string())));
    assert_eq!(decode_string_or_int(Some(&Json::Null)), Ok(None));
    assert_eq!(decode_string_or_int(None), Ok(None));
    assert_eq!(decode_string_or_int(Some(&Json::Fractional)), Err(FieldError::UnexpectedType));
    assert_eq!(i64_to_decimal(i64::MIN), i64::MIN.to_string());
    assert_eq!(u64_to_decimal(0), "0");
    assert_eq!(u64_to_decimal(u64::MAX), u64::MAX.to_string());
}

#[test]
fn strict_search_response() {
    let root = search(vec![
        obj(vec![
            ("identifier", s("first")),
            ("title", s("First")),
            ("year", Json::UInt(1950)),
            ("creator", s("Studio")),
            ("subject", Json::Array(vec![s("a"), s("b")])),
            ("item_size", Json::UInt(1000)),
            ("downloads", Json::UInt(7)),
        ]),
        obj(vec![("identifier", s("")), ("title", s("dropped"))]),
        obj(vec![("identifier", s("second")), ("creator", Json::UInt(1))]),
    ]);
    let page = decode_search_response(&root).unwrap();
    assert_eq!(page.num_found, Some(3));
    assert_eq!(page.documents.len(), 2);
    let d = &page.documents[0];
    assert_eq!(d.identifier, "first");
    assert_eq!(d.title.as_deref(), Some("First"));
    assert_eq!(d.year.as_deref(), Some("1950"));
    assert_eq!(d.creators, vec!["Studio".to_string()]);
    assert_eq!(d.subjects, vec!["a".to_string(), "b".to_string()]);
    assert_eq!(d.estimated_size_bytes, Some(1000));
    assert_eq!(d.download_count, Some(7));
    let e = &page.documents[1];
    assert_eq!(e.identifier, "second");
    assert_eq!(e.title, None);
    assert!(e.creators.is_empty());
}

#[test]
fn api_error_is_reported() {
    let root = obj(vec![("error", s("rate limited"))]);
    match decode_search_response(&root) {
        Err(DecodeError::ApiError(m)) => assert_eq!(m, "rate limited"),
        other => panic!("unexpected {:?}", other),
    }
    match search_documents(&root) {
        Err(DecodeError::ApiError(m)) => assert_eq!(m, "rate limited"),
        other => panic!("unexpected {:?}", other),
    }
    assert!(matches!(decode_search_response(&obj(vec![])), Err(DecodeError::Schema(_))));
}

#[test]
fn fallback_when_strict_fails() {
    let root = search(vec![
        obj(vec![
            ("identifier", s("odd")),
            ("title", Json::UInt(5)),
            ("year", Json::NegInt(-3)),
            ("creator", Json::Array(vec![s("A"), Json::UInt(1), s("B")])),
            ("size", s("2048")),
        ]),
        obj(vec![("title", s("no id"))]),
    ]);
    assert!(matches!(decode_search_response(&root), Err(DecodeError::Schema(_))));
    let docs = search_documents(&root).unwrap();
    assert_eq!(docs.len(), 1);
    let d = &docs[0];
    assert_eq!(d.identifier, "odd");
    assert_eq!(d.title.as_deref(), Some("(No Title)"));
    assert_eq!(d.media_type.as_deref(), Some("movies"));
    assert_eq!(d.year.as_deref(), Some("-3"));
    assert_eq!(d.creators, vec!["A".to_string(), "B".to_string()]);
    assert_eq!(d.estimated_size_bytes, Some(2048));
    assert_eq!(d.download_count, None);
}

#[test]
fn extraction_is_capped_and_estimates_size() {
    let docs: Vec<Json> = (0..30)
        .map(|i| obj(vec![("identifier", s(&format!("id{}", i))), ("item_size", s("77"))]))
        .collect();
    let out = try_extract_identifiers(&search(docs));
    assert_eq!(out.len(), 20);
    assert_eq!(out[19].identifier, "id19");
    assert_eq!(out[0].estimated_size_bytes, Some(77));
    let plain = try_extract_identifiers(&search(vec![obj(vec![("identifier", s("a"))])]));
    assert_eq!(plain[0].estimated_size_bytes, Some(15 * 1024 * 1024));
    assert!(try_extract_identifiers(&Json::Array(vec![])).is_empty());
    assert!(search_documents(&obj(vec![])).unwrap().is_empty());
}

#[test]
fn string_array_extraction() {
    let item = obj(vec![
        ("subject", Json::Array(vec![s("x"), Json::Null, s("y")])),
        ("creator", s("solo")),
        ("other", Json::Bool(true)),
    ]);
    assert_eq!(extract_string_array(&item, "subject"), vec!["x".to_string(), "y".to_string()]);
    assert_eq!(extract_string_array(&item, "creator"), vec!["solo".to_string()]);
    assert!(extract_string_array(&item, "other").is_empty());
    assert!(extract_string_array(&item, "missing").is_empty());
}

#[test]
fn syntax_error_keeps_an_excerpt() {
    let text = "\u{e9}".repeat(250);
    match DecodeError::syntax("bad".to_string(), &text) {
        DecodeError::Syntax { message, excerpt } => {
            assert_eq!(message, "bad");
            assert_eq!(excerpt, "\u{e9}".repeat(200));
        }
        other => panic!("unexpected {:?}", other),
    }
    match DecodeError::syntax("bad".to_string(), "short") {
        DecodeError::Syntax { excerpt, .. } => assert_eq!(excerpt, "short"),
        other => panic!("unexpected {:?}", other),
    }
}
