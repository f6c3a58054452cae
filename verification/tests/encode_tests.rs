//! Tests of the query-string encoder on concrete documents.

use qs_gateway::Json;
use qs_gateway::encode::encode;
use qs_gateway::encode::EncodeError;

fn key(k: &str) -> Vec<u8> {
    k.as_bytes().to_vec()
}

fn s(text: &str) -> Json {
    Json::Str(text.as_bytes().to_vec())
}

fn n(text: &str) -> Json {
    Json::Num(text.as_bytes().to_vec())
}

fn obj(fields: Vec<(&str, Json)>) -> Json {
    Json::Obj(fields.into_iter().map(|(k, v)| (key(k), v)).collect())
}

fn enc(v: &Json) -> String {
    String::from_utf8(encode(v).unwrap()).unwrap()
}

#[test]
fn flattens_nested_object_and_array() {
    let doc = obj(vec![
        ("a", obj(vec![("b", n("1"))])),
        ("c", Json::Arr(vec![n("2"), n("3")])),
    ]);
    assert_eq!(enc(&doc), "a[b]=1&c[0]=2&c[1]=3");
}

#[test]
fn encoding_is_deterministic() {
    let doc = obj(vec![
        ("a", obj(vec![("b", n("1"))])),
        ("c", Json::Arr(vec![n("2"), n("3")])),
    ]);
    let first = encode(&doc).unwrap();
    let second = encode(&doc).unwrap();
    assert_eq!(first, second);
}

#[test]
fn scalars_have_pinned_texts() {
    let doc = obj(vec![
        ("n", Json::Null),
        ("t", Json::Bool(true)),
        ("f", Json::Bool(false)),
        ("s", s("x y")),
        ("num", n("1.5")),
    ]);
    assert_eq!(enc(&doc), "n=&t=true&f=false&s=x%20y&num=1.5");
}

#[test]
fn reserved_bytes_are_percent_encoded() {
    let doc = obj(vec![("a&b", s("c=d"))]);
    assert_eq!(enc(&doc), "a%26b=c%3Dd");
}

#[test]
fn empty_object_encodes_to_nothing() {
    assert_eq!(enc(&obj(vec![])), "");
}

#[test]
fn nested_empty_object_contributes_no_pairs() {
    let doc = obj(vec![("a", obj(vec![])), ("b", n("1"))]);
    assert_eq!(enc(&doc), "b=1");
}

#[test]
fn deep_nesting_stacks_brackets() {
    let doc = obj(vec![("a", obj(vec![("b", obj(vec![("c", s("d"))]))]))]);
    assert_eq!(enc(&doc), "a[b][c]=d");
}

#[test]
fn array_indices_go_past_nine() {
    let items: Vec<Json> = (0..12).map(|i| n(&i.to_string())).collect();
    let doc = obj(vec![("a", Json::Arr(items))]);
    let text = enc(&doc);
    assert!(text.contains("a[10]=10&a[11]=11"));
}

#[test]
fn top_level_scalar_is_refused() {
    assert_eq!(encode(&Json::Bool(true)), Err(EncodeError::TopLevelNotObject));
    assert_eq!(encode(&s("x")), Err(EncodeError::TopLevelNotObject));
}

#[test]
fn top_level_array_is_refused() {
    let doc = Json::Arr(vec![n("1"), n("2")]);
    assert_eq!(encode(&doc), Err(EncodeError::TopLevelNotObject));
}

#[test]
fn agrees_with_serde_qs_on_nested_documents() {
    let mut inner = serde_json::Map::new();
    inner.insert("b".to_string(), serde_json::Value::Number(serde_json::Number::from(1)));
    let mut top = serde_json::Map::new();
    top.insert("a".to_string(), serde_json::Value::Object(inner));
    top.insert(
        "c".to_string(),
        serde_json::Value::Array(vec![
            serde_json::Value::Number(serde_json::Number::from(2)),
            serde_json::Value::Number(serde_json::Number::from(3)),
        ]),
    );
    let reference = serde_qs::to_string(&serde_json::Value::Object(top)).unwrap();

    let doc = obj(vec![
        ("a", obj(vec![("b", n("1"))])),
        ("c", Json::Arr(vec![n("2"), n("3")])),
    ]);
    assert_eq!(enc(&doc), reference);
}

#[test]
fn percent_encoding_uses_uppercase_hex() {
    let doc = obj(vec![("q", s("{ping}"))]);
    assert_eq!(enc(&doc), "q=%7Bping%7D");
}
