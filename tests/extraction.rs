use dashboard::extract::{
    classify_selection, extract_all, is_absent_message, is_query_supported, values_to_store, ExtractError, JsonKind,
};
use dashboard::model::{Metric, Source};

fn metric(id: i64, source_id: i64, query: &str) -> Metric {
    Metric {
        id,
        name: format!("metric {}", id),
        source_id,
        query: query.to_string(),
        color: 0,
        position: 0,
    }
}

fn doc(text: &str) -> serde_json::Value {
    serde_json::from_str(text).unwrap()
}

fn source_name() -> String {
    "weather".to_string()
}

#[test]
fn extract_number() {
    let r = metric(1, 1, "\"temp\"").extract(&doc(r#"{"temp": 21.5}"#), &source_name());
    let n = r.unwrap().unwrap();
    assert_eq!(n.as_f64(), Some(21.5));
}

#[test]
fn extract_absent_field_is_none() {
    let r = metric(1, 1, "\"temp\"").extract(&doc(r#"{"other": 1}"#), &source_name());
    assert_eq!(r, Ok(None));
}

#[test]
fn extract_text_is_error() {
    let r = metric(1, 1, "\"temp\"").extract(&doc(r#"{"temp": "hot"}"#), &source_name());
    assert_eq!(
        r,
        Err(ExtractError::NotNumeric { query: "\"temp\"".to_string(), source: "weather".to_string() })
    );
}

#[test]
fn extract_null_is_none() {
    let r = metric(1, 1, "\"temp\"").extract(&doc(r#"{"temp": null}"#), &source_name());
    assert_eq!(r, Ok(None));
}

#[test]
fn extract_nested_and_index() {
    let d = doc(r#"{"a": {"b": [3, 4, 5]}}"#);
    let r = metric(1, 1, "\"a\".\"b\".[2]").extract(&d, &source_name());
    assert_eq!(r.unwrap().unwrap().as_i64(), Some(5));
    let r = metric(1, 1, "\"a\".\"b\".[7]").extract(&d, &source_name());
    assert_eq!(r, Ok(None));
}

#[test]
fn extract_malformed_query_is_error() {
    let r = metric(1, 1, "\"temp").extract(&doc(r#"{"temp": 1}"#), &source_name());
    match r {
        Err(ExtractError::Query { query, source, message }) => {
            assert_eq!(query, "\"temp");
            assert_eq!(source, "weather");
            assert!(!message.is_empty());
        }
        other => panic!("unexpected outcome {:?}", other),
    }
}

#[test]
fn absent_messages() {
    assert!(is_absent_message("Node \"foo\" not found on the parent element"));
    assert!(is_absent_message("Node \"d\" not found on parent node \"nested\""));
    assert!(is_absent_message("Index [4] is out of bound, root element has a length of 4"));
    assert!(!is_absent_message("Node \"foo\" is not an array"));
    assert!(!is_absent_message("Empty selection"));
    assert!(!is_absent_message(""));
}

#[test]
fn classify_each_kind() {
    let q = "\"q\"".to_string();
    let s = "src".to_string();
    assert_eq!(classify_selection(Ok(JsonKind::Null), &q, &s), Ok(None));
    let n: serde_json::Number = serde_json::Number::from(7);
    assert_eq!(classify_selection(Ok(JsonKind::Number(n.clone())), &q, &s), Ok(Some(n)));
    assert_eq!(
        classify_selection(Ok(JsonKind::Bool(true)), &q, &s),
        Err(ExtractError::NotNumeric { query: q.clone(), source: s.clone() })
    );
    assert_eq!(
        classify_selection(Ok(JsonKind::Array), &q, &s),
        Err(ExtractError::NotNumeric { query: q.clone(), source: s.clone() })
    );
    assert_eq!(
        classify_selection(Err("Node \"q\" not found on the parent element".to_string()), &q, &s),
        Ok(None)
    );
    assert_eq!(
        classify_selection(Err("Empty selection".to_string()), &q, &s),
        Err(ExtractError::Query { query: q.clone(), source: s.clone(), message: "Empty selection".to_string() })
    );
}

#[test]
fn extract_all_of_one_source() {
    let src = Source {
        id: 1,
        name: "weather".to_string(),
        enabled: true,
        url: "http://example.invalid".to_string(),
        interval: 60,
        last_update: 0,
        position: 0,
    };
    let metrics = vec![
        metric(10, 1, "\"temp\""),
        metric(11, 2, "\"temp\""),
        metric(12, 1, "\"wind\""),
        metric(13, 1, "\"label\""),
    ];
    let r = extract_all(&metrics, &src, &doc(r#"{"temp": 21.5, "label": "x"}"#));
    assert_eq!(r.len(), 3);
    assert_eq!(r[0].0, 10);
    assert_eq!(r[0].1.as_ref().unwrap().as_ref().unwrap().as_f64(), Some(21.5));
    assert_eq!(r[1], (12, Ok(None)));
    assert_eq!(
        r[2],
        (13, Err(ExtractError::NotNumeric { query: "\"label\"".to_string(), source: "weather".to_string() }))
    );
}

#[test]
fn supported_queries() {
    assert!(is_query_supported("\"temp\""));
    assert!(is_query_supported("\"a\".\"b\".[2]"));
    assert!(is_query_supported("\"a\"[0].\"b\""));
    assert!(!is_query_supported("\"a\"[0,1]"));
    assert!(!is_query_supported("\"a\",[0]"));
    assert!(is_query_supported("[18446744073709551615]"));
    assert!(is_query_supported("\"a\\\"[,] b\""));
    assert!(is_query_supported(""));
    assert!(!is_query_supported("[18446744073709551616]"));
    assert!(!is_query_supported("[99999999999999999999]"));
    assert!(!is_query_supported("[,1]"));
    assert!(!is_query_supported("[]"));
    assert!(!is_query_supported("[1, 2]"));
    assert!(!is_query_supported("[1:2]"));
    assert!(!is_query_supported("{\"a\"}"));
    assert!(!is_query_supported("\"a\"|\"b\""));
    assert!(!is_query_supported("..\"a\""));
    assert!(!is_query_supported("$.temp"));
}

#[test]
fn extract_unsupported_query_is_error() {
    let d = doc(r#"{"a": [1, 2]}"#);
    for q in ["[99999999999999999999]", "[,1]", "\"a\".[5:0]", "{[0]}", "\"a\",[0]"] {
        match metric(1, 1, q).extract(&d, &source_name()) {
            Err(ExtractError::Query { query, source, message }) => {
                assert_eq!(query, q);
                assert_eq!(source, "weather");
                assert!(message.starts_with("unsupported query"));
            }
            other => panic!("unexpected outcome {:?}", other),
        }
    }
}

#[test]
fn absent_message_must_start_with_node() {
    assert!(!is_absent_message(" --> 1:1 expected selector near \"x\" not found on"));
    assert!(is_absent_message("Node \"x\" not found on parent node \"y\""));
}

#[test]
fn values_to_store_keeps_only_values() {
    let n = serde_json::Number::from(3);
    let entries = vec![
        (1, Ok(Some(n.clone()))),
        (2, Ok(None)),
        (3, Err(ExtractError::NotNumeric { query: "q".to_string(), source: "s".to_string() })),
        (4, Ok(Some(n))),
    ];
    assert_eq!(values_to_store(&entries), vec![0, 3]);
    assert_eq!(values_to_store(&vec![]), Vec::<usize>::new());
}
