use annotator::annotate::{annotate, source_count};
use annotator::parse::parse_input;
use annotator::pipeline::process_document;
use annotator::render::to_pretty;
use annotator::value::Json;

fn chars(s: &str) -> Vec<char> {
    s.chars().collect()
}

#[test]
fn array_of_three_is_counted_and_kept() {
    let text = process_document("[1,2,3]").unwrap();
    assert_eq!(
        text,
        "{\n  \"source_count\": 3,\n  \"processed_data\": [\n    1,\n    2,\n    3\n  ]\n}"
    );
}

#[test]
fn object_counts_zero_and_is_kept() {
    let text = process_document("{\"a\":1}").unwrap();
    assert_eq!(
        text,
        "{\n  \"source_count\": 0,\n  \"processed_data\": {\n    \"a\": 1\n  }\n}"
    );
}

#[test]
fn malformed_text_is_rejected() {
    let err = process_document("not json").unwrap_err();
    assert!(!err.message.is_empty());
}

#[test]
fn empty_text_is_rejected() {
    assert!(process_document("").is_err());
}

#[test]
fn empty_array_counts_zero() {
    let text = process_document("[]").unwrap();
    assert_eq!(text, "{\n  \"source_count\": 0,\n  \"processed_data\": []\n}");
}

#[test]
fn nested_arrays_are_counted_shallowly() {
    let doc = parse_input("[[1,2],[3]]").unwrap();
    assert_eq!(source_count(&doc), 2);
}

#[test]
fn scalars_count_zero() {
    for input in ["null", "true", "false", "42", "\"x\""] {
        let doc = parse_input(input).unwrap();
        assert_eq!(source_count(&doc), 0, "input {input}");
    }
}

#[test]
fn parsing_builds_the_document() {
    let doc = parse_input("[1,2,3]").unwrap();
    let expected = Json::Array(vec![
        Json::Number(chars("1")),
        Json::Number(chars("2")),
        Json::Number(chars("3")),
    ]);
    assert_eq!(doc, expected);
}

#[test]
fn parsing_reads_strings_and_null() {
    let doc = parse_input("{\"k\":[null,\"v\"]}").unwrap();
    let expected = Json::Object(vec![(
        chars("k"),
        Json::Array(vec![Json::Null, Json::Text(chars("v"))]),
    )]);
    assert_eq!(doc, expected);
}

#[test]
fn fractional_numbers_are_kept() {
    let text = process_document("[1.5]").unwrap();
    assert_eq!(text, "{\n  \"source_count\": 1,\n  \"processed_data\": [\n    1.5\n  ]\n}");
}

#[test]
fn top_level_string_counts_zero() {
    let text = process_document("\"x\"").unwrap();
    assert_eq!(text, "{\n  \"source_count\": 0,\n  \"processed_data\": \"x\"\n}");
}

#[test]
fn non_ascii_text_passes_through() {
    let text = process_document("[\"héllo\"]").unwrap();
    assert_eq!(
        text,
        "{\n  \"source_count\": 1,\n  \"processed_data\": [\n    \"héllo\"\n  ]\n}"
    );
}

#[test]
fn annotation_wraps_the_input_unchanged() {
    let doc = parse_input("{\"a\":[true]}").unwrap();
    let again = parse_input("{\"a\":[true]}").unwrap();
    let wrapped = annotate(again);
    match wrapped {
        Json::Object(members) => {
            assert_eq!(members.len(), 2);
            assert_eq!(members[0].0, chars("source_count"));
            assert_eq!(members[0].1, Json::Number(chars("0")));
            assert_eq!(members[1].0, chars("processed_data"));
            assert_eq!(members[1].1, doc);
        }
        other => panic!("expected an object, got {other:?}"),
    }
}

#[test]
fn annotation_counts_an_array() {
    let wrapped = annotate(Json::Array(vec![Json::Null, Json::Bool(true)]));
    match wrapped {
        Json::Object(members) => {
            assert_eq!(members[0].1, Json::Number(chars("2")));
        }
        other => panic!("expected an object, got {other:?}"),
    }
}

#[test]
fn pretty_prints_scalars() {
    assert_eq!(to_pretty(&Json::Null), "null");
    assert_eq!(to_pretty(&Json::Bool(true)), "true");
    assert_eq!(to_pretty(&Json::Bool(false)), "false");
    assert_eq!(to_pretty(&Json::Number(chars("42"))), "42");
    assert_eq!(to_pretty(&Json::Text(chars("hi"))), "\"hi\"");
}

#[test]
fn pretty_prints_empty_containers() {
    assert_eq!(to_pretty(&Json::Array(vec![])), "[]");
    assert_eq!(to_pretty(&Json::Object(vec![])), "{}");
}

#[test]
fn pretty_escapes_strings() {
    let v = Json::Text(chars("a\"b\\c\nd"));
    assert_eq!(to_pretty(&v), "\"a\\\"b\\\\c\\nd\"");
    let control = Json::Text(chars("\u{1}"));
    assert_eq!(to_pretty(&control), "\"\\u0001\"");
}

#[test]
fn pretty_indents_nested_values() {
    let v = Json::Object(vec![(
        chars("xs"),
        Json::Array(vec![Json::Number(chars("1"))]),
    )]);
    assert_eq!(to_pretty(&v), "{\n  \"xs\": [\n    1\n  ]\n}");
}

#[test]
fn large_count_renders_all_digits() {
    let items: Vec<Json> = (0..120).map(|_| Json::Null).collect();
    let wrapped = annotate(Json::Array(items));
    match wrapped {
        Json::Object(members) => assert_eq!(members[0].1, Json::Number(chars("120"))),
        other => panic!("expected an object, got {other:?}"),
    }
}
