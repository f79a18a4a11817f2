use serde_json::Number;
use solver_log::compress::prune_fragment;
use solver_log::json::{prune_json_recursively, JsonEntry, JsonValue};

fn num(n: u64) -> JsonValue {
    JsonValue::Number(Number::from(n))
}

fn text(s: &str) -> JsonValue {
    JsonValue::String(s.to_string())
}

fn entry(key: &str, value: JsonValue) -> JsonEntry {
    JsonEntry { key: key.to_string(), value }
}

fn numbers(upto: u64) -> Vec<JsonValue> {
    (1..=upto).map(num).collect()
}

#[test]
fn long_array_keeps_head_and_gets_marker() {
    let mut v = JsonValue::Array(numbers(10));
    prune_json_recursively(&mut v, 3);
    assert_eq!(
        v,
        JsonValue::Array(vec![num(1), num(2), num(3), text("... (truncated 7 items) ...")])
    );
}

#[test]
fn pruned_array_has_limit_plus_one_elements() {
    for limit in 0usize..6 {
        for len in 0u64..9 {
            let mut v = JsonValue::Array(numbers(len));
            prune_json_recursively(&mut v, limit);
            let JsonValue::Array(items) = v else { panic!("not an array") };
            if len as usize > limit {
                assert_eq!(items.len(), limit + 1);
                let removed = len as usize - limit;
                assert_eq!(items[limit], text(&format!("... (truncated {} items) ...", removed)));
                assert_eq!(&items[..limit], &numbers(limit as u64)[..]);
            } else {
                assert_eq!(items, numbers(len));
            }
        }
    }
}

#[test]
fn array_at_the_limit_is_left_whole() {
    let mut v = JsonValue::Array(numbers(3));
    prune_json_recursively(&mut v, 3);
    assert_eq!(v, JsonValue::Array(numbers(3)));
}

#[test]
fn limit_zero_leaves_only_the_marker() {
    let mut v = JsonValue::Array(numbers(2));
    prune_json_recursively(&mut v, 0);
    assert_eq!(v, JsonValue::Array(vec![text("... (truncated 2 items) ...")]));
}

#[test]
fn nested_arrays_and_objects_are_pruned() {
    let inner = JsonValue::Array(numbers(5));
    let mut v = JsonValue::Object(vec![
        entry("keep", text("s")),
        entry("rows", JsonValue::Array(vec![inner, JsonValue::Array(numbers(1)), num(9), num(8)])),
        entry("deep", JsonValue::Object(vec![entry("xs", JsonValue::Array(numbers(4)))])),
    ]);
    prune_json_recursively(&mut v, 2);
    let expected = JsonValue::Object(vec![
        entry("keep", text("s")),
        entry(
            "rows",
            JsonValue::Array(vec![
                JsonValue::Array(vec![num(1), num(2), text("... (truncated 3 items) ...")]),
                JsonValue::Array(numbers(1)),
                text("... (truncated 2 items) ..."),
            ]),
        ),
        entry(
            "deep",
            JsonValue::Object(vec![entry(
                "xs",
                JsonValue::Array(vec![num(1), num(2), text("... (truncated 2 items) ...")]),
            )]),
        ),
    ]);
    assert_eq!(v, expected);
}

#[test]
fn scalars_are_untouched() {
    for make in [
        || JsonValue::Null,
        || JsonValue::Bool(true),
        || num(12),
        || text("a long text that is no array"),
    ] {
        let mut v = make();
        prune_json_recursively(&mut v, 0);
        assert_eq!(v, make());
    }
}

#[test]
fn no_key_is_dropped() {
    let mut v = JsonValue::Object(vec![
        entry("a", JsonValue::Array(numbers(9))),
        entry("b", JsonValue::Null),
        entry("c", JsonValue::Object(vec![])),
    ]);
    prune_json_recursively(&mut v, 1);
    let JsonValue::Object(entries) = v else { panic!("not an object") };
    let keys: Vec<&str> = entries.iter().map(|e| e.key.as_str()).collect();
    assert_eq!(keys, vec!["a", "b", "c"]);
}

#[test]
fn fragment_is_parsed_and_written_by_serde_json() {
    for source in [
        " {\"b\": [1, true, null], \"a\": \"x\"} ",
        "{\"x\":[1.5,2,{\"y\":\"é\"}],\"z\":null,\"n\":-5,\"s\":\"a\\\"b\"}",
        "[]",
        "\"plain\"",
        "12",
    ] {
        let expected = serde_json::from_str::<serde_json::Value>(source).unwrap().to_string();
        assert_eq!(prune_fragment(source, usize::MAX), expected, "source {:?}", source);
    }
    assert_eq!(
        prune_fragment(" {\"b\": [1, true, null], \"a\": \"x\"} ", 5),
        "{\"a\":\"x\",\"b\":[1,true,null]}"
    );
}

#[test]
fn what_is_no_json_is_not_parsed() {
    for source in ["", "{", "[1,]", "{} trailing", "not json", "[1, 2, 3, 4"] {
        assert_eq!(prune_fragment(source, 0), source);
    }
}

#[test]
fn fields_and_items_are_found() {
    let v = JsonValue::Object(vec![
        entry("a", JsonValue::Array(vec![num(10), num(20)])),
        entry("b", JsonValue::Object(vec![entry("c", text("d"))])),
    ]);
    assert_eq!(v.get_field("a").and_then(|a| a.get_item(1)), Some(&num(20)));
    assert_eq!(v.get_field("a").and_then(|a| a.get_item(2)), None);
    assert_eq!(v.get_field("b").and_then(|b| b.get_field("c")), Some(&text("d")));
    assert_eq!(v.get_field("missing"), None);
    assert_eq!(v.get_item(0), None);
    assert_eq!(num(1).get_field("a"), None);
    let twice = JsonValue::Object(vec![entry("k", num(1)), entry("k", num(2))]);
    assert_eq!(twice.get_field("k"), Some(&num(2)));
}
