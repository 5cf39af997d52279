use ktools::json::canonical_json;
use ktools::diff::{diff, diff_texts, split_lines, ChangeTag, DiffResult};
use ktools::registry::{schema_kind_for, select_version, SchemaKind};

fn chars(s: &str) -> Vec<char> {
    s.chars().collect()
}

#[test]
fn same_text_has_no_differences() {
    assert!(matches!(diff("not json\nat all", "not json\nat all"), DiffResult::NoDifferences));
    assert!(matches!(diff(r#"{"a":1}"#, r#"{"a":1}"#), DiffResult::NoDifferences));
    assert!(matches!(diff("", ""), DiffResult::NoDifferences));
}

#[test]
fn json_formatting_alone_makes_no_difference() {
    let local = "{\n    \"type\": \"record\",\n    \"name\": \"Order\"\n}";
    let remote = r#"{"type":"record","name":"Order"}"#;
    assert!(matches!(diff(local, remote), DiffResult::NoDifferences));
}

#[test]
fn changed_line_is_a_deletion_and_an_insertion() {
    let ops = match diff_texts("a\nb\nc", "a\nx\nc") {
        DiffResult::Changes(ops) => ops,
        DiffResult::NoDifferences => panic!("texts differ"),
    };
    let tags: Vec<ChangeTag> = ops.iter().map(|o| o.tag).collect();
    assert_eq!(tags, vec![ChangeTag::Equal, ChangeTag::Delete, ChangeTag::Insert, ChangeTag::Equal]);
    let texts: Vec<&str> = ops.iter().map(|o| o.text.as_str()).collect();
    assert_eq!(texts, vec!["a", "b", "x", "c"]);
    let old: Vec<Option<usize>> = ops.iter().map(|o| o.old_index).collect();
    let new: Vec<Option<usize>> = ops.iter().map(|o| o.new_index).collect();
    assert_eq!(old, vec![Some(0), Some(1), None, Some(2)]);
    assert_eq!(new, vec![Some(0), None, Some(1), Some(2)]);
}

#[test]
fn added_lines_are_insertions() {
    let ops = match diff_texts("a", "a\nb") {
        DiffResult::Changes(ops) => ops,
        DiffResult::NoDifferences => panic!("texts differ"),
    };
    assert_eq!(ops.len(), 2);
    assert_eq!(ops[0].tag, ChangeTag::Equal);
    assert_eq!(ops[1].tag, ChangeTag::Insert);
    assert_eq!(ops[1].text, "b");
}

#[test]
fn diff_renders_with_markers() {
    let r = diff("a\nb", "a\nc");
    assert_eq!(r.render(), "  a\n- b\n+ c\n");
    assert_eq!(diff("x", "x").render(), "No differences found.");
}

#[test]
fn split_lines_keeps_empty_lines() {
    let lines = split_lines(&chars("a\n\nb\n"));
    assert_eq!(lines, vec![chars("a"), chars(""), chars("b"), chars("")]);
    assert_eq!(split_lines(&chars("")), vec![chars("")]);
}

#[test]
fn registered_schema_resolves_and_matches_its_file() {
    let source = "{\"type\":\"record\",\"name\":\"Order\",\"fields\":[{\"name\":\"id\",\"type\":\"string\"}]}";
    assert_eq!(schema_kind_for("orders.avsc").unwrap(), SchemaKind::Avro);
    let assigned = vec![1u32];
    assert_eq!(select_version("orders-value", &assigned, None).unwrap(), 1);
    let stored = "{\n  \"type\": \"record\",\n  \"name\": \"Order\",\n  \"fields\": [\n    {\"name\": \"id\", \"type\": \"string\"}\n  ]\n}";
    assert!(matches!(diff(source, stored), DiffResult::NoDifferences));
    assert!(matches!(diff(source, source), DiffResult::NoDifferences));
}

#[test]
fn canonical_json_pretty_prints_documents() {
    assert_eq!(canonical_json(r#"{"a":1}"#).as_deref(), Some("{\n  \"a\": 1\n}"));
    assert_eq!(canonical_json("not json"), None);
}

#[test]
fn json_documents_that_differ_are_diffed_in_canonical_form() {
    let ops = match diff(r#"{"a":1}"#, r#"{"a":2}"#) {
        DiffResult::Changes(ops) => ops,
        DiffResult::NoDifferences => panic!("documents differ"),
    };
    let texts: Vec<&str> = ops.iter().map(|o| o.text.as_str()).collect();
    assert_eq!(texts, vec!["{", "  \"a\": 1", "  \"a\": 2", "}"]);
}
