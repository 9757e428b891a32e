use opencode2api::sanitize::{
    extract_and_clean_dsml, extract_and_clean_dsml_detailed, extract_attribute,
    parse_dsml_tool_calls, parse_dsml_tool_calls_detailed, strip_system_tags, ArgumentValue,
    ParsedDsmlCall,
};
use serde_json::Value;

/// The JSON value of a named argument: parsed JSON, or the text as a string.
fn arg(call: &ParsedDsmlCall, name: &str) -> Value {
    for (key, value) in &call.arguments {
        if key == name {
            return match value {
                ArgumentValue::Json(text) => serde_json::from_str(text).unwrap(),
                ArgumentValue::Text(text) => Value::String(text.clone()),
            };
        }
    }
    Value::Null
}

#[test]
fn test_strip_system_tags() {
    assert_eq!(strip_system_tags("</think>Hello"), "Hello");
    assert_eq!(strip_system_tags("</think>\n\nHello"), "Hello");
    assert_eq!(strip_system_tags("Hello</think>"), "Hello");
    assert_eq!(strip_system_tags("Hello</thinking>"), "Hello");
    assert_eq!(strip_system_tags("Hello</parameter>World"), "HelloWorld");
    assert_eq!(strip_system_tags("</｜DSML｜parameter>\nHello"), "Hello");
    assert_eq!(strip_system_tags("</｜DSML｜invoke>\nHello"), "Hello");
    assert_eq!(strip_system_tags("</｜DSML｜tool_calls>\nHello"), "Hello");
    assert_eq!(
        strip_system_tags("<think>Some thinking</think>Response"),
        "Some thinkingResponse"
    );
    assert_eq!(strip_system_tags("Normal text"), "Normal text");
}

#[test]
fn strips_ascii_pipe_and_plain_dsml_variants() {
    assert_eq!(
        strip_system_tags("<|DSML|tool_calls>hello</|DSML|tool_calls>"),
        "hello"
    );
    assert_eq!(
        strip_system_tags("<|DSML|invoke name=\"Bash\">x</|DSML|invoke>"),
        "x"
    );
    assert_eq!(
        strip_system_tags("<|DSML|parameter name=\"p\">v</|DSML|parameter>"),
        "v"
    );
    assert_eq!(strip_system_tags("<dsml>hello</dsml>"), "hello");
}

#[test]
fn strips_generic_xml_tool_tags_with_attributes_outside_code() {
    assert_eq!(
        strip_system_tags(
            "<tool_calls><invoke name=\"Bash\"><parameter name=\"command\">echo ok</parameter></invoke></tool_calls>"
        ),
        "echo ok"
    );
    assert_eq!(
        strip_system_tags(
            "<tool_call><invoke name=\"Agent\"><parameter name=\"prompt\">review</parameter></invoke></tool_call>"
        ),
        "review"
    );
}

#[test]
fn generic_xml_tool_tags_inside_code_are_inert() {
    let fenced = "```xml\n<tool_calls><invoke name=\"Bash\"><parameter name=\"command\">echo ok</parameter></invoke></tool_calls>\n```";
    let inline = "Use `<tool_call><invoke name=\"Bash\"></invoke></tool_call>` as an example.";
    assert_eq!(strip_system_tags(fenced), fenced);
    assert_eq!(strip_system_tags(inline), inline);
}

#[test]
fn test_extract_attribute() {
    assert_eq!(extract_attribute(r#"name="bash""#, "name"), "bash");
    assert_eq!(extract_attribute(r#"name='bash'"#, "name"), "bash");
    assert_eq!(extract_attribute(r#"name = "bash""#, "name"), "bash");
    assert_eq!(extract_attribute(r#"name  =  'bash'"#, "name"), "bash");
    assert_eq!(
        extract_attribute(r#"other="val" name="bash""#, "name"),
        "bash"
    );
}

#[test]
fn filename_before_name_does_not_shadow_name_lookup() {
    let tag = r#"<｜DSML｜invoke filename="x" name="Read""#;
    assert_eq!(extract_attribute(tag, "name"), "Read");
    assert_eq!(extract_attribute(tag, "filename"), "x");
}

#[test]
fn name_before_filename_still_resolves_name() {
    let tag = r#"<｜DSML｜invoke name="Read" filename="notes.md""#;
    assert_eq!(extract_attribute(tag, "name"), "Read");
    assert_eq!(extract_attribute(tag, "filename"), "notes.md");
}

#[test]
fn substring_attribute_names_never_match_partial() {
    // Suffix/prefix overlaps must not satisfy a lookup either.
    assert_eq!(
        extract_attribute(r#"<invoke pathname="/tmp/a" name="R""#, "name"),
        "R"
    );
    assert_eq!(
        extract_attribute(r#"<invoke data-name="x" name="R""#, "name"),
        "R"
    );
}

#[test]
fn repeated_attribute_first_occurrence_wins() {
    let tag = r#"<｜DSML｜invoke name="first" name="second""#;
    assert_eq!(extract_attribute(tag, "name"), "first");
}

#[test]
fn test_parse_dsml_tool_calls() {
    let sample = r#"
        <｜DSML｜tool_calls>
          <｜DSML｜invoke name="Edit">
            <｜DSML｜parameter name="path">scripts/lib/process.sh</｜DSML｜parameter>
            <｜DSML｜parameter name="edits">
```json
[
  {"oldText": "foo", "newText": "bar"}
]
```
            </｜DSML｜parameter>
          </｜DSML｜invoke>
        </｜DSML｜tool_calls>
    "#;
    let res = parse_dsml_tool_calls(sample);
    assert_eq!(res.len(), 1);
    assert_eq!(res[0].name, "Edit");
    assert_eq!(arg(&res[0], "path"), "scripts/lib/process.sh");
    assert_eq!(arg(&res[0], "file"), "scripts/lib/process.sh");
    assert_eq!(arg(&res[0], "edits")[0]["oldText"], "foo");
    assert_eq!(arg(&res[0], "edits")[0]["newText"], "bar");
}

#[test]
fn test_extract_and_clean_dsml() {
    let sample = "Hello <｜DSML｜tool_calls><｜DSML｜invoke name=\"bash\"><｜DSML｜parameter name=\"command\">git status</｜DSML｜parameter></｜DSML｜invoke></｜DSML｜tool_calls> World";
    let (text, calls) = extract_and_clean_dsml(sample);
    assert_eq!(text, "Hello  World");
    assert_eq!(calls.len(), 1);
    assert_eq!(calls[0].name, "bash");
    assert_eq!(arg(&calls[0], "command"), "git status");
}

#[test]
fn parses_multiple_invocations_and_typed_parameters() {
    let sample = "<｜DSML｜tool_calls><｜DSML｜invoke name=\"Bash\"><｜DSML｜parameter name=\"command\">printf ONE</｜DSML｜parameter></｜DSML｜invoke><｜DSML｜invoke name=\"Edit\"><｜DSML｜parameter name=\"path\">README.md</｜DSML｜parameter><｜DSML｜parameter name=\"replace_all\">true</｜DSML｜parameter><｜DSML｜parameter name=\"edits\">[{\"oldText\":\"a\",\"newText\":\"b\"}]</｜DSML｜parameter></｜DSML｜invoke></｜DSML｜tool_calls>";

    let calls = parse_dsml_tool_calls(sample);
    assert_eq!(calls.len(), 2);
    assert_eq!(calls[0].name, "Bash");
    assert_eq!(arg(&calls[0], "command"), "printf ONE");
    assert_eq!(calls[1].name, "Edit");
    assert_eq!(arg(&calls[1], "path"), "README.md");
    assert_eq!(arg(&calls[1], "file"), "README.md");
    assert_eq!(arg(&calls[1], "replace_all"), "true");
    assert_eq!(arg(&calls[1], "edits")[0]["newText"], "b");
}

#[test]
fn parameter_value_containing_literal_close_tag_is_not_malformed() {
    let sample = "<｜DSML｜tool_calls><｜DSML｜invoke name=\"Write\"><｜DSML｜parameter name=\"content\">write this literal text: </｜DSML｜parameter> is not a real close</｜DSML｜parameter></｜DSML｜invoke></｜DSML｜tool_calls>";
    let (calls, malformed) = parse_dsml_tool_calls_detailed(sample);
    assert!(
        !malformed,
        "quoted grammar inside a parameter value must not mark the block malformed"
    );
    assert_eq!(calls.len(), 1);
    assert_eq!(calls[0].name, "Write");
}

#[test]
fn unclosed_tool_calls_wrapper_is_fail_closed() {
    let sample = "before <｜DSML｜tool_calls><｜DSML｜invoke name=\"Read\"><｜DSML｜parameter name=\"file_path\">src/lib.rs</｜DSML｜parameter></｜DSML｜invoke>";

    let extraction = extract_and_clean_dsml_detailed(sample);
    assert_eq!(extraction.cleaned_text, sample);
    assert!(extraction.calls.is_empty());
    assert!(extraction.malformed_intent);
}

#[test]
fn unterminated_invoke_does_not_merge_with_following_invocation() {
    let sample = "<｜DSML｜invoke name=\"Broken\"><｜DSML｜parameter name=\"command\">echo ghost</｜DSML｜parameter><｜DSML｜invoke name=\"Read\"><｜DSML｜parameter name=\"file_path\">src/lib.rs</｜DSML｜parameter></｜DSML｜invoke>";

    let (calls, structurally_broken) = parse_dsml_tool_calls_detailed(sample);
    assert_eq!(calls.len(), 1, "exactly the well-formed call survives");
    assert_eq!(calls[0].name, "Read");
    assert_eq!(arg(&calls[0], "file_path"), "src/lib.rs");
    assert!(
        !calls.iter().any(|call| call.name == "Broken"),
        "the broken fragment must never surface as a tool call"
    );
    assert!(
        !structurally_broken,
        "full resynchronization recovers a clean batch"
    );
}

#[test]
fn unterminated_invoke_resync_flows_through_extraction() {
    let sample = "prefix <｜DSML｜tool_calls><｜DSML｜invoke name=\"Broken\"><｜DSML｜parameter name=\"command\">ghost</｜DSML｜parameter><｜DSML｜invoke name=\"Read\"><｜DSML｜parameter name=\"file_path\">src/lib.rs</｜DSML｜parameter></｜DSML｜invoke></｜DSML｜tool_calls> suffix";

    let extraction = extract_and_clean_dsml_detailed(sample);
    assert_eq!(extraction.calls.len(), 1);
    assert_eq!(extraction.calls[0].name, "Read");
    assert!(!extraction.malformed_intent);
    assert_eq!(
        extraction.cleaned_text, "prefix  suffix",
        "recovered block is stripped like any healthy block"
    );
}

#[test]
fn unterminated_invoke_before_multiple_complete_invocations_recovers_all() {
    let sample = "<｜DSML｜invoke name=\"Broken\"><｜DSML｜invoke name=\"Bash\"><｜DSML｜parameter name=\"command\">true</｜DSML｜parameter></｜DSML｜invoke><｜DSML｜invoke name=\"Read\"><｜DSML｜parameter name=\"file_path\">a.rs</｜DSML｜parameter></｜DSML｜invoke>";

    let (calls, structurally_broken) = parse_dsml_tool_calls_detailed(sample);
    let names: Vec<&str> = calls.iter().map(|call| call.name.as_str()).collect();
    assert_eq!(names, vec!["Bash", "Read"]);
    assert!(!structurally_broken);
}

#[test]
fn unterminated_invoke_without_any_close_stays_fail_closed() {
    let sample = "<｜DSML｜invoke name=\"Read\"><｜DSML｜parameter name=\"file_path\">src/lib.rs</｜DSML｜parameter>";

    let (calls, structurally_broken) = parse_dsml_tool_calls_detailed(sample);
    assert!(calls.is_empty());
    assert!(structurally_broken);

    let wrapped = format!("<｜DSML｜tool_calls>{sample}</｜DSML｜tool_calls>");
    let extraction = extract_and_clean_dsml_detailed(&wrapped);
    assert!(extraction.malformed_intent);
    assert!(extraction.calls.is_empty());
}

#[test]
fn invoke_marker_inside_parameter_value_is_not_a_foreign_open() {
    let sample = "<｜DSML｜invoke name=\"Write\"><｜DSML｜parameter name=\"content\">example: <｜DSML｜invoke name=\"Fake\"> body</｜DSML｜parameter></｜DSML｜invoke>";

    let (calls, structurally_broken) = parse_dsml_tool_calls_detailed(sample);
    assert!(!structurally_broken);
    assert_eq!(calls.len(), 1);
    assert_eq!(calls[0].name, "Write");
    assert!(
        arg(&calls[0], "content")
            .as_str()
            .unwrap()
            .contains("<｜DSML｜invoke name=\"Fake\">"),
        "value content must survive verbatim"
    );
}

#[test]
fn full_dsml_block_inside_code_fence_does_not_execute() {
    let sample = "Example:\n```xml\n<｜DSML｜tool_calls><｜DSML｜invoke name=\"Bash\"><｜DSML｜parameter name=\"command\">echo fenced</｜DSML｜parameter></｜DSML｜invoke></｜DSML｜tool_calls>\n```\ndone";
    let extraction = extract_and_clean_dsml_detailed(sample);
    assert_eq!(
        extraction.cleaned_text, sample,
        "fenced DSML must survive byte-for-byte"
    );
    assert!(
        extraction.calls.is_empty(),
        "fenced block must not yield tool calls"
    );
    assert!(!extraction.malformed_intent);
}

#[test]
fn dsml_open_marker_inside_inline_code_does_not_execute() {
    let sample = "Document the literal `<｜DSML｜tool_calls>` marker in prose.";
    let extraction = extract_and_clean_dsml_detailed(sample);
    assert_eq!(extraction.cleaned_text, sample);
    assert!(extraction.calls.is_empty());
    assert!(!extraction.malformed_intent);
}

#[test]
fn dsml_open_marker_inside_double_quoted_string_does_not_execute() {
    // A single opening quote before the marker and a single closing quote
    // after it: while the quote is open the marker must be inert.
    let sample = "Config value: \"quoted <｜DSML｜tool_calls> payload\" stays text.";
    let extraction = extract_and_clean_dsml_detailed(sample);
    assert_eq!(extraction.cleaned_text, sample);
    assert!(extraction.calls.is_empty());
    assert!(!extraction.malformed_intent);
}

#[test]
fn leak_tags_inside_quotes_and_fences_are_preserved_by_strip() {
    let quoted = "Say \"</think> oops\" out loud.";
    assert_eq!(strip_system_tags(quoted), quoted);

    let fenced = "```\n<think>not a leak</think>\n```";
    assert_eq!(strip_system_tags(fenced), fenced);

    let inline = "Inline `<｜DSML｜parameter>` stays visible.";
    assert_eq!(strip_system_tags(inline), inline);
}

#[test]
fn truncated_parameter_close_marks_block_malformed_and_verbatim() {
    let sample = "<｜DSML｜tool_calls><｜DSML｜invoke name=\"Read\"><｜DSML｜parameter name=\"path\">src/lib.rs</｜DSML｜invoke></｜DSML｜tool_calls>";
    let extraction = extract_and_clean_dsml_detailed(sample);
    assert!(
        extraction.malformed_intent,
        "missing parameter close is truncated"
    );
    assert!(
        extraction.calls.is_empty(),
        "truncated block must not execute"
    );
    assert_eq!(
        extraction.cleaned_text, sample,
        "block evidence must be preserved"
    );
}

#[test]
fn malformed_dsml_intent_skips_the_tag_stripping_pass() {
    // When a block is malformed the cleaned text is returned untouched so
    // the retry/diagnostics layer can inspect the raw evidence; leaked
    // tags elsewhere in the message stay in place by design.
    let sample = "<think>leak</think> <｜DSML｜tool_calls><｜DSML｜invoke name=\"A\">";
    let extraction = extract_and_clean_dsml_detailed(sample);
    assert!(extraction.malformed_intent);
    assert_eq!(extraction.cleaned_text, sample);
    assert!(extraction.calls.is_empty());
}

#[test]
fn invalid_json_parameter_values_fall_back_to_raw_string() {
    let sample = "<｜DSML｜tool_calls><｜DSML｜invoke name=\"Edit\"><｜DSML｜parameter name=\"edits\">{broken object}</｜DSML｜parameter><｜DSML｜parameter name=\"list\">[not, valid]</｜DSML｜parameter></｜DSML｜invoke></｜DSML｜tool_calls>";
    let calls = parse_dsml_tool_calls(sample);
    assert_eq!(calls.len(), 1);
    // Brace/bracket-shaped but invalid JSON degrades to a string value;
    // it must never become `null` or abort the scan.
    assert_eq!(arg(&calls[0], "edits"), "{broken object}");
    assert_eq!(arg(&calls[0], "list"), "[not, valid]");
}

#[test]
fn nested_json_parameter_values_parse_as_json() {
    let sample = "<｜DSML｜tool_calls><｜DSML｜invoke name=\"Write\"><｜DSML｜parameter name=\"meta\">{\"inner\":{\"k\":1}}</｜DSML｜parameter></｜DSML｜invoke></｜DSML｜tool_calls>";
    let calls = parse_dsml_tool_calls(sample);
    assert_eq!(calls.len(), 1);
    assert_eq!(arg(&calls[0], "meta")["inner"]["k"], 1);
}

#[test]
fn invoke_tag_with_extra_attributes_still_resolves_name() {
    let sample = "<｜DSML｜tool_calls><｜DSML｜invoke name=\"Bash\" id=\"call_7\"><｜DSML｜parameter name=\"command\">true</｜DSML｜parameter></｜DSML｜invoke></｜DSML｜tool_calls>";
    let calls = parse_dsml_tool_calls(sample);
    assert_eq!(calls.len(), 1);
    assert_eq!(calls[0].name, "Bash");
}

#[test]
fn fenced_broken_then_complete_invocation_pair_never_executes() {
    let sample = "Docs:\n```xml\n<｜DSML｜tool_calls><｜DSML｜invoke name=\"Ghost\"><｜DSML｜invoke name=\"Read\"><｜DSML｜parameter name=\"file_path\">secret.txt</｜DSML｜parameter></｜DSML｜invoke></｜DSML｜tool_calls>\n```\nend";
    let extraction = extract_and_clean_dsml_detailed(sample);
    assert_eq!(
        extraction.cleaned_text, sample,
        "fenced DSML must survive byte-for-byte"
    );
    assert!(
        extraction.calls.is_empty(),
        "fenced broken/complete pair must not yield tool calls"
    );
    assert!(!extraction.malformed_intent);
}
