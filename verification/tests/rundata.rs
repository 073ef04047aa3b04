use serde_json::Value;
use zeroclaw::rundata::{RunData, SopStepResult, SopStepStatus};
use zeroclaw::step_output::{
    choose_reading, fenced_block_body, first_balanced_object, parse_step_output_value,
};

fn json(text: &str) -> Value {
    serde_json::from_str(text).unwrap()
}

fn result(step_number: u32, status: SopStepStatus, output: &str) -> SopStepResult {
    SopStepResult {
        effective_agent: None,
        step_number,
        status,
        output: output.into(),
        started_at: "now".into(),
        completed_at: Some("now".into()),
        tool_calls: Vec::new(),
    }
}

#[test]
fn run_data_parses_json_outputs() {
    let mut data = RunData::default();
    data.insert_output_str(1, r#"{"ok":true}"#);

    assert_eq!(data.outputs[&1]["ok"], true);
}

#[test]
fn run_data_keeps_plain_outputs_as_strings() {
    let mut data = RunData::default();
    data.insert_output_str(2, "plain text");

    assert_eq!(data.outputs[&2], Value::String("plain text".into()));
}

#[test]
fn parses_fenced_json_wrapped_in_prose() {
    // The shape that a chat-tuned model commonly emits.
    let raw = "The run has ended — final status is **failed**.\n\n\
        ```json\n{\n  \"status\": \"ok\",\n  \"word_count\": 738\n}\n```\n\n\
        Summary: the run stopped safely at Step 1.";
    let value = parse_step_output_value(raw);
    assert_eq!(value["status"], "ok");
    assert_eq!(value["word_count"], 738);
}

#[test]
fn parses_bare_fenced_json_without_lang_tag() {
    let raw = "```\n{\"outcome\": \"stopped\"}\n```";
    assert_eq!(parse_step_output_value(raw)["outcome"], "stopped");
}

#[test]
fn parses_object_embedded_in_prose_without_fences() {
    let raw = "Here is the result: {\"preferences_loaded\": true} — done.";
    assert_eq!(
        parse_step_output_value(raw)["preferences_loaded"],
        Value::Bool(true)
    );
}

#[test]
fn braces_inside_strings_do_not_unbalance_extraction() {
    let raw = "note: {\"summary\": \"contains a } brace and { another\"} tail";
    let value = parse_step_output_value(raw);
    assert_eq!(value["summary"], "contains a } brace and { another");
}

#[test]
fn non_json_prose_still_falls_back_to_string() {
    let raw = "I could not complete the extraction step.";
    assert_eq!(parse_step_output_value(raw), Value::String(raw.into()));
}

#[test]
fn run_data_ignores_failed_and_skipped_outputs() {
    let results = vec![
        SopStepResult {
            effective_agent: None,
            step_number: 1,
            status: SopStepStatus::Failed,
            output: r#"{"failed":true}"#.into(),
            started_at: "now".into(),
            completed_at: Some("now".into()),
            tool_calls: Vec::new(),
        },
        SopStepResult {
            effective_agent: None,
            step_number: 2,
            status: SopStepStatus::Skipped,
            output: r#"{"skipped":true}"#.into(),
            started_at: "now".into(),
            completed_at: Some("now".into()),
            tool_calls: Vec::new(),
        },
        SopStepResult {
            effective_agent: None,
            step_number: 3,
            status: SopStepStatus::Completed,
            output: r#"{"ok":true}"#.into(),
            started_at: "now".into(),
            completed_at: Some("now".into()),
            tool_calls: Vec::new(),
        },
    ];

    let data = RunData::from_step_results(&results);

    assert!(!data.outputs.contains_key(&1));
    assert!(!data.outputs.contains_key(&2));
    assert_eq!(data.outputs[&3]["ok"], true);
}

#[test]
fn output_that_is_json_already_is_kept() {
    assert_eq!(
        parse_step_output_value("  \"```\\n{}\\n```\"  "),
        Value::String("```\n{}\n```".into())
    );
    assert_eq!(parse_step_output_value("\n[1, {\"a\": 2}]\n"), json("[1,{\"a\":2}]"));
    assert_eq!(parse_step_output_value("null"), Value::Null);
}

#[test]
fn the_raw_text_of_unreadable_output_keeps_its_white_space() {
    assert_eq!(
        parse_step_output_value("  nothing {broken here \n"),
        Value::String("  nothing {broken here \n".into())
    );
    assert_eq!(parse_step_output_value(""), Value::String(String::new()));
}

#[test]
fn a_fence_that_holds_no_json_gives_way_to_an_object() {
    let raw = "```\nnot json\n```\nthen {\"a\": 1}";
    assert_eq!(parse_step_output_value(raw), json("{\"a\":1}"));
}

#[test]
fn fences_are_cut_at_their_lines() {
    assert_eq!(fenced_block_body("a ```json x\nbody\n``` b"), Some("body\n"));
    assert_eq!(fenced_block_body("```\n```"), Some(""));
    assert_eq!(fenced_block_body("```\nbody"), None);
    assert_eq!(fenced_block_body("```json"), None);
    assert_eq!(fenced_block_body("no fence"), None);
    assert_eq!(fenced_block_body("é```\nü\n```ß"), Some("ü\n"));
}

#[test]
fn objects_are_cut_at_their_braces() {
    assert_eq!(
        first_balanced_object("x {\"a\": {\"b\": \"}\\\"}\"}} {}"),
        Some("{\"a\": {\"b\": \"}\\\"}\"}}")
    );
    assert_eq!(first_balanced_object("é {ü} ß"), Some("{ü}"));
    assert_eq!(first_balanced_object("} {"), None);
    assert_eq!(first_balanced_object("use { to open: {\"a\":1}"), Some("{\"a\":1}"));
    assert_eq!(first_balanced_object("{\"{ {} {x}"), Some("{}"));
    assert_eq!(first_balanced_object("{{{"), None);
    assert_eq!(first_balanced_object("{\"open: }"), None);
    assert_eq!(first_balanced_object(""), None);
}

#[test]
fn a_brace_that_is_never_closed_hides_no_answer() {
    let raw = "use { to open: {\"a\":1}";
    assert_eq!(parse_step_output_value(raw), json("{\"a\":1}"));
}

#[test]
fn readings_are_tried_in_their_order() {
    let a = || Some(Value::from(1));
    let b = || Some(Value::from(2));
    let c = || Some(Value::from(3));
    assert_eq!(choose_reading("raw", a(), b(), c()), Value::from(1));
    assert_eq!(choose_reading("raw", None, b(), c()), Value::from(2));
    assert_eq!(choose_reading("raw", None, None, c()), Value::from(3));
    assert_eq!(choose_reading("raw", None, None, None), Value::from("raw"));
}

#[test]
fn merging_runs_is_like_one_run() {
    let first = vec![
        result(1, SopStepStatus::Completed, "{\"n\":1}"),
        result(2, SopStepStatus::Completed, "old"),
    ];
    let second = vec![
        result(2, SopStepStatus::Completed, "new"),
        result(2, SopStepStatus::Failed, "lost"),
        result(3, SopStepStatus::Completed, "[3]"),
    ];
    let mut merged = RunData::from_step_results(&first);
    merged.merge(RunData::from_step_results(&second));

    let mut both = first.clone();
    both.extend(second);
    assert_eq!(merged, RunData::from_step_results(&both));
    assert_eq!(merged.outputs[&1], json("{\"n\":1}"));
    assert_eq!(merged.outputs[&2], Value::from("new"));
    assert_eq!(merged.outputs[&3], json("[3]"));
    assert_eq!(merged.outputs.len(), 3);
}

#[test]
fn the_payload_holds_every_step_under_its_numeral() {
    let mut data = RunData::default();
    assert_eq!(data.to_payload(), json("{\"steps\":{}}"));
    data.insert_output(10, Value::from("ten"));
    data.insert_output(2, json("{\"a\":[true]}"));
    data.insert_output(u32::MAX, Value::Null);
    assert_eq!(
        data.to_payload(),
        json("{\"steps\":{\"10\":\"ten\",\"2\":{\"a\":[true]},\"4294967295\":null}}")
    );
}

#[test]
fn paths_lead_to_what_was_recorded() {
    let mut data = RunData::default();
    data.insert_output(1, json("{\"ok\":true,\"list\":[7,8],\"x.y\":{\"z/w\":5}}"));
    assert_eq!(data.get_path("$.steps.1.ok"), Some(Value::Bool(true)));
    assert_eq!(data.get_path("/steps/1/ok"), Some(Value::Bool(true)));
    assert_eq!(data.get_path("$.steps.1"), Some(data.outputs[&1].clone()));
    assert_eq!(data.get_path("$.steps.1.list.1"), Some(Value::from(8)));
    assert_eq!(data.get_path("/steps/1/x.y/z~1w"), Some(Value::from(5)));
    assert_eq!(data.get_path("$.steps.1.list.01"), None);
    assert_eq!(data.get_path("/steps/1/list/2"), None);
    assert_eq!(data.get_path("$.steps.1.ok.deeper"), None);
    assert_eq!(data.get_path("$."), None);
    assert_eq!(data.get_path("$.steps.1.missing"), None);
    assert_eq!(data.get_path("$.steps.2"), None);
    assert_eq!(data.get_path("steps.1"), None);
    assert_eq!(data.get_path(""), None);
}
