use codexhalo::json::{JsonMember, JsonNumber, JsonValue};
use codexhalo::rollout::{aggregate_rollouts, aggregate_with_days, chronological_order, matches_day, rollout_record, is_rollout_path, parse_usage, CalendarDay, RolloutRecord, UNCLASSIFIED_MODEL};
use codexhalo::usage::TokenUsage;

fn to_json(v: &serde_json::Value) -> JsonValue {
    match v {
        serde_json::Value::Null => JsonValue::Null,
        serde_json::Value::Bool(b) => JsonValue::Bool(*b),
        serde_json::Value::Number(n) => JsonValue::Number(JsonNumber { as_u64: n.as_u64(), as_i64: n.as_i64() }),
        serde_json::Value::String(s) => JsonValue::String(s.clone()),
        serde_json::Value::Array(items) => JsonValue::Array(items.iter().map(to_json).collect()),
        serde_json::Value::Object(map) => JsonValue::Object(
            map.iter().map(|(k, v)| JsonMember { key: k.clone(), value: to_json(v) }).collect(),
        ),
    }
}

/// The records of a rollout file, as the app reads them: lines that are not JSON are left out.
fn records(lines: &[&str]) -> Vec<RolloutRecord> {
    lines.iter().filter_map(|line| rollout_record(line)).collect()
}

fn day() -> CalendarDay {
    CalendarDay { year: 2026, month: 8, day: 23 }
}

#[test]
fn reads_authoritative_top_level_turn_context() {
    let files = vec![records(&[
        r#"{"timestamp":"2026-08-23T12:00:00Z","type":"turn_context","payload":{"model":"gpt-5.6-sol"}}"#,
        r#"{"timestamp":"2026-08-23T12:01:00Z","type":"event_msg","payload":{"type":"token_count","info":{"total_token_usage":{"input_tokens":100,"cached_input_tokens":40,"output_tokens":20,"reasoning_output_tokens":5,"total_tokens":120},"last_token_usage":{"input_tokens":100,"cached_input_tokens":40,"output_tokens":20,"reasoning_output_tokens":5,"total_tokens":120}}}}"#,
    ])];
    let usage = aggregate_rollouts(&files, day()).unwrap();
    assert_eq!(usage.total, 120);
    assert_eq!(usage.by_model.get("gpt-5.6-sol").unwrap().cached_input, Some(40));
    assert_eq!(usage.by_model.get("gpt-5.6-sol").unwrap().reasoning, Some(5));
}

#[test]
fn attributes_cumulative_intervals_across_model_switches_without_a_whitelist() {
    let files = vec![records(&[
        r#"{"timestamp":"2026-08-23T12:00:00Z","type":"turn_context","payload":{"model":"gpt-5.6-sol"}}"#,
        r#"{"timestamp":"2026-08-23T12:01:00Z","type":"event_msg","payload":{"type":"token_count","info":{"total_token_usage":{"input_tokens":100,"cached_input_tokens":40,"output_tokens":20,"reasoning_output_tokens":5,"total_tokens":120}}}}"#,
        r#"{"timestamp":"2026-08-23T12:02:00Z","type":"turn_context","payload":{"model":"gpt-5.6-terra"}}"#,
        r#"{"timestamp":"2026-08-23T12:03:00Z","type":"event_msg","payload":{"type":"token_count","info":{"total_token_usage":{"input_tokens":150,"cached_input_tokens":60,"output_tokens":30,"reasoning_output_tokens":7,"total_tokens":180}}}}"#,
        r#"{"timestamp":"2026-08-23T12:04:00Z","type":"turn_context","payload":{"model":"gpt-5.5"}}"#,
        r#"{"timestamp":"2026-08-23T12:05:00Z","type":"event_msg","payload":{"type":"token_count","info":{"total_token_usage":{"input_tokens":200,"cached_input_tokens":80,"output_tokens":50,"reasoning_output_tokens":10,"total_tokens":250}}}}"#,
        r#"{"timestamp":"2026-08-23T12:06:00Z","type":"turn_context","payload":{"model":"gpt-5.7-example"}}"#,
        r#"{"timestamp":"2026-08-23T12:07:00Z","type":"event_msg","payload":{"type":"token_count","info":{"total_token_usage":{"input_tokens":250,"cached_input_tokens":100,"output_tokens":70,"reasoning_output_tokens":12,"total_tokens":320}}}}"#,
    ])];
    let usage = aggregate_rollouts(&files, day()).unwrap();
    assert_eq!(usage.by_model.get("gpt-5.6-sol").unwrap().total, 120);
    assert_eq!(usage.by_model.get("gpt-5.6-terra").unwrap().total, 60);
    assert_eq!(usage.by_model.get("gpt-5.5").unwrap().total, 70);
    assert_eq!(usage.by_model.get("gpt-5.7-example").unwrap().total, 70);
    assert_eq!(usage.by_model.get("gpt-5.7-example").unwrap().cached_input, Some(20));
    assert_eq!(usage.total, 320);
}

#[test]
fn duplicate_cumulative_snapshots_are_not_double_counted() {
    let files = vec![records(&[
        r#"{"timestamp":"2026-08-23T12:00:00Z","type":"turn_context","payload":{"model":"gpt-5.6-sol"}}"#,
        r#"{"timestamp":"2026-08-23T12:01:00Z","type":"event_msg","payload":{"type":"token_count","info":{"total_token_usage":{"input_tokens":80,"cached_input_tokens":20,"output_tokens":20,"total_tokens":100}}}}"#,
        r#"{"timestamp":"2026-08-23T12:02:00Z","type":"event_msg","payload":{"type":"token_count","info":{"total_token_usage":{"input_tokens":80,"cached_input_tokens":20,"output_tokens":20,"total_tokens":100}}}}"#,
    ])];
    let usage = aggregate_rollouts(&files, day()).unwrap();
    assert_eq!(usage.total, 100);
    assert_eq!(usage.by_model.get("gpt-5.6-sol").unwrap().input, 80);
}

#[test]
fn resumed_session_uses_the_prior_snapshot_as_its_baseline() {
    let files = vec![records(&[
        r#"{"timestamp":"2026-08-22T12:00:00Z","type":"turn_context","payload":{"model":"gpt-5.6-sol"}}"#,
        r#"{"timestamp":"2026-08-22T12:01:00Z","type":"event_msg","payload":{"type":"token_count","info":{"total_token_usage":{"input_tokens":80,"cached_input_tokens":20,"output_tokens":20,"total_tokens":100}}}}"#,
        r#"{"timestamp":"2026-08-23T12:01:00Z","type":"event_msg","payload":{"type":"token_count","info":{"total_token_usage":{"input_tokens":110,"cached_input_tokens":30,"output_tokens":30,"total_tokens":140}}}}"#,
    ])];
    let usage = aggregate_rollouts(&files, day()).unwrap();
    assert_eq!(usage.by_model.get("gpt-5.6-sol").unwrap().input, 30);
    assert_eq!(usage.by_model.get("gpt-5.6-sol").unwrap().cached_input, Some(10));
    assert_eq!(usage.by_model.get("gpt-5.6-sol").unwrap().output, 10);
    assert_eq!(usage.total, 40);
}

#[test]
fn counter_reset_starts_a_new_cumulative_epoch() {
    let files = vec![records(&[
        r#"{"timestamp":"2026-08-23T12:00:00Z","type":"turn_context","payload":{"model":"gpt-5.6-terra"}}"#,
        r#"{"timestamp":"2026-08-23T12:01:00Z","type":"event_msg","payload":{"type":"token_count","info":{"total_token_usage":{"input_tokens":80,"cached_input_tokens":20,"output_tokens":20,"reasoning_output_tokens":4,"total_tokens":100}}}}"#,
        r#"{"timestamp":"2026-08-23T12:02:00Z","type":"event_msg","payload":{"type":"token_count","info":{"total_token_usage":{"input_tokens":10,"cached_input_tokens":2,"output_tokens":5,"reasoning_output_tokens":1,"total_tokens":15}}}}"#,
    ])];
    let usage = aggregate_rollouts(&files, day()).unwrap();
    assert_eq!(usage.total, 115);
    assert_eq!(usage.by_model.get("gpt-5.6-terra").unwrap().cached_input, Some(22));
    assert_eq!(usage.by_model.get("gpt-5.6-terra").unwrap().reasoning, Some(5));
}

#[test]
fn genuinely_missing_model_is_unclassified() {
    let files = vec![records(&[
        r#"{"timestamp":"2026-08-23T12:01:00Z","type":"event_msg","payload":{"type":"token_count","info":{"total_token_usage":{"input_tokens":40,"output_tokens":10,"total_tokens":50}}}}"#,
    ])];
    let usage = aggregate_rollouts(&files, day()).unwrap();
    assert_eq!(usage.by_model.get(UNCLASSIFIED_MODEL).unwrap().total, 50);
    assert_eq!(usage.by_model.get(UNCLASSIFIED_MODEL).unwrap().cached_input, None);
    assert_eq!(usage.by_model.get(UNCLASSIFIED_MODEL).unwrap().reasoning, None);
}

#[test]
fn supports_legacy_nested_turn_context_and_exact_duplicate_last_usage() {
    let files = vec![records(&[
        "not json",
        r#"{"timestamp":"2026-08-23T12:00:00Z","payload":{"type":"turn_context","model":"legacy-codex"}}"#,
        r#"{"timestamp":"2026-08-23T12:01:00Z","payload":{"type":"token_count","last_token_usage":{"input_tokens":30,"output_tokens":5,"total_tokens":35}}}"#,
        r#"{"timestamp":"2026-08-23T12:01:00Z","payload":{"type":"token_count","last_token_usage":{"input_tokens":30,"output_tokens":5,"total_tokens":35}}}"#,
    ])];
    let usage = aggregate_rollouts(&files, day()).unwrap();
    assert_eq!(usage.by_model.get("legacy-codex").unwrap().total, 35);
}

#[test]
fn each_thread_keeps_independent_model_and_counter_state() {
    let parent = records(&[
        r#"{"timestamp":"2026-08-23T12:00:00Z","type":"turn_context","payload":{"model":"gpt-5.5"}}"#,
        r#"{"timestamp":"2026-08-23T12:01:00Z","type":"event_msg","payload":{"type":"token_count","info":{"total_token_usage":{"input_tokens":70,"output_tokens":10,"total_tokens":80}}}}"#,
    ]);
    let subagent = records(&[
        r#"{"timestamp":"2026-08-23T12:00:30Z","type":"turn_context","payload":{"model":"gpt-5.6-terra"}}"#,
        r#"{"timestamp":"2026-08-23T12:01:30Z","type":"event_msg","payload":{"type":"token_count","info":{"total_token_usage":{"input_tokens":40,"output_tokens":10,"total_tokens":50}}}}"#,
    ]);
    let usage = aggregate_rollouts(&vec![parent, subagent], day()).unwrap();
    assert_eq!(usage.by_model.get("gpt-5.5").unwrap().total, 80);
    assert_eq!(usage.by_model.get("gpt-5.6-terra").unwrap().total, 50);
    assert_eq!(usage.total, 130);
}

#[test]
fn aggregates_vscode_cli_and_archived_sessions_from_shared_codex_home() {
    let vscode = records(&[
        r#"{"timestamp":"2026-08-23T12:00:00Z","ordinal":0,"type":"session_meta","payload":{"id":"thread-vscode","session_id":"session-vscode","source":"vscode"}}"#,
        r#"{"timestamp":"2026-08-23T12:00:01Z","ordinal":1,"type":"turn_context","payload":{"model":"gpt-5.6-sol"}}"#,
        r#"{"timestamp":"2026-08-23T12:00:02Z","ordinal":2,"type":"event_msg","payload":{"type":"token_count","info":{"total_token_usage":{"input_tokens":80,"output_tokens":20,"total_tokens":100}}}}"#,
    ]);
    let cli = records(&[
        r#"{"timestamp":"2026-08-23T12:00:00.500Z","ordinal":0,"type":"session_meta","payload":{"id":"thread-cli","session_id":"session-cli","source":"cli"}}"#,
        r#"{"timestamp":"2026-08-23T12:00:01.500Z","ordinal":1,"type":"turn_context","payload":{"model":"gpt-5.6-sol"}}"#,
        r#"{"timestamp":"2026-08-23T12:00:02.500Z","ordinal":2,"type":"event_msg","payload":{"type":"token_count","info":{"total_token_usage":{"input_tokens":40,"output_tokens":10,"total_tokens":50}}}}"#,
    ]);
    let archived = records(&[
        r#"{"timestamp":"2026-08-23T12:00:03Z","ordinal":0,"type":"session_meta","payload":{"id":"thread-cli-2","source":"cli"}}"#,
        r#"{"timestamp":"2026-08-23T12:00:04Z","ordinal":1,"type":"turn_context","payload":{"model":"gpt-5.5"}}"#,
        r#"{"timestamp":"2026-08-23T12:00:05Z","ordinal":2,"type":"event_msg","payload":{"type":"token_count","info":{"total_token_usage":{"input_tokens":25,"output_tokens":5,"total_tokens":30}}}}"#,
    ]);
    // Paths in sorted order: archived_sessions/..., sessions/.../cli.jsonl, sessions/.../vscode.jsonl.
    let usage = aggregate_rollouts(&vec![archived, cli, vscode], day()).unwrap();
    assert_eq!(usage.by_model.get("gpt-5.6-sol").unwrap().total, 150);
    assert_eq!(usage.by_model.get("gpt-5.5").unwrap().total, 30);
    assert_eq!(usage.total, 180);
}

fn concurrent_session(thread: &str, source: &str) -> Vec<RolloutRecord> {
    let meta = format!(
        r#"{{"timestamp":"2026-08-23T12:00:00Z","ordinal":0,"type":"session_meta","payload":{{"id":"{}","source":"{}"}}}}"#,
        thread, source
    );
    records(&[
        meta.as_str(),
        r#"{"timestamp":"2026-08-23T12:00:01Z","ordinal":1,"type":"turn_context","payload":{"model":"gpt-5.6-sol"}}"#,
        r#"{"timestamp":"2026-08-23T12:00:02Z","ordinal":2,"type":"event_msg","payload":{"type":"token_count","info":{"total_token_usage":{"input_tokens":80,"output_tokens":20,"total_tokens":100}}}}"#,
    ])
}

#[test]
fn identical_snapshots_in_unrelated_concurrent_sessions_both_count() {
    let files = vec![concurrent_session("thread-cli", "cli"), concurrent_session("thread-vscode", "vscode")];
    let usage = aggregate_rollouts(&files, day()).unwrap();
    assert_eq!(usage.by_model.get("gpt-5.6-sol").unwrap().total, 200);
}

#[test]
fn duplicate_rollout_representations_are_counted_once() {
    let text = [
        r#"{"timestamp":"2026-08-23T12:00:00Z","ordinal":0,"type":"session_meta","payload":{"id":"same-thread","source":"cli"}}"#,
        r#"{"timestamp":"2026-08-23T12:00:01Z","ordinal":1,"type":"turn_context","payload":{"model":"gpt-5.6-sol"}}"#,
        r#"{"timestamp":"2026-08-23T12:00:02Z","ordinal":2,"type":"event_msg","payload":{"type":"token_count","info":{"total_token_usage":{"input_tokens":80,"output_tokens":20,"total_tokens":100}}}}"#,
    ];
    let usage = aggregate_rollouts(&vec![records(&text), records(&text)], day()).unwrap();
    assert_eq!(usage.total, 100);
}

#[test]
fn excludes_inherited_subagent_prefix_but_counts_child_interval() {
    let parent = records(&[
        r#"{"timestamp":"2026-08-23T12:00:00Z","ordinal":0,"type":"session_meta","payload":{"id":"parent","source":"cli"}}"#,
        r#"{"timestamp":"2026-08-23T12:00:01Z","ordinal":1,"type":"turn_context","payload":{"model":"gpt-5.6-sol"}}"#,
        r#"{"timestamp":"2026-08-23T12:00:02Z","ordinal":2,"type":"event_msg","payload":{"type":"token_count","info":{"total_token_usage":{"input_tokens":80,"output_tokens":20,"total_tokens":100}}}}"#,
    ]);
    let child = records(&[
        r#"{"timestamp":"2026-08-23T12:00:00.500Z","ordinal":0,"type":"session_meta","payload":{"id":"child","parent_thread_id":"parent","source":{"subAgent":{"threadSpawn":{"parent_thread_id":"parent"}}},"subagent_history_start_ordinal":3}}"#,
        r#"{"timestamp":"2026-08-23T12:00:01Z","ordinal":1,"type":"turn_context","payload":{"model":"gpt-5.6-sol"}}"#,
        r#"{"timestamp":"2026-08-23T12:00:02Z","ordinal":2,"type":"event_msg","payload":{"type":"token_count","info":{"total_token_usage":{"input_tokens":80,"output_tokens":20,"total_tokens":100}}}}"#,
        r#"{"timestamp":"2026-08-23T12:00:03Z","ordinal":3,"type":"turn_context","payload":{"model":"gpt-5.6-terra"}}"#,
        r#"{"timestamp":"2026-08-23T12:00:04Z","ordinal":4,"type":"event_msg","payload":{"type":"token_count","info":{"total_token_usage":{"input_tokens":110,"output_tokens":30,"total_tokens":140}}}}"#,
    ]);
    let usage = aggregate_rollouts(&vec![parent, child], day()).unwrap();
    assert_eq!(usage.by_model.get("gpt-5.6-sol").unwrap().total, 100);
    assert_eq!(usage.by_model.get("gpt-5.6-terra").unwrap().total, 40);
    assert_eq!(usage.total, 140);
}

#[test]
fn missing_root_is_empty_and_safe() {
    let usage = aggregate_rollouts(&Vec::new(), day()).unwrap();
    let empty = TokenUsage::default();
    assert_eq!((usage.input, usage.cached_input, usage.output, usage.reasoning, usage.total), (empty.input, empty.cached_input, empty.output, empty.reasoning, empty.total));
    assert!(usage.by_model.is_empty());
}

#[test]
fn records_off_the_day_advance_the_baseline_without_counting() {
    let file = records(&[
        r#"{"timestamp":"2026-08-23T12:00:00Z","type":"turn_context","payload":{"model":"m"}}"#,
        r#"{"timestamp":"2026-08-23T12:01:00Z","type":"event_msg","payload":{"type":"token_count","info":{"total_token_usage":{"input_tokens":10,"output_tokens":1,"total_tokens":11}}}}"#,
        r#"{"timestamp":"2026-08-23T12:02:00Z","type":"event_msg","payload":{"type":"token_count","info":{"total_token_usage":{"input_tokens":30,"output_tokens":3,"total_tokens":33}}}}"#,
    ]);
    let usage = aggregate_with_days(&vec![file], &vec![vec![true, false, true]]).unwrap();
    assert_eq!(usage.total, 22);
    assert_eq!(usage.input, 20);
}

#[test]
fn usage_objects_read_alternative_names_and_raise_the_total() {
    let v = to_json(&serde_json::from_str(r#"{"input":7,"cached_input":3,"output":5,"reasoning_tokens":2,"total":4}"#).unwrap());
    let u = parse_usage(&v).unwrap();
    assert_eq!((u.input, u.cached_input, u.output, u.reasoning, u.total), (7, Some(3), 5, Some(2), 12));
    let overflow = to_json(&serde_json::from_str(r#"{"input_tokens":18446744073709551615,"output_tokens":1}"#).unwrap());
    assert!(parse_usage(&overflow).is_none());
}

#[test]
fn overflowing_counters_fail_the_aggregation() {
    let file = records(&[
        r#"{"timestamp":"2026-08-23T12:01:00Z","type":"event_msg","payload":{"type":"token_count","info":{"total_token_usage":{"input_tokens":18446744073709551615,"output_tokens":1}}}}"#,
    ]);
    assert!(aggregate_with_days(&vec![file], &vec![vec![true]]).is_err());
}

#[test]
fn rollout_file_names() {
    assert!(is_rollout_path("rollout-1.jsonl"));
    assert!(is_rollout_path("rollout-1.jsonl.zst"));
    assert!(!is_rollout_path("rollout-1.json"));
    assert!(!is_rollout_path("notes.txt"));
    assert!(codexhalo::rollout::is_compressed_rollout("a.jsonl.zst"));
    assert!(!codexhalo::rollout::is_compressed_rollout("a.jsonl"));
}

#[test]
fn model_ids_are_trimmed_and_empty_ones_ignored() {
    let file = records(&[
        r#"{"timestamp":"2026-08-23T12:00:00Z","type":"turn_context","payload":{"model":"  gpt-5.5\t"}}"#,
        r#"{"timestamp":"2026-08-23T12:00:30Z","type":"turn_context","payload":{"model":"   "}}"#,
        r#"{"timestamp":"2026-08-23T12:01:00Z","type":"event_msg","payload":{"type":"token_count","info":{"total_token_usage":{"input_tokens":4,"output_tokens":1,"total_tokens":5}}}}"#,
    ]);
    let usage = aggregate_with_days(&vec![file], &vec![vec![true, true, true]]).unwrap();
    assert_eq!(usage.by_model.get("gpt-5.5").unwrap().total, 5);
}

fn first_part_of_thread() -> Vec<RolloutRecord> {
    records(&[
        r#"{"timestamp":"2026-08-22T12:00:00Z","ordinal":0,"type":"session_meta","payload":{"id":"t1"}}"#,
        r#"{"timestamp":"2026-08-22T12:00:01Z","ordinal":1,"type":"turn_context","payload":{"model":"gpt-5.6-sol"}}"#,
        r#"{"timestamp":"2026-08-22T12:00:02Z","ordinal":2,"type":"event_msg","payload":{"type":"token_count","info":{"total_token_usage":{"input_tokens":80,"output_tokens":20,"total_tokens":100}}}}"#,
    ])
}

fn resumed_part_of_thread() -> Vec<RolloutRecord> {
    records(&[
        r#"{"timestamp":"2026-08-23T12:00:00Z","ordinal":3,"type":"session_meta","payload":{"id":"t1"}}"#,
        r#"{"timestamp":"2026-08-23T12:00:01Z","ordinal":4,"type":"turn_context","payload":{"model":"gpt-5.6-sol"}}"#,
        r#"{"timestamp":"2026-08-23T12:00:02Z","ordinal":5,"type":"event_msg","payload":{"type":"token_count","info":{"total_token_usage":{"input_tokens":110,"output_tokens":30,"total_tokens":140}}}}"#,
    ])
}

#[test]
fn a_thread_resumed_in_a_later_file_counts_only_new_work() {
    // Given in either order, the files are read in the order in which they were written.
    let in_order = vec![first_part_of_thread(), resumed_part_of_thread()];
    let reversed = vec![resumed_part_of_thread(), first_part_of_thread()];
    for files in [in_order, reversed] {
        let usage = aggregate_rollouts(&files, day()).unwrap();
        assert_eq!(usage.total, 40);
        assert_eq!(usage.by_model.get("gpt-5.6-sol").unwrap().total, 40);
        assert_eq!(usage.by_model.get("gpt-5.6-sol").unwrap().input, 30);
    }
    // Read with the day flags given, in the order given, the baseline also carries over.
    let files = vec![first_part_of_thread(), resumed_part_of_thread()];
    let usage = aggregate_with_days(&files, &vec![vec![false; 3], vec![true; 3]]).unwrap();
    assert_eq!(usage.total, 40);
}

#[test]
fn a_different_thread_in_a_later_file_starts_from_nothing() {
    let first = records(&[
        r#"{"timestamp":"2026-08-23T10:00:00Z","type":"session_meta","payload":{"id":"t1"}}"#,
        r#"{"timestamp":"2026-08-23T10:00:02Z","type":"event_msg","payload":{"type":"token_count","info":{"total_token_usage":{"input_tokens":80,"output_tokens":20,"total_tokens":100}}}}"#,
    ]);
    let second = records(&[
        r#"{"timestamp":"2026-08-23T11:00:00Z","type":"session_meta","payload":{"id":"t2"}}"#,
        r#"{"timestamp":"2026-08-23T11:00:02Z","type":"event_msg","payload":{"type":"token_count","info":{"total_token_usage":{"input_tokens":110,"output_tokens":30,"total_tokens":140}}}}"#,
    ]);
    let usage = aggregate_rollouts(&vec![first, second], day()).unwrap();
    assert_eq!(usage.total, 240);
}

#[test]
fn files_are_ordered_by_their_first_record() {
    let at = |ts: &str, ordinal: u64| records(&[format!(r#"{{"timestamp":"{}","ordinal":{},"type":"turn_context","payload":{{}}}}"#, ts, ordinal).as_str()]);
    let files = vec![
        at("2026-08-23T12:00:00Z", 5),
        at("2026-08-22T12:00:00Z", 0),
        records(&[r#"{"type":"turn_context","payload":{}}"#]),
        at("2026-08-23T12:00:00Z", 2),
        at("2026-08-23T13:00:00+02:00", 0),
    ];
    assert_eq!(chronological_order(&files), vec![2, 1, 4, 3, 0]);
}

#[test]
fn local_days_are_matched_exactly() {
    let d = CalendarDay { year: 2026, month: 8, day: 23 };
    assert!(matches_day(Some(d), d));
    assert!(!matches_day(Some(CalendarDay { year: 2026, month: 8, day: 22 }), d));
    assert!(!matches_day(None, d));
}

#[test]
fn the_same_record_has_one_fingerprint_however_its_line_is_spaced() {
    let compact = rollout_record(r#"{"type":"event_msg","timestamp":"2026-08-23T12:00:00Z"}"#).unwrap();
    let spaced = rollout_record(r#"{ "timestamp" : "2026-08-23T12:00:00Z",  "type": "event_msg" }"#).unwrap();
    assert_eq!(compact.fingerprint, spaced.fingerprint);
    assert_eq!(compact.fingerprint, r#"{"timestamp":"2026-08-23T12:00:00Z","type":"event_msg"}"#);
    assert!(rollout_record("not json").is_none());
    assert!(rollout_record("").is_none());
}
