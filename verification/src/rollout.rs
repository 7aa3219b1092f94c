//! Attribution of Codex rollout records to per-model token usage.
use vstd::prelude::*;

use chrono::Datelike;

use crate::json::{
    JsonValue, json_canonical, json_document, parse_json_text, bool_of, get_opt, json_get, json_get_opt, json_str, json_u64, opt_deref, or_value,
    str_of, u64_of,
};
use crate::text::{chars_end_with, chars_of, seq_ends_with, string_from_chars, trim_chars, trimmed};
use crate::usage::{
    ModelUsage, TokenUsage, or_zero, sum_fits, usage_or_zero, usage_sum, zero_usage,
};

verus! {

/// The model that usage is attributed to when no record names one.
pub const UNCLASSIFIED_MODEL: &'static str = "unknown-codex";

/// One JSON record of a rollout file, with the canonical text of the record by which the
/// same record is recognised in another file.
#[derive(Debug)]
pub struct RolloutRecord {
    pub value: JsonValue,
    pub fingerprint: String,
}

/// A line of a rollout file as a record: nothing when the line is not one JSON document.
/// The fingerprint is the record's canonical written form, so that the same record is
/// recognised in another file however its line was spaced.
pub fn rollout_record(line: &str) -> (r: Option<RolloutRecord>)
    ensures
        r is Some <==> json_document(line@) is Some,
        r matches Some(rec) ==> Some(rec.value) == json_document(line@) && Some(rec.fingerprint@) == json_canonical(line@),
{
    match parse_json_text(line) {
        Some((value, fingerprint)) => Some(RolloutRecord { value, fingerprint }),
        None => None,
    }
}

/// The value of an optional string.
pub open spec fn opt_view(o: Option<String>) -> Option<Seq<char>> {
    match o {
        Some(s) => Some(s@),
        None => None,
    }
}

// ---------------------------------------------------------------------------------------
// Fields of a record
// ---------------------------------------------------------------------------------------

/// A model id: a string field, trimmed, when something is left.
pub open spec fn spec_model_id(v: Option<JsonValue>) -> Option<Seq<char>> {
    match json_str(v) {
        Some(s) => if trimmed(s).len() > 0 {
            Some(trimmed(s))
        } else {
            None
        },
        None => None,
    }
}

/// The first of the fields `a`, `b` of `v` that holds a model id.
pub open spec fn spec_string_field2(v: JsonValue, a: Seq<char>, b: Seq<char>) -> Option<Seq<char>> {
    match spec_model_id(json_get(v, a)) {
        Some(s) => Some(s),
        None => spec_model_id(json_get(v, b)),
    }
}

/// The first of the fields `a`, `b` of `v` that holds a `u64`.
pub open spec fn spec_first_u64_2(v: JsonValue, a: Seq<char>, b: Seq<char>) -> Option<u64> {
    match json_u64(json_get(v, a)) {
        Some(n) => Some(n),
        None => json_u64(json_get(v, b)),
    }
}

/// The first of the fields `a`, `b`, `c` of `v` that holds a `u64`.
pub open spec fn spec_first_u64_3(v: JsonValue, a: Seq<char>, b: Seq<char>, c: Seq<char>) -> Option<u64> {
    match spec_first_u64_2(v, a, b) {
        Some(n) => Some(n),
        None => json_u64(json_get(v, c)),
    }
}

/// The token counters in a usage object. The total is never less than input plus output.
/// Nothing when input plus output does not fit in 64 bits.
pub open spec fn spec_parse_usage(v: JsonValue) -> Option<ModelUsage> {
    let input = or_zero(spec_first_u64_2(v, "input_tokens"@, "input"@));
    let output = or_zero(spec_first_u64_2(v, "output_tokens"@, "output"@));
    let reported_total = or_zero(spec_first_u64_2(v, "total_tokens"@, "total"@));
    if input + output > u64::MAX {
        None
    } else {
        Some(ModelUsage {
            input: input as u64,
            cached_input: spec_first_u64_2(v, "cached_input_tokens"@, "cached_input"@),
            output: output as u64,
            reasoning: spec_first_u64_3(v, "reasoning_output_tokens"@, "reasoning_tokens"@, "reasoning"@),
            total: (if reported_total >= input + output { reported_total } else { input + output }) as u64,
        })
    }
}

/// Whether `record`, or its payload, is of type `expected`.
pub open spec fn spec_is_record_type(record: JsonValue, payload: JsonValue, expected: Seq<char>) -> bool {
    json_str(json_get(record, "type"@)) == Some(expected) || json_str(json_get(payload, "type"@)) == Some(expected)
}

/// The payload of a record, or the record itself when it has none.
pub open spec fn spec_payload_of(record: JsonValue) -> JsonValue {
    or_value(json_get(record, "payload"@), record)
}

fn model_id(v: Option<&JsonValue>) -> (r: Option<String>)
    ensures
        opt_view(r) == spec_model_id(opt_deref(v)),
{
    match str_of(v) {
        Some(s) => {
            let chars = chars_of(s.as_str());
            let t = trim_chars(&chars);
            if t.len() > 0 {
                Some(string_from_chars(&t))
            } else {
                None
            }
        },
        None => None,
    }
}

fn string_field2(v: &JsonValue, a: &str, b: &str) -> (r: Option<String>)
    ensures
        opt_view(r) == spec_string_field2(*v, a@, b@),
{
    match model_id(v.get(a)) {
        Some(s) => Some(s),
        None => model_id(v.get(b)),
    }
}

fn first_u64_2(v: &JsonValue, a: &str, b: &str) -> (r: Option<u64>)
    ensures
        r == spec_first_u64_2(*v, a@, b@),
{
    match u64_of(v.get(a)) {
        Some(n) => Some(n),
        None => u64_of(v.get(b)),
    }
}

fn first_u64_3(v: &JsonValue, a: &str, b: &str, c: &str) -> (r: Option<u64>)
    ensures
        r == spec_first_u64_3(*v, a@, b@, c@),
{
    match first_u64_2(v, a, b) {
        Some(n) => Some(n),
        None => u64_of(v.get(c)),
    }
}

fn unwrap_zero(v: Option<u64>) -> (r: u64)
    ensures
        r == or_zero(v),
{
    match v {
        Some(n) => n,
        None => 0,
    }
}

/// Reads the token counters of a usage object (see `parse_usage`).
pub fn parse_usage(v: &JsonValue) -> (r: Option<ModelUsage>)
    ensures
        r == spec_parse_usage(*v),
{
    let input = unwrap_zero(first_u64_2(v, "input_tokens", "input"));
    let cached = first_u64_2(v, "cached_input_tokens", "cached_input");
    let output = unwrap_zero(first_u64_2(v, "output_tokens", "output"));
    let reasoning = first_u64_3(v, "reasoning_output_tokens", "reasoning_tokens", "reasoning");
    let reported_total = unwrap_zero(first_u64_2(v, "total_tokens", "total"));
    if input > u64::MAX - output {
        return None;
    }
    let sum = input + output;
    let total = if reported_total >= sum { reported_total } else { sum };
    Some(ModelUsage { input, cached_input: cached, output, reasoning, total })
}

fn is_record_type(record: &JsonValue, payload: &JsonValue, expected: &str) -> (r: bool)
    ensures
        r == spec_is_record_type(*record, *payload, expected@),
{
    let target = expected.to_owned();
    let own = match str_of(record.get("type")) {
        Some(t) => *t == target,
        None => false,
    };
    own || match str_of(payload.get("type")) {
        Some(t) => *t == target,
        None => false,
    }
}

fn payload_of(record: &JsonValue) -> (r: &JsonValue)
    ensures
        *r == spec_payload_of(*record),
{
    match record.get("payload") {
        Some(p) => p,
        None => record,
    }
}

// ---------------------------------------------------------------------------------------
// Counter deltas
// ---------------------------------------------------------------------------------------

/// The growth of a cumulative counter; a counter that went down was reset and counts
/// from zero.
pub open spec fn spec_counter_delta(current: u64, previous: u64) -> u64 {
    if current >= previous {
        (current - previous) as u64
    } else {
        current
    }
}

/// The growth of an optional cumulative counter.
pub open spec fn spec_optional_counter_delta(current: Option<u64>, previous: Option<u64>) -> Option<u64> {
    match current {
        Some(c) => Some(match previous {
            Some(p) => spec_counter_delta(c, p),
            None => c,
        }),
        None => None,
    }
}

/// The growth of every counter from `previous` to `current`.
pub open spec fn spec_usage_delta(current: ModelUsage, previous: ModelUsage) -> ModelUsage {
    ModelUsage {
        input: spec_counter_delta(current.input, previous.input),
        cached_input: spec_optional_counter_delta(current.cached_input, previous.cached_input),
        output: spec_counter_delta(current.output, previous.output),
        reasoning: spec_optional_counter_delta(current.reasoning, previous.reasoning),
        total: spec_counter_delta(current.total, previous.total),
    }
}

/// Whether every counter is zero or absent.
pub open spec fn spec_usage_is_zero(u: ModelUsage) -> bool {
    u.input == 0 && or_zero(u.cached_input) == 0 && u.output == 0 && or_zero(u.reasoning) == 0 && u.total == 0
}

/// The growth of a cumulative counter (see the spec function of the same name).
pub fn counter_delta(current: u64, previous: u64) -> (r: u64)
    ensures
        r == spec_counter_delta(current, previous),
{
    if current >= previous {
        current - previous
    } else {
        current
    }
}

/// The growth of an optional cumulative counter.
pub fn optional_counter_delta(current: Option<u64>, previous: Option<u64>) -> (r: Option<u64>)
    ensures
        r == spec_optional_counter_delta(current, previous),
{
    match current {
        Some(c) => Some(match previous {
            Some(p) => counter_delta(c, p),
            None => c,
        }),
        None => None,
    }
}

/// The growth of every counter from `previous` to `current`.
pub fn usage_delta(current: &ModelUsage, previous: &ModelUsage) -> (r: ModelUsage)
    ensures
        r == spec_usage_delta(*current, *previous),
{
    ModelUsage {
        input: counter_delta(current.input, previous.input),
        cached_input: optional_counter_delta(current.cached_input, previous.cached_input),
        output: counter_delta(current.output, previous.output),
        reasoning: optional_counter_delta(current.reasoning, previous.reasoning),
        total: counter_delta(current.total, previous.total),
    }
}

/// Whether every counter is zero or absent.
pub fn usage_is_zero(u: &ModelUsage) -> (r: bool)
    ensures
        r == spec_usage_is_zero(*u),
{
    u.input == 0 && unwrap_zero(u.cached_input) == 0 && u.output == 0 && unwrap_zero(u.reasoning) == 0
        && u.total == 0
}

} // verus!

verus! {

// ---------------------------------------------------------------------------------------
// Per-stream state
// ---------------------------------------------------------------------------------------

/// A usage record of the older format, kept to drop its exact repeats.
#[derive(Debug)]
pub struct LegacySnapshot {
    pub timestamp: Option<String>,
    pub model: String,
    pub usage: ModelUsage,
}

/// The value of a `LegacySnapshot`.
pub struct LegacyView {
    pub timestamp: Option<Seq<char>>,
    pub model: Seq<char>,
    pub usage: ModelUsage,
}

impl View for LegacySnapshot {
    type V = LegacyView;

    open spec fn view(&self) -> LegacyView {
        LegacyView { timestamp: opt_view(self.timestamp), model: self.model@, usage: self.usage }
    }
}

/// The value of an optional snapshot.
pub open spec fn legacy_view(o: Option<LegacySnapshot>) -> Option<LegacyView> {
    match o {
        Some(s) => Some(s@),
        None => None,
    }
}

/// What is known while reading one rollout file: the model of the current turn, the last
/// cumulative counters, the last older-format record, and the identity of the thread.
#[derive(Debug)]
pub struct StreamState {
    current_model: Option<String>,
    previous_total: Option<ModelUsage>,
    previous_legacy: Option<LegacySnapshot>,
    thread_id: Option<String>,
    parent_thread_id: Option<String>,
    source: Option<String>,
    subagent_history_start_ordinal: Option<u64>,
}

/// The value of a `StreamState`.
pub struct StreamView {
    pub current_model: Option<Seq<char>>,
    pub previous_total: Option<ModelUsage>,
    pub previous_legacy: Option<LegacyView>,
    pub thread_id: Option<Seq<char>>,
    pub parent_thread_id: Option<Seq<char>>,
    pub source: Option<Seq<char>>,
    pub subagent_history_start_ordinal: Option<u64>,
}

impl View for StreamState {
    type V = StreamView;

    closed spec fn view(&self) -> StreamView {
        StreamView {
            current_model: opt_view(self.current_model),
            previous_total: self.previous_total,
            previous_legacy: legacy_view(self.previous_legacy),
            thread_id: opt_view(self.thread_id),
            parent_thread_id: opt_view(self.parent_thread_id),
            source: opt_view(self.source),
            subagent_history_start_ordinal: self.subagent_history_start_ordinal,
        }
    }
}

/// The state at the start of a file: nothing known.
pub open spec fn initial_stream() -> StreamView {
    StreamView {
        current_model: None,
        previous_total: None,
        previous_legacy: None,
        thread_id: None,
        parent_thread_id: None,
        source: None,
        subagent_history_start_ordinal: None,
    }
}

/// The state after a `session_meta` record: the thread's identity is read from its `meta`
/// object, or from the payload itself.
pub open spec fn after_session_meta(st: StreamView, payload: JsonValue) -> StreamView {
    let meta = or_value(json_get(payload, "meta"@), payload);
    StreamView {
        thread_id: spec_string_field2(meta, "id"@, "session_id"@),
        parent_thread_id: spec_model_id(json_get(meta, "parent_thread_id"@)),
        source: spec_model_id(json_get(meta, "source"@)),
        subagent_history_start_ordinal: json_u64(json_get(meta, "subagent_history_start_ordinal"@)),
        ..st
    }
}

/// The state after a `turn_context` record: its model, when it names one, becomes current.
pub open spec fn after_turn_context(st: StreamView, payload: JsonValue) -> StreamView {
    match spec_model_id(json_get(payload, "model"@)) {
        Some(m) => StreamView { current_model: Some(m), ..st },
        None => st,
    }
}

/// What a `token_count` record amounts to.
pub enum TokenOutcome {
    /// Nothing to count; the state becomes the one given.
    Ignored(StreamView),
    /// The counters of the record do not fit in 64 bits.
    Failed,
    /// The given usage of the given model; the state becomes the one given.
    Counted(StreamView, Seq<char>, ModelUsage),
}

/// The model a `token_count` record is attributed to: the current turn's model, else a
/// model named by the record's usage, info or payload, else the unclassified model.
pub open spec fn attributed_model(st: StreamView, payload: JsonValue, info: JsonValue, last: Option<JsonValue>) -> Seq<char> {
    match st.current_model {
        Some(m) => m,
        None => match spec_model_id(json_get_opt(last, "model"@)) {
            Some(m) => m,
            None => match spec_model_id(json_get(info, "model"@)) {
                Some(m) => m,
                None => match spec_model_id(json_get(payload, "model"@)) {
                    Some(m) => m,
                    None => UNCLASSIFIED_MODEL@,
                },
            },
        },
    }
}

/// The `info` object of a payload, or the payload itself.
pub open spec fn info_of(payload: JsonValue) -> JsonValue {
    or_value(json_get(payload, "info"@), payload)
}

/// The per-turn usage object of a record.
pub open spec fn last_usage_of(payload: JsonValue) -> Option<JsonValue> {
    match json_get(info_of(payload), "last_token_usage"@) {
        Some(l) => Some(l),
        None => json_get(payload, "last_token_usage"@),
    }
}

/// A `token_count` record. Cumulative counters count by their growth since the previous
/// cumulative record of the stream (all of them for the first); otherwise a per-turn usage
/// counts as it is, unless it repeats the previous one exactly.
pub open spec fn token_outcome(st: StreamView, record: JsonValue, payload: JsonValue) -> TokenOutcome {
    let info = info_of(payload);
    let last = last_usage_of(payload);
    let model = attributed_model(st, payload, info, last);
    match json_get(info, "total_token_usage"@) {
        Some(c) => match spec_parse_usage(c) {
            None => TokenOutcome::Failed,
            Some(cumulative) => TokenOutcome::Counted(
                StreamView { previous_legacy: None, previous_total: Some(cumulative), ..st },
                model,
                match st.previous_total {
                    Some(previous) => spec_usage_delta(cumulative, previous),
                    None => cumulative,
                },
            ),
        },
        None => match last {
            Some(l) => match spec_parse_usage(l) {
                None => TokenOutcome::Failed,
                Some(usage) => {
                    let snapshot = LegacyView {
                        timestamp: json_str(json_get(record, "timestamp"@)),
                        model,
                        usage,
                    };
                    if st.previous_legacy == Some(snapshot) {
                        TokenOutcome::Ignored(st)
                    } else {
                        TokenOutcome::Counted(StreamView { previous_legacy: Some(snapshot), ..st }, model, usage)
                    }
                },
            },
            None => TokenOutcome::Ignored(st),
        },
    }
}

fn clone_opt_string(o: &Option<String>) -> (r: Option<String>)
    ensures
        opt_view(r) == opt_view(*o),
{
    match o {
        Some(s) => Some(s.clone()),
        None => None,
    }
}

fn clone_legacy(o: &Option<LegacySnapshot>) -> (r: Option<LegacySnapshot>)
    ensures
        legacy_view(r) == legacy_view(*o),
{
    match o {
        Some(s) => Some(LegacySnapshot { timestamp: clone_opt_string(&s.timestamp), model: s.model.clone(), usage: s.usage }),
        None => None,
    }
}

fn opt_string_eq(a: &Option<String>, b: &Option<String>) -> (r: bool)
    ensures
        r == (opt_view(*a) == opt_view(*b)),
{
    match (a, b) {
        (Some(x), Some(y)) => *x == *y,
        (None, None) => true,
        _ => false,
    }
}

/// What a `token_count` record amounts to, with its model's name.
pub enum TokenStep {
    Ignored,
    Failed,
    Counted(String, ModelUsage),
}

/// Whether `step` with the states `before`, `after` is `outcome`.
pub open spec fn step_is(step: TokenStep, after: StreamView, outcome: TokenOutcome) -> bool {
    match step {
        TokenStep::Ignored => outcome matches TokenOutcome::Ignored(st) && after == st,
        TokenStep::Failed => outcome is Failed,
        TokenStep::Counted(m, u) => outcome matches TokenOutcome::Counted(st, mm, uu) && after == st
            && m@ == mm && u == uu,
    }
}

impl StreamState {
    /// The state at the start of a file.
    pub fn new() -> (r: Self)
        ensures
            r@ == initial_stream(),
    {
        StreamState {
            current_model: None,
            previous_total: None,
            previous_legacy: None,
            thread_id: None,
            parent_thread_id: None,
            source: None,
            subagent_history_start_ordinal: None,
        }
    }

    fn apply_session_meta(&mut self, payload: &JsonValue)
        ensures
            final(self)@ == after_session_meta(old(self)@, *payload),
    {
        let meta = match payload.get("meta") {
            Some(m) => m,
            None => payload,
        };
        self.thread_id = string_field2(meta, "id", "session_id");
        self.parent_thread_id = model_id(meta.get("parent_thread_id"));
        self.source = model_id(meta.get("source"));
        self.subagent_history_start_ordinal = u64_of(meta.get("subagent_history_start_ordinal"));
    }

    fn apply_turn_context(&mut self, payload: &JsonValue)
        ensures
            final(self)@ == after_turn_context(old(self)@, *payload),
    {
        if let Some(model) = model_id(payload.get("model")) {
            self.current_model = Some(model);
        }
    }

    fn attributed_model(&self, payload: &JsonValue, info: &JsonValue, last: Option<&JsonValue>) -> (r: String)
        ensures
            r@ == attributed_model(self@, *payload, *info, opt_deref(last)),
    {
        match &self.current_model {
            Some(m) => m.clone(),
            None => match model_id(get_opt(last, "model")) {
                Some(m) => m,
                None => match model_id(info.get("model")) {
                    Some(m) => m,
                    None => match model_id(payload.get("model")) {
                        Some(m) => m,
                        None => UNCLASSIFIED_MODEL.to_owned(),
                    },
                },
            },
        }
    }

    fn token_step(&mut self, record: &JsonValue, payload: &JsonValue) -> (r: TokenStep)
        ensures
            step_is(r, final(self)@, token_outcome(old(self)@, *record, *payload)),
    {
        let info = match payload.get("info") {
            Some(i) => i,
            None => payload,
        };
        let last = match info.get("last_token_usage") {
            Some(l) => Some(l),
            None => payload.get("last_token_usage"),
        };
        let model = self.attributed_model(payload, info, last);
        match info.get("total_token_usage") {
            Some(c) => match parse_usage(c) {
                None => TokenStep::Failed,
                Some(cumulative) => {
                    self.previous_legacy = None;
                    let delta = match &self.previous_total {
                        Some(previous) => usage_delta(&cumulative, previous),
                        None => cumulative,
                    };
                    self.previous_total = Some(cumulative);
                    TokenStep::Counted(model, delta)
                },
            },
            None => match last {
                Some(l) => match parse_usage(l) {
                    None => TokenStep::Failed,
                    Some(usage) => {
                        let timestamp = match str_of(record.get("timestamp")) {
                            Some(t) => Some(t.clone()),
                            None => None,
                        };
                        let repeated = match &self.previous_legacy {
                            Some(previous) => opt_string_eq(&previous.timestamp, &timestamp)
                                && previous.model == model && previous.usage == usage,
                            None => false,
                        };
                        if repeated {
                            TokenStep::Ignored
                        } else {
                            let name = model.clone();
                            self.previous_legacy = Some(LegacySnapshot { timestamp, model: name, usage });
                            TokenStep::Counted(model, usage)
                        }
                    },
                },
                None => TokenStep::Ignored,
            },
        }
    }
}

} // verus!

verus! {

// ---------------------------------------------------------------------------------------
// Records seen in earlier streams
// ---------------------------------------------------------------------------------------

/// The thread that counted a token record, and that thread's parent.
#[derive(Debug)]
pub struct TokenRecordOwner {
    pub thread_id: Option<String>,
    pub parent_thread_id: Option<String>,
}

/// The value of a `TokenRecordOwner`.
pub struct OwnerView {
    pub thread_id: Option<Seq<char>>,
    pub parent_thread_id: Option<Seq<char>>,
}

impl View for TokenRecordOwner {
    type V = OwnerView;

    open spec fn view(&self) -> OwnerView {
        OwnerView { thread_id: opt_view(self.thread_id), parent_thread_id: opt_view(self.parent_thread_id) }
    }
}

/// The values of a list of owners.
pub open spec fn owner_views(owners: Seq<TokenRecordOwner>) -> Seq<OwnerView> {
    owners.map_values(|o: TokenRecordOwner| o@)
}

/// The owners recorded for one fingerprint.
#[derive(Debug)]
pub struct SeenEntry {
    pub fingerprint: String,
    pub owners: Vec<TokenRecordOwner>,
}

/// The owners of the first entry for `fingerprint`.
pub open spec fn seen_lookup(entries: Seq<SeenEntry>, fingerprint: Seq<char>) -> Option<Seq<OwnerView>>
    decreases entries.len(),
{
    if entries.len() == 0 {
        None
    } else if entries[0].fingerprint@ == fingerprint {
        Some(owner_views(entries[0].owners@))
    } else {
        seen_lookup(entries.drop_first(), fingerprint)
    }
}

/// The token records counted so far, by fingerprint, with the threads that counted them.
#[derive(Debug)]
pub struct SeenRecords {
    entries: Vec<SeenEntry>,
}

impl View for SeenRecords {
    type V = Map<Seq<char>, Seq<OwnerView>>;

    closed spec fn view(&self) -> Map<Seq<char>, Seq<OwnerView>> {
        Map::new(
            |fp: Seq<char>| seen_lookup(self.entries@, fp) is Some,
            |fp: Seq<char>| seen_lookup(self.entries@, fp)->0,
        )
    }
}

/// Whether the current stream and the thread that counted a record are the same thread, or
/// parent and child, or children of the same parent.
pub open spec fn related_stream(st: StreamView, owner: OwnerView) -> bool {
    ||| (st.thread_id is Some && owner.thread_id == st.thread_id)
    ||| (st.thread_id is Some && owner.parent_thread_id == st.thread_id)
    ||| (owner.thread_id is Some && st.parent_thread_id == owner.thread_id)
    ||| (st.parent_thread_id is Some && st.parent_thread_id == owner.parent_thread_id)
}

/// The owner that the current stream would be recorded as.
pub open spec fn owner_of(st: StreamView) -> OwnerView {
    OwnerView { thread_id: st.thread_id, parent_thread_id: st.parent_thread_id }
}

/// Whether a record lies in the history that a sub-agent inherited from its parent: its
/// ordinal is below the stream's history start.
pub open spec fn inherited_projection(st: StreamView, record: JsonValue) -> bool {
    match (st.subagent_history_start_ordinal, json_u64(json_get(record, "ordinal"@))) {
        (Some(start), Some(ordinal)) => ordinal < start,
        _ => false,
    }
}

/// Whether a record with this fingerprint was already counted by a related stream.
pub open spec fn duplicate_record(st: StreamView, seen: Map<Seq<char>, Seq<OwnerView>>, fingerprint: Seq<char>) -> bool {
    seen.dom().contains(fingerprint)
        && exists|i: int| 0 <= i < seen[fingerprint].len() && related_stream(st, #[trigger] seen[fingerprint][i])
}

/// The recorded owners after a record is admitted (neither inherited nor a duplicate): the
/// current stream is added to the owners of its fingerprint.
pub open spec fn seen_after(
    st: StreamView,
    seen: Map<Seq<char>, Seq<OwnerView>>,
    fingerprint: Seq<char>,
    admitted: bool,
) -> Map<Seq<char>, Seq<OwnerView>> {
    if admitted {
        let owners = if seen.dom().contains(fingerprint) { seen[fingerprint] } else { Seq::empty() };
        seen.insert(fingerprint, owners.push(owner_of(st)))
    } else {
        seen
    }
}

proof fn lemma_seen_lookup_skip(entries: Seq<SeenEntry>, fp: Seq<char>, i: int)
    requires
        0 <= i <= entries.len(),
        forall|k: int| 0 <= k < i ==> (#[trigger] entries[k]).fingerprint@ != fp,
    ensures
        seen_lookup(entries, fp) == seen_lookup(entries.skip(i), fp),
    decreases i,
{
    if i > 0 {
        assert(entries[0].fingerprint@ != fp);
        assert(entries.drop_first().skip(i - 1) =~= entries.skip(i));
        assert forall|k: int| 0 <= k < i - 1 implies (#[trigger] entries.drop_first()[k]).fingerprint@ != fp by {
            assert(entries.drop_first()[k] == entries[k + 1]);
        }
        lemma_seen_lookup_skip(entries.drop_first(), fp, i - 1);
    } else {
        assert(entries.skip(0) =~= entries);
    }
}

proof fn lemma_seen_lookup_update(entries: Seq<SeenEntry>, i: int, e: SeenEntry, fp: Seq<char>)
    requires
        0 <= i < entries.len(),
        entries[i].fingerprint@ == e.fingerprint@,
        forall|k: int| 0 <= k < i ==> (#[trigger] entries[k]).fingerprint@ != e.fingerprint@,
    ensures
        seen_lookup(entries.update(i, e), fp) == if fp == e.fingerprint@ {
            Some(owner_views(e.owners@))
        } else {
            seen_lookup(entries, fp)
        },
    decreases i,
{
    if i > 0 {
        if entries[0].fingerprint@ != fp {
            assert(entries.update(i, e).drop_first() =~= entries.drop_first().update(i - 1, e));
            assert forall|k: int| 0 <= k < i - 1 implies (#[trigger] entries.drop_first()[k]).fingerprint@ != e.fingerprint@ by {
                assert(entries.drop_first()[k] == entries[k + 1]);
            }
            lemma_seen_lookup_update(entries.drop_first(), i - 1, e, fp);
        } else {
            assert(entries.update(i, e)[0] == entries[0]);
        }
    } else {
        assert(entries.update(0, e).drop_first() =~= entries.drop_first());
    }
}

proof fn lemma_seen_lookup_push(entries: Seq<SeenEntry>, e: SeenEntry, fp: Seq<char>)
    requires
        seen_lookup(entries, e.fingerprint@) is None,
    ensures
        seen_lookup(entries.push(e), fp) == if fp == e.fingerprint@ {
            Some(owner_views(e.owners@))
        } else {
            seen_lookup(entries, fp)
        },
    decreases entries.len(),
{
    if entries.len() == 0 {
        assert(entries.push(e).drop_first() =~= Seq::<SeenEntry>::empty());
    } else {
        assert(entries.push(e).drop_first() =~= entries.drop_first().push(e));
        if entries[0].fingerprint@ != fp {
            lemma_seen_lookup_push(entries.drop_first(), e, fp);
        }
    }
}

impl SeenRecords {
    /// No records seen.
    pub fn new() -> (r: Self)
        ensures
            r@ == Map::<Seq<char>, Seq<OwnerView>>::empty(),
    {
        let r = SeenRecords { entries: Vec::new() };
        assert(r@ =~= Map::<Seq<char>, Seq<OwnerView>>::empty());
        r
    }

    /// Decides whether the token record `fingerprint` of the stream `st` counts: not when it
    /// is inherited history or a related stream already counted it. A record that counts is
    /// recorded as counted by `st`.
    fn accept_record(&mut self, st: &StreamState, fingerprint: &String, inherited: bool) -> (r: bool)
        ensures
            r == (!inherited && !duplicate_record(st@, old(self)@, fingerprint@)),
            final(self)@ == seen_after(st@, old(self)@, fingerprint@, r),
    {
        if inherited {
            return false;
        }
        let mut i: usize = 0;
        while i < self.entries.len() && !(self.entries[i].fingerprint == *fingerprint)
            invariant
                i <= self.entries@.len(),
                forall|k: int| 0 <= k < i ==> (#[trigger] self.entries@[k]).fingerprint@ != fingerprint@,
            decreases self.entries@.len() - i,
        {
            i = i + 1;
        }
        let ghost old_entries = self.entries@;
        proof {
            lemma_seen_lookup_skip(old_entries, fingerprint@, i as int);
        }
        let owner = TokenRecordOwner {
            thread_id: clone_opt_string(&st.thread_id),
            parent_thread_id: clone_opt_string(&st.parent_thread_id),
        };
        if i < self.entries.len() {
            let mut entry = self.entries.remove(i);
            let ghost owners = owner_views(entry.owners@);
            proof {
                assert(old_entries.skip(i as int)[0] == entry);
                assert(seen_lookup(old_entries.skip(i as int), fingerprint@) == Some(owners));
                assert(old(self)@.dom().contains(fingerprint@));
                assert(old(self)@[fingerprint@] == owners);
            }
            let mut j: usize = 0;
            while j < entry.owners.len()
                invariant
                    j <= entry.owners@.len(),
                    i < old_entries.len(),
                    self.entries@ == old_entries.remove(i as int),
                    entry == old_entries[i as int],
                    old_entries == old(self).entries@,
                    old(self)@.dom().contains(fingerprint@),
                    old(self)@[fingerprint@] == owners,
                    owners == owner_views(entry.owners@),
                    forall|k: int| 0 <= k < j ==> !related_stream(st@, #[trigger] owners[k]),
                decreases entry.owners@.len() - j,
            {
                let o = &entry.owners[j];
                let same_thread = st.thread_id.is_some() && opt_string_eq(&o.thread_id, &st.thread_id);
                let parent_is_current = st.thread_id.is_some() && opt_string_eq(&o.parent_thread_id, &st.thread_id);
                let current_parent_is_owner = o.thread_id.is_some() && opt_string_eq(&st.parent_thread_id, &o.thread_id);
                let siblings = st.parent_thread_id.is_some() && opt_string_eq(&st.parent_thread_id, &o.parent_thread_id);
                if same_thread || parent_is_current || current_parent_is_owner || siblings {
                    proof {
                        assert(owners[j as int] == entry.owners@[j as int]@);
                        assert(related_stream(st@, owners[j as int]));
                    }
                    self.entries.insert(i, entry);
                    proof {
                        assert(self.entries@ =~= old_entries);
                    }
                    return false;
                }
                proof {
                    assert(owners[j as int] == entry.owners@[j as int]@);
                }
                j = j + 1;
            }
            entry.owners.push(owner);
            let ghost new_entry = entry;
            self.entries.insert(i, entry);
            proof {
                assert(self.entries@ =~= old_entries.update(i as int, new_entry));
                assert(owner_views(new_entry.owners@) =~= owners.push(owner_of(st@)));
                assert forall|fp: Seq<char>| #[trigger] seen_lookup(self.entries@, fp) == if fp == fingerprint@ {
                    Some(owners.push(owner_of(st@)))
                } else {
                    seen_lookup(old_entries, fp)
                } by {
                    lemma_seen_lookup_update(old_entries, i as int, new_entry, fp);
                }
                assert(self@ =~= seen_after(st@, old(self)@, fingerprint@, true));
            }
            true
        } else {
            let mut owners_vec: Vec<TokenRecordOwner> = Vec::new();
            owners_vec.push(owner);
            let entry = SeenEntry { fingerprint: fingerprint.clone(), owners: owners_vec };
            let ghost new_entry = entry;
            proof {
                assert(old_entries.skip(i as int) =~= Seq::<SeenEntry>::empty());
            }
            self.entries.push(entry);
            proof {
                assert(owner_views(new_entry.owners@) =~= Seq::<OwnerView>::empty().push(owner_of(st@)));
                assert forall|fp: Seq<char>| #[trigger] seen_lookup(self.entries@, fp) == if fp == fingerprint@ {
                    Some(Seq::<OwnerView>::empty().push(owner_of(st@)))
                } else {
                    seen_lookup(old_entries, fp)
                } by {
                    lemma_seen_lookup_push(old_entries, new_entry, fp);
                }
                assert(self@ =~= seen_after(st@, old(self)@, fingerprint@, true));
            }
            true
        }
    }
}

} // verus!

verus! {

// ---------------------------------------------------------------------------------------
// Threads across files
// ---------------------------------------------------------------------------------------

/// The last state recorded for thread `t` among `states`, the latest first.
pub open spec fn last_state_of(states: Seq<StreamView>, t: Seq<char>) -> Option<StreamView>
    decreases states.len(),
{
    if states.len() == 0 {
        None
    } else if states.last().thread_id == Some(t) {
        Some(states.last())
    } else {
        last_state_of(states.drop_last(), t)
    }
}

/// The state of each thread as it was last left, by thread id: `threads` with the state
/// `st` recorded under its thread, when it has one.
pub open spec fn remember(threads: Map<Seq<char>, StreamView>, st: StreamView) -> Map<Seq<char>, StreamView> {
    match st.thread_id {
        Some(t) => threads.insert(t, st),
        None => threads,
    }
}

/// The state of a stream that has just named its thread: when that thread was read before,
/// it continues from where it was left (its model, its cumulative baseline and its last
/// older-format record); otherwise it stays as it is.
pub open spec fn resumed(threads: Map<Seq<char>, StreamView>, st: StreamView) -> StreamView {
    match st.thread_id {
        Some(t) => if threads.contains_key(t) {
            StreamView {
                current_model: threads[t].current_model,
                previous_total: threads[t].previous_total,
                previous_legacy: threads[t].previous_legacy,
                ..st
            }
        } else {
            st
        },
        None => st,
    }
}

/// The states of the threads read so far, each as it was last left.
pub struct ThreadStates {
    states: Vec<StreamState>,
}

/// The values of a list of stream states.
pub open spec fn stream_views(states: Seq<StreamState>) -> Seq<StreamView> {
    states.map_values(|s: StreamState| s@)
}

impl View for ThreadStates {
    type V = Map<Seq<char>, StreamView>;

    closed spec fn view(&self) -> Map<Seq<char>, StreamView> {
        Map::new(
            |t: Seq<char>| last_state_of(stream_views(self.states@), t) is Some,
            |t: Seq<char>| last_state_of(stream_views(self.states@), t)->0,
        )
    }
}

impl StreamState {
    /// A copy of the state.
    fn duplicate(&self) -> (r: StreamState)
        ensures
            r@ == self@,
    {
        StreamState {
            current_model: clone_opt_string(&self.current_model),
            previous_total: self.previous_total,
            previous_legacy: clone_legacy(&self.previous_legacy),
            thread_id: clone_opt_string(&self.thread_id),
            parent_thread_id: clone_opt_string(&self.parent_thread_id),
            source: clone_opt_string(&self.source),
            subagent_history_start_ordinal: self.subagent_history_start_ordinal,
        }
    }
}

impl ThreadStates {
    /// No thread read yet.
    pub fn new() -> (r: Self)
        ensures
            r@ == Map::<Seq<char>, StreamView>::empty(),
    {
        let r = ThreadStates { states: Vec::new() };
        assert(stream_views(r.states@) =~= Seq::<StreamView>::empty());
        assert(r@ =~= Map::<Seq<char>, StreamView>::empty());
        r
    }

    /// Records where the stream `st` stands, under its thread.
    fn remember(&mut self, st: &StreamState)
        ensures
            final(self)@ == remember(old(self)@, st@),
    {
        if st.thread_id.is_some() {
            let ghost before = stream_views(self.states@);
            self.states.push(st.duplicate());
            proof {
                assert(stream_views(self.states@) =~= before.push(st@));
                assert(before.push(st@).drop_last() =~= before);
                assert(self@ =~= remember(old(self)@, st@));
            }
        }
    }

    /// Lets the stream `st`, which has just named its thread, continue where that thread
    /// was left (see `resumed`).
    fn resume(&self, st: &mut StreamState)
        ensures
            final(st)@ == resumed(self@, old(st)@),
    {
        let t = match &st.thread_id {
            Some(t) => t.clone(),
            None => {
                return;
            },
        };
        let ghost views = stream_views(self.states@);
        let mut i: usize = self.states.len();
        proof {
            assert(views.take(i as int) =~= views);
        }
        while i > 0
            invariant
                i <= self.states@.len(),
                views == stream_views(self.states@),
                last_state_of(views, t@) == last_state_of(views.take(i as int), t@),
                st@ == old(st)@,
                old(st)@.thread_id == Some(t@),
            decreases i,
        {
            let found = &self.states[i - 1];
            proof {
                assert(views.take(i as int).last() == found@);
                assert(views.take(i as int).drop_last() =~= views.take(i - 1));
            }
            if opt_string_eq(&found.thread_id, &st.thread_id) {
                st.current_model = clone_opt_string(&found.current_model);
                st.previous_total = found.previous_total;
                st.previous_legacy = clone_legacy(&found.previous_legacy);
                proof {
                    assert(self@.contains_key(t@));
                    assert(self@[t@] == found@);
                }
                return;
            }
            i = i - 1;
        }
        proof {
            assert(!self@.contains_key(t@));
        }
    }
}

// ---------------------------------------------------------------------------------------
// Counting
// ---------------------------------------------------------------------------------------

/// Totals and per-model usage, as values.
pub struct Tally {
    pub totals: ModelUsage,
    pub by_model: Map<Seq<char>, ModelUsage>,
}

/// The value of a `TokenUsage`.
pub open spec fn tally_of(t: TokenUsage) -> Tally {
    Tally { totals: t.totals(), by_model: t.by_model@ }
}

/// No usage.
pub open spec fn empty_tally() -> Tally {
    Tally { totals: zero_usage(), by_model: Map::empty() }
}

/// `t` with `usage` of `model` added; nothing when a counter would not fit in 64 bits.
pub open spec fn tally_push(t: Tally, model: Seq<char>, usage: ModelUsage) -> Option<Tally> {
    if sum_fits(t.totals, usage) && sum_fits(usage_or_zero(t.by_model, model), usage) {
        Some(Tally {
            totals: usage_sum(t.totals, usage),
            by_model: t.by_model.insert(model, usage_sum(usage_or_zero(t.by_model, model), usage)),
        })
    } else {
        None
    }
}

/// Where the reading stands: the state of the current stream, the state in which each
/// thread was last left, the records counted so far, and the usage counted so far (nothing
/// once a counter overflowed).
pub struct Progress {
    pub stream: StreamView,
    pub threads: Map<Seq<char>, StreamView>,
    pub seen: Map<Seq<char>, Seq<OwnerView>>,
    pub tally: Option<Tally>,
}

/// One record read. `on_day` tells whether the record's timestamp falls on the requested
/// day. Token usage counts when it is neither inherited history nor a record already
/// counted by a related stream, falls on the day and is not all zero; the stream state and
/// the cumulative baseline advance whatever the day. A `session_meta` record leaves the
/// current thread where it stands and lets the thread it names continue where that thread
/// was last left, in this file or an earlier one.
pub open spec fn record_step(p: Progress, record: JsonValue, fingerprint: Seq<char>, on_day: bool) -> Progress {
    if p.tally is None {
        p
    } else {
        let payload = spec_payload_of(record);
        if spec_is_record_type(record, payload, "session_meta"@) {
            let saved = remember(p.threads, p.stream);
            Progress { stream: resumed(saved, after_session_meta(p.stream, payload)), threads: saved, ..p }
        } else if spec_is_record_type(record, payload, "turn_context"@) {
            Progress { stream: after_turn_context(p.stream, payload), ..p }
        } else if !spec_is_record_type(record, payload, "token_count"@) {
            p
        } else {
            match token_outcome(p.stream, record, payload) {
                TokenOutcome::Ignored(st) => Progress { stream: st, ..p },
                TokenOutcome::Failed => Progress { tally: None, ..p },
                TokenOutcome::Counted(st, model, usage) => {
                    let accepted = !inherited_projection(st, record) && !duplicate_record(st, p.seen, fingerprint);
                    Progress {
                        stream: st,
                        threads: p.threads,
                        seen: seen_after(st, p.seen, fingerprint, accepted),
                        tally: if accepted && on_day && !spec_usage_is_zero(usage) {
                            tally_push(p.tally->0, model, usage)
                        } else {
                            p.tally
                        },
                    }
                },
            }
        }
    }
}

/// The records of one file read in order, starting from `p`.
pub open spec fn file_progress(p: Progress, records: Seq<RolloutRecord>, days: Seq<bool>) -> Progress
    decreases records.len(),
{
    if records.len() == 0 {
        p
    } else {
        record_step(
            file_progress(p, records.drop_last(), days.drop_last()),
            records.last().value,
            records.last().fingerprint@,
            days.last(),
        )
    }
}

/// The values of a list of files of records.
pub open spec fn files_view(files: Seq<Vec<RolloutRecord>>) -> Seq<Seq<RolloutRecord>> {
    files.map_values(|f: Vec<RolloutRecord>| f@)
}

/// The values of a list of lists of day flags.
pub open spec fn days_view(days: Seq<Vec<bool>>) -> Seq<Seq<bool>> {
    days.map_values(|d: Vec<bool>| d@)
}

/// Where a new file starts after `before`: a fresh stream, the stream of the previous file
/// recorded under its thread.
pub open spec fn file_start(before: Progress) -> Progress {
    Progress { stream: initial_stream(), threads: remember(before.threads, before.stream), ..before }
}

/// Files read in order. Each file starts a new stream, and the stream that the previous file
/// ended with is left where it stands under its thread; the thread states, the records
/// counted and the usage carry over from file to file.
pub open spec fn files_progress(files: Seq<Seq<RolloutRecord>>, days: Seq<Seq<bool>>) -> Progress
    decreases files.len(),
{
    if files.len() == 0 {
        Progress { stream: initial_stream(), threads: Map::empty(), seen: Map::empty(), tally: Some(empty_tally()) }
    } else {
        let before = files_progress(files.drop_last(), days.drop_last());
        file_progress(file_start(before), files.last(), days.last())
    }
}

/// Once a counter overflowed, reading more records changes nothing.
proof fn lemma_failure_sticks(p: Progress, records: Seq<RolloutRecord>, days: Seq<bool>)
    requires
        p.tally is None,
    ensures
        file_progress(p, records, days) == p,
    decreases records.len(),
{
    if records.len() > 0 {
        lemma_failure_sticks(p, records.drop_last(), days.drop_last());
    }
}

/// Once a counter overflowed, the remaining records and files do not bring it back.
proof fn lemma_file_failure_sticks(p: Progress, records: Seq<RolloutRecord>, days: Seq<bool>, i: int)
    requires
        0 <= i <= records.len(),
        records.len() == days.len(),
        file_progress(p, records.take(i), days.take(i)).tally is None,
    ensures
        file_progress(p, records, days).tally is None,
    decreases records.len() - i,
{
    if i < records.len() {
        assert(records.take(i + 1).drop_last() =~= records.take(i));
        assert(days.take(i + 1).drop_last() =~= days.take(i));
        lemma_file_failure_sticks(p, records, days, i + 1);
    } else {
        assert(records.take(i) =~= records);
        assert(days.take(i) =~= days);
    }
}

/// Reads one record (see `record_step`); false when a counter overflowed.
fn process_record(
    st: &mut StreamState,
    threads: &mut ThreadStates,
    seen: &mut SeenRecords,
    total: &mut TokenUsage,
    record: &RolloutRecord,
    on_day: bool,
) -> (r: bool)
    ensures
        ({
            let p = record_step(
                Progress { stream: old(st)@, threads: old(threads)@, seen: old(seen)@, tally: Some(tally_of(*old(total))) },
                record.value,
                record.fingerprint@,
                on_day,
            );
            &&& r == (p.tally is Some)
            &&& r ==> final(st)@ == p.stream && final(threads)@ == p.threads && final(seen)@ == p.seen
                && tally_of(*final(total)) == p.tally->0
            &&& r && old(total).consistent() ==> final(total).consistent()
        }),
{
    let value = &record.value;
    let payload = payload_of(value);
    if is_record_type(value, payload, "session_meta") {
        threads.remember(st);
        st.apply_session_meta(payload);
        threads.resume(st);
        return true;
    }
    if is_record_type(value, payload, "turn_context") {
        st.apply_turn_context(payload);
        return true;
    }
    if !is_record_type(value, payload, "token_count") {
        return true;
    }
    match st.token_step(value, payload) {
        TokenStep::Ignored => true,
        TokenStep::Failed => false,
        TokenStep::Counted(model, usage) => {
            let inherited = match (st.subagent_history_start_ordinal, u64_of(value.get("ordinal"))) {
                (Some(start), Some(ordinal)) => ordinal < start,
                _ => false,
            };
            let accepted = seen.accept_record(st, &record.fingerprint, inherited);
            if accepted && on_day && !usage_is_zero(&usage) {
                if !total.can_push(model.as_str(), &usage) {
                    return false;
                }
                total.push(model.as_str(), usage);
            }
            true
        },
    }
}

/// Reads the records of one rollout file in order, adding what counts to `total` and to
/// the records seen. `on_day[i]` tells whether record `i` falls on the requested day. Fails
/// when a token counter would overflow 64 bits.
pub fn parse_records(
    records: &Vec<RolloutRecord>,
    on_day: &Vec<bool>,
    total: &mut TokenUsage,
    threads: &mut ThreadStates,
    seen: &mut SeenRecords,
) -> (r: Result<(), String>)
    requires
        records@.len() == on_day@.len(),
    ensures
        ({
            let p = file_progress(
                Progress { stream: initial_stream(), threads: old(threads)@, seen: old(seen)@, tally: Some(tally_of(*old(total))) },
                records@,
                on_day@,
            );
            &&& r is Ok == (p.tally is Some)
            &&& r is Ok ==> final(seen)@ == p.seen && tally_of(*final(total)) == p.tally->0
            &&& r is Ok ==> final(threads)@ == remember(p.threads, p.stream)
            &&& r is Ok && old(total).consistent() ==> final(total).consistent()
        }),
{
    let ghost start = Progress { stream: initial_stream(), threads: threads@, seen: seen@, tally: Some(tally_of(*total)) };
    let ghost was_consistent = total.consistent();
    let mut st = StreamState::new();
    let mut i: usize = 0;
    while i < records.len()
        invariant
            records@.len() == on_day@.len(),
            i <= records@.len(),
            ({
                let p = file_progress(start, records@.take(i as int), on_day@.take(i as int));
                &&& p.tally == Some(tally_of(*total))
                &&& p.stream == st@
                &&& p.threads == threads@
                &&& p.seen == seen@
            }),
            was_consistent ==> total.consistent(),
            start == (Progress { stream: initial_stream(), threads: old(threads)@, seen: old(seen)@, tally: Some(tally_of(*old(total))) }),
            was_consistent == old(total).consistent(),
        decreases records@.len() - i,
    {
        proof {
            assert(records@.take(i + 1).drop_last() =~= records@.take(i as int));
            assert(on_day@.take(i + 1).drop_last() =~= on_day@.take(i as int));
        }
        let ok = process_record(&mut st, threads, seen, total, &records[i], on_day[i]);
        if !ok {
            proof {
                lemma_file_failure_sticks(start, records@, on_day@, i + 1);
            }
            return Err("a token counter of a rollout record does not fit in 64 bits".to_owned());
        }
        i = i + 1;
    }
    proof {
        assert(records@.take(i as int) =~= records@);
        assert(on_day@.take(i as int) =~= on_day@);
    }
    threads.remember(&st);
    Ok(())
}

/// The files at the positions `order`, in that order.
pub open spec fn ordered(files: Seq<Seq<RolloutRecord>>, order: Seq<usize>) -> Seq<Seq<RolloutRecord>> {
    order.map_values(|k: usize| files[k as int])
}

/// Counts the usage in the files at the positions `order`, read in that order; `days[i]`
/// holds the day flags of the records of the `i`-th file read.
fn aggregate_ordered(
    files: &Vec<Vec<RolloutRecord>>,
    order: &Vec<usize>,
    days: &Vec<Vec<bool>>,
) -> (r: Result<TokenUsage, String>)
    requires
        order@.len() == days@.len(),
        forall|k: int| 0 <= k < order@.len() ==> (#[trigger] order@[k]) < files@.len(),
        forall|k: int| 0 <= k < order@.len() ==> files@[#[trigger] order@[k] as int]@.len() == days@[k]@.len(),
    ensures
        ({
            let p = files_progress(ordered(files_view(files@), order@), days_view(days@));
            &&& r is Ok == (p.tally is Some)
            &&& r matches Ok(t) ==> tally_of(t) == p.tally->0 && t.consistent()
        }),
{
    let ghost fv = ordered(files_view(files@), order@);
    let ghost dv = days_view(days@);
    let mut total = TokenUsage::default();
    let mut seen = SeenRecords::new();
    let mut threads = ThreadStates::new();
    let mut i: usize = 0;
    proof {
        assert(tally_of(total) =~= empty_tally());
        assert(fv.take(0) =~= Seq::<Seq<RolloutRecord>>::empty());
        assert(dv.take(0) =~= Seq::<Seq<bool>>::empty());
    }
    while i < order.len()
        invariant
            order@.len() == days@.len(),
            forall|k: int| 0 <= k < order@.len() ==> (#[trigger] order@[k]) < files@.len(),
            forall|k: int| 0 <= k < order@.len() ==> files@[#[trigger] order@[k] as int]@.len() == days@[k]@.len(),
            fv == ordered(files_view(files@), order@),
            dv == days_view(days@),
            i <= order@.len(),
            ({
                let p = files_progress(fv.take(i as int), dv.take(i as int));
                &&& p.tally == Some(tally_of(total))
                &&& p.seen == seen@
                &&& remember(p.threads, p.stream) == threads@
            }),
            total.consistent(),
        decreases order@.len() - i,
    {
        let k = order[i];
        proof {
            assert(fv.take(i + 1).drop_last() =~= fv.take(i as int));
            assert(dv.take(i + 1).drop_last() =~= dv.take(i as int));
            assert(fv.take(i + 1).last() == files@[k as int]@);
            assert(dv.take(i + 1).last() == days@[i as int]@);
            assert(files@[order@[i as int] as int]@.len() == days@[i as int]@.len());
        }
        let parsed = parse_records(&files[k], &days[i], &mut total, &mut threads, &mut seen);
        if parsed.is_err() {
            proof {
                lemma_files_failure_sticks(fv, dv, i + 1);
            }
            return Err("a token counter of a rollout record does not fit in 64 bits".to_owned());
        }
        i = i + 1;
    }
    proof {
        assert(fv.take(i as int) =~= fv);
        assert(dv.take(i as int) =~= dv);
    }
    Ok(total)
}

/// Counts the usage in rollout files read in order, with the day flags of each record.
/// Fails when a token counter would overflow 64 bits.
pub fn aggregate_with_days(files: &Vec<Vec<RolloutRecord>>, days: &Vec<Vec<bool>>) -> (r: Result<TokenUsage, String>)
    requires
        files@.len() == days@.len(),
        forall|i: int| 0 <= i < files@.len() ==> (#[trigger] files@[i])@.len() == days@[i]@.len(),
    ensures
        ({
            let p = files_progress(files_view(files@), days_view(days@));
            &&& r is Ok == (p.tally is Some)
            &&& r matches Ok(t) ==> tally_of(t) == p.tally->0 && t.consistent()
        }),
{
    let mut order: Vec<usize> = Vec::new();
    let mut i: usize = 0;
    while i < files.len()
        invariant
            i <= files@.len(),
            order@.len() == i,
            forall|k: int| 0 <= k < i ==> (#[trigger] order@[k]) == k,
        decreases files@.len() - i,
    {
        order.push(i);
        i = i + 1;
    }
    proof {
        assert(ordered(files_view(files@), order@) =~= files_view(files@));
        assert forall|k: int| 0 <= k < order@.len() implies files@[#[trigger] order@[k] as int]@.len() == days@[k]@.len() by {
            assert(order@[k] == k);
        }
    }
    aggregate_ordered(files, &order, days)
}

/// Once a counter overflowed in some file, the later files do not bring it back.
proof fn lemma_files_failure_sticks(files: Seq<Seq<RolloutRecord>>, days: Seq<Seq<bool>>, i: int)
    requires
        0 <= i <= files.len(),
        files.len() == days.len(),
        files_progress(files.take(i), days.take(i)).tally is None,
    ensures
        files_progress(files, days).tally is None,
    decreases files.len() - i,
{
    if i < files.len() {
        assert(files.take(i + 1).drop_last() =~= files.take(i));
        assert(days.take(i + 1).drop_last() =~= days.take(i));
        let before = files_progress(files.take(i), days.take(i));
        lemma_failure_sticks(file_start(before), files.take(i + 1).last(), days.take(i + 1).last());
        lemma_files_failure_sticks(files, days, i + 1);
    } else {
        assert(files.take(i) =~= files);
        assert(days.take(i) =~= days);
    }
}

} // verus!

verus! {

// ---------------------------------------------------------------------------------------
// Days
// ---------------------------------------------------------------------------------------

/// A day of the calendar.
#[derive(Debug, Clone, Copy, PartialEq, Eq, Structural)]
pub struct CalendarDay {
    pub year: i32,
    pub month: u32,
    pub day: u32,
}

/// The earliest Unix second that an RFC 3339 time can denote: the start of year 0 at an
/// offset of +23:59, rounded down to a whole day.
pub const RFC3339_FIRST_SECOND: i64 = -62_167_305_600;

/// The latest Unix second that an RFC 3339 time can denote: the end of year 9999 at an
/// offset of -23:59, rounded up to a whole day.
pub const RFC3339_LAST_SECOND: i64 = 253_402_387_199;

/// The date of the proleptic Gregorian calendar `days` days after 1970-01-01, as year,
/// month and day.
pub open spec fn gregorian_date(days: int) -> (int, int, int) {
    let z = days + 719468;
    let era = z / 146097;
    let doe = z % 146097;
    let yoe = (doe - doe / 1460 + doe / 36524 - doe / 146096) / 365;
    let doy = doe - (365 * yoe + yoe / 4 - yoe / 100);
    let mp = (5 * doy + 2) / 153;
    let d = doy - (153 * mp + 2) / 5 + 1;
    let m = if mp < 10 { mp + 3 } else { mp - 9 };
    let y = yoe + era * 400;
    (if m <= 2 { y + 1 } else { y }, m, d)
}

/// The date at Unix second `seconds` in a time zone `offset` seconds east of UTC.
pub open spec fn date_at(seconds: int, offset: int) -> (int, int, int) {
    gregorian_date((seconds + offset) / 86400)
}

/// A day as year, month and day.
pub open spec fn day_fields(d: CalendarDay) -> (int, int, int) {
    (d.year as int, d.month as int, d.day as int)
}

/// Whether Unix second `seconds` falls on `day` in some time zone less than a day away from
/// UTC, as every time zone is.
pub open spec fn within_a_day_of(seconds: int, day: CalendarDay) -> bool {
    exists|offset: int| -86400 < offset < 86400 && #[trigger] date_at(seconds, offset) == day_fields(day)
}

/// What chrono's RFC 3339 parser (`DateTime::parse_from_rfc3339`) makes of a text: the Unix
/// time, in whole seconds, of the instant it denotes; nothing when it is not RFC 3339.
pub uninterp spec fn rfc3339_unix_seconds(text: Seq<char>) -> Option<i64>;

/// chrono's `DateTime::parse_from_rfc3339`, followed by `DateTime::timestamp`: the instant
/// that an RFC 3339 text denotes, in whole Unix seconds. Stated: the result is
/// `rfc3339_unix_seconds` of the text, and, as the parser takes a four-digit year and an
/// offset within 23:59 of UTC, it lies between `RFC3339_FIRST_SECOND` and
/// `RFC3339_LAST_SECOND`.
#[verifier::external_body]
fn parse_rfc3339_seconds(text: &str) -> (r: Option<i64>)
    ensures
        r == rfc3339_unix_seconds(text@),
        r matches Some(s) ==> RFC3339_FIRST_SECOND <= s <= RFC3339_LAST_SECOND,
{
    match chrono::DateTime::parse_from_rfc3339(text) {
        Ok(instant) => Some(instant.timestamp()),
        Err(_) => None,
    }
}

/// chrono's `DateTime::from_timestamp`, then `with_timezone(&Local)` and `date_naive`: the
/// day, in the machine's local time zone, of a Unix time within the range of RFC 3339.
/// Stated: there is a day, and it is the date at the given second in some time zone less
/// than a day away from UTC (chrono's local offset is a `FixedOffset`, always so). Which
/// offset applies depends on the machine's time zone and is not stated.
#[verifier::external_body]
fn local_day_of(seconds: i64) -> (r: Option<CalendarDay>)
    requires
        RFC3339_FIRST_SECOND <= seconds <= RFC3339_LAST_SECOND,
    ensures
        r is Some,
        r matches Some(d) ==> within_a_day_of(seconds as int, d),
{
    match chrono::DateTime::from_timestamp(seconds, 0) {
        Some(utc) => {
            let local = utc.with_timezone(&chrono::Local).date_naive();
            Some(CalendarDay { year: local.year(), month: local.month(), day: local.day() })
        },
        None => None,
    }
}

/// Whether a record has an RFC 3339 `timestamp`.
pub open spec fn has_rfc3339_timestamp(record: JsonValue) -> bool {
    json_str(json_get(record, "timestamp"@)) matches Some(ts) && rfc3339_unix_seconds(ts) is Some
}

/// Whether a record's `timestamp` can fall on `day`: it is RFC 3339, and the day is its date
/// in some time zone less than a day away from UTC.
pub open spec fn may_fall_on(record: JsonValue, day: CalendarDay) -> bool {
    json_str(json_get(record, "timestamp"@)) matches Some(ts) && rfc3339_unix_seconds(ts) matches Some(s)
        && within_a_day_of(s as int, day)
}

/// Whether the local day of a time, where there is one, is `day`.
pub fn matches_day(local: Option<CalendarDay>, day: CalendarDay) -> (r: bool)
    ensures
        r == (local == Some(day)),
{
    match local {
        Some(d) => d == day,
        None => false,
    }
}

/// Whether the `timestamp` of `record` falls on `day` in the local time zone. Only a record
/// with an RFC 3339 timestamp within a day of `day` can.
pub fn on_day(record: &JsonValue, day: CalendarDay) -> (r: bool)
    ensures
        r ==> has_rfc3339_timestamp(*record) && may_fall_on(*record, day),
{
    match str_of(record.get("timestamp")) {
        Some(ts) => match parse_rfc3339_seconds(ts.as_str()) {
            Some(seconds) => matches_day(local_day_of(seconds), day),
            None => false,
        },
        None => false,
    }
}

/// The Unix time of a record's `timestamp`, when it is RFC 3339.
pub open spec fn record_seconds(record: JsonValue) -> Option<i64> {
    match json_str(json_get(record, "timestamp"@)) {
        Some(ts) => rfc3339_unix_seconds(ts),
        None => None,
    }
}

/// When a file starts: the time and the ordinal of its first record, a missing one before
/// any other.
pub open spec fn file_time(f: Seq<RolloutRecord>) -> (int, int) {
    if f.len() == 0 {
        (i64::MIN - 1, -1)
    } else {
        (
            match record_seconds(f[0].value) {
                Some(s) => s as int,
                None => i64::MIN - 1,
            },
            match json_u64(json_get(f[0].value, "ordinal"@)) {
                Some(o) => o as int,
                None => -1,
            },
        )
    }
}

/// Whether file `a` is read before file `b`: it starts earlier, by time, then by ordinal,
/// then by its place among the files.
pub open spec fn read_before(files: Seq<Seq<RolloutRecord>>, a: int, b: int) -> bool {
    let (sa, oa) = file_time(files[a]);
    let (sb, ob) = file_time(files[b]);
    sa < sb || (sa == sb && (oa < ob || (oa == ob && a < b)))
}

/// Whether position `i` is somewhere in `order`.
pub open spec fn listed(order: Seq<usize>, i: int) -> bool {
    exists|k: int| 0 <= k < order.len() && #[trigger] order[k] == i
}

/// Whether `order` holds each position of `files` once, in the order in which they are read.
pub open spec fn chronological(files: Seq<Seq<RolloutRecord>>, order: Seq<usize>) -> bool {
    &&& order.len() == files.len()
    &&& forall|k: int| 0 <= k < order.len() ==> (#[trigger] order[k]) < files.len()
    &&& forall|k: int, l: int| 0 <= k < l < order.len() ==> read_before(files, #[trigger] order[k] as int, #[trigger] order[l] as int)
    &&& forall|i: int| 0 <= i < files.len() ==> #[trigger] listed(order, i)
}

fn file_time_of(f: &Vec<RolloutRecord>) -> (r: (i128, i128))
    ensures
        (r.0 as int, r.1 as int) == file_time(f@),
{
    if f.len() == 0 {
        return (i64::MIN as i128 - 1, -1);
    }
    let first = &f[0].value;
    let seconds = match str_of(first.get("timestamp")) {
        Some(ts) => match parse_rfc3339_seconds(ts.as_str()) {
            Some(s) => s as i128,
            None => i64::MIN as i128 - 1,
        },
        None => i64::MIN as i128 - 1,
    };
    let ordinal = match u64_of(first.get("ordinal")) {
        Some(o) => o as i128,
        None => -1,
    };
    (seconds, ordinal)
}

/// The order in which to read rollout files: by the time of their first record, then by its
/// ordinal, files that start alike in the order given. A thread resumed in another file
/// is thus read in the order in which it was written. Whole files are ordered: the records
/// of a file are read in the order in which the file holds them, not regrouped by thread or
/// re-sorted by their own timestamps.
pub fn chronological_order(files: &Vec<Vec<RolloutRecord>>) -> (r: Vec<usize>)
    ensures
        chronological(files_view(files@), r@),
{
    let ghost fv = files_view(files@);
    let mut times: Vec<(i128, i128)> = Vec::new();
    let mut i: usize = 0;
    while i < files.len()
        invariant
            i <= files@.len(),
            fv == files_view(files@),
            times@.len() == i,
            forall|k: int| 0 <= k < i ==> (#[trigger] times@[k]).0 as int == file_time(fv[k]).0
                && times@[k].1 as int == file_time(fv[k]).1,
        decreases files@.len() - i,
    {
        let t = file_time_of(&files[i]);
        proof {
            assert(fv[i as int] == files@[i as int]@);
        }
        times.push(t);
        i = i + 1;
    }
    let mut order: Vec<usize> = Vec::new();
    let mut i: usize = 0;
    while i < files.len()
        invariant
            i <= files@.len(),
            fv == files_view(files@),
            fv.len() == files@.len(),
            times@.len() == files@.len(),
            forall|k: int| 0 <= k < files@.len() ==> (#[trigger] times@[k]).0 as int == file_time(fv[k]).0
                && times@[k].1 as int == file_time(fv[k]).1,
            order@.len() == i,
            forall|k: int| 0 <= k < order@.len() ==> (#[trigger] order@[k]) < i,
            forall|k: int, l: int| 0 <= k < l < order@.len() ==> read_before(fv, #[trigger] order@[k] as int, #[trigger] order@[l] as int),
            forall|j: int| 0 <= j < i ==> #[trigger] listed(order@, j),
        decreases files@.len() - i,
    {
        let ti = times[i];
        let mut pos: usize = 0;
        while pos < order.len()
            invariant
                pos <= order@.len(),
                i < files@.len(),
                ti == times@[i as int],
                times@.len() == files@.len(),
                forall|k: int| 0 <= k < files@.len() ==> (#[trigger] times@[k]).0 as int == file_time(fv[k]).0
                    && times@[k].1 as int == file_time(fv[k]).1,
                forall|k: int| 0 <= k < order@.len() ==> (#[trigger] order@[k]) < i,
                forall|k: int| 0 <= k < pos ==> read_before(fv, #[trigger] order@[k] as int, i as int),
            ensures
                pos <= order@.len(),
                forall|k: int| 0 <= k < pos ==> read_before(fv, #[trigger] order@[k] as int, i as int),
                pos < order@.len() ==> read_before(fv, i as int, order@[pos as int] as int),
            decreases order@.len() - pos,
        {
            let tk = times[order[pos]];
            proof {
                assert(times@[order@[pos as int] as int] == tk);
            }
            if ti.0 < tk.0 || (ti.0 == tk.0 && ti.1 < tk.1) {
                break;
            }
            pos = pos + 1;
        }
        let ghost before = order@;
        proof {
            if pos < before.len() {
                assert(read_before(fv, i as int, before[pos as int] as int));
                assert forall|k: int| pos <= k < before.len() implies read_before(fv, i as int, #[trigger] before[k] as int) by {
                    if k > pos {
                        assert(read_before(fv, before[pos as int] as int, before[k] as int));
                    }
                }
            }
        }
        order.insert(pos, i);
        proof {
            assert forall|k: int, l: int| 0 <= k < l < order@.len() implies read_before(
                fv,
                #[trigger] order@[k] as int,
                #[trigger] order@[l] as int,
            ) by {
                if l < pos {
                    assert(order@[k] == before[k] && order@[l] == before[l]);
                } else if l == pos {
                    assert(order@[k] == before[k]);
                } else if k < pos {
                    assert(order@[k] == before[k] && order@[l] == before[l - 1]);
                    assert(read_before(fv, before[k] as int, i as int));
                    assert(read_before(fv, i as int, before[l - 1] as int));
                } else if k == pos {
                    assert(order@[l] == before[l - 1]);
                } else {
                    assert(order@[k] == before[k - 1] && order@[l] == before[l - 1]);
                }
            }
            assert forall|j: int| 0 <= j < i + 1 implies #[trigger] listed(order@, j) by {
                if j == i {
                    assert(order@[pos as int] == i);
                } else {
                    assert(listed(before, j));
                    let k = choose|k: int| 0 <= k < before.len() && #[trigger] before[k] == j;
                    if k < pos {
                        assert(order@[k] == before[k]);
                    } else {
                        assert(order@[k + 1] == before[k]);
                    }
                }
            }
        }
        i = i + 1;
    }
    order
}

/// Whether `days` has a flag for each record of `files`, set only on records whose RFC 3339
/// timestamp can fall on `day`.
pub open spec fn plausible_days(files: Seq<Seq<RolloutRecord>>, days: Seq<Seq<bool>>, day: CalendarDay) -> bool {
    &&& files.len() == days.len()
    &&& forall|i: int| 0 <= i < files.len() ==> (#[trigger] files[i]).len() == days[i].len()
    &&& forall|i: int, j: int|
        0 <= i < files.len() && 0 <= j < files[i].len() && #[trigger] days[i][j] ==> may_fall_on(files[i][j].value, day)
}

/// The day flags of the records of one file.
pub fn day_flags(records: &Vec<RolloutRecord>, day: CalendarDay) -> (r: Vec<bool>)
    ensures
        r@.len() == records@.len(),
        forall|j: int| 0 <= j < r@.len() && #[trigger] r@[j] ==> may_fall_on(records@[j].value, day),
{
    let mut flags: Vec<bool> = Vec::new();
    let mut j: usize = 0;
    while j < records.len()
        invariant
            j <= records@.len(),
            flags@.len() == j,
            forall|k: int| 0 <= k < j && #[trigger] flags@[k] ==> may_fall_on(records@[k].value, day),
        decreases records@.len() - j,
    {
        flags.push(on_day(&records[j].value, day));
        j = j + 1;
    }
    flags
}

/// Counts the usage on `day` in rollout files, read in the order in which they were written
/// (see `chronological_order` and `files_progress`): whole files are ordered by their first
/// record, and each file's records are read in the order the file holds them. Fails when a token counter would
/// overflow 64 bits. Which records fall on the day depends on the local time zone; whatever
/// it is, the result is what the flags it gives lead to.
pub fn aggregate_rollouts(files: &Vec<Vec<RolloutRecord>>, day: CalendarDay) -> (r: Result<TokenUsage, String>)
    ensures
        exists|order: Seq<usize>, days: Seq<Seq<bool>>| {
            let p = files_progress(ordered(files_view(files@), order), days);
            &&& chronological(files_view(files@), order)
            &&& #[trigger] plausible_days(ordered(files_view(files@), order), days, day)
            &&& r is Ok == (p.tally is Some)
            &&& r matches Ok(t) ==> tally_of(t) == p.tally->0 && t.consistent()
        },
{
    let order = chronological_order(files);
    let ghost fv = files_view(files@);
    let mut days: Vec<Vec<bool>> = Vec::new();
    let mut i: usize = 0;
    while i < order.len()
        invariant
            chronological(fv, order@),
            fv == files_view(files@),
            i <= order@.len(),
            days@.len() == i,
            forall|k: int| 0 <= k < i ==> files@[#[trigger] order@[k] as int]@.len() == days@[k]@.len(),
            forall|k: int, j: int|
                0 <= k < i && 0 <= j < files@[order@[k] as int]@.len() && #[trigger] days@[k]@[j]
                    ==> may_fall_on(files@[order@[k] as int]@[j].value, day),
        decreases order@.len() - i,
    {
        proof {
            assert(order@[i as int] < files@.len());
        }
        days.push(day_flags(&files[order[i]], day));
        i = i + 1;
    }
    proof {
        assert forall|k: int| 0 <= k < order@.len() implies (#[trigger] order@[k]) < files@.len() by {
            assert(order@[k] < fv.len());
        }
    }
    let r = aggregate_ordered(files, &order, &days);
    proof {
        let dv = days_view(days@);
        let ov = ordered(fv, order@);
        assert(plausible_days(ov, dv, day)) by {
            assert forall|k: int| 0 <= k < ov.len() implies (#[trigger] ov[k]).len() == dv[k].len() by {
                assert(dv[k] == days@[k]@);
                assert(ov[k] == files@[order@[k] as int]@);
            }
            assert forall|k: int, j: int|
                0 <= k < ov.len() && 0 <= j < ov[k].len() && #[trigger] dv[k][j] implies may_fall_on(ov[k][j].value, day) by {
                assert(dv[k] == days@[k]@);
                assert(ov[k] == files@[order@[k] as int]@);
            }
        }
    }
    r
}

/// Whether a file name is that of a rollout: `.jsonl`, or `.jsonl.zst` when compressed.
pub open spec fn spec_is_rollout_name(name: Seq<char>) -> bool {
    seq_ends_with(name, ".jsonl"@) || seq_ends_with(name, ".jsonl.zst"@)
}

/// Whether the file name `name` is that of a rollout.
pub fn is_rollout_path(name: &str) -> (r: bool)
    ensures
        r == spec_is_rollout_name(name@),
{
    let chars = chars_of(name);
    chars_end_with(&chars, ".jsonl") || chars_end_with(&chars, ".jsonl.zst")
}

/// Whether a rollout file name is that of a compressed rollout.
pub fn is_compressed_rollout(name: &str) -> (r: bool)
    ensures
        r == seq_ends_with(name@, ".jsonl.zst"@),
{
    let chars = chars_of(name);
    chars_end_with(&chars, ".jsonl.zst")
}

} // verus!

verus! {

// ---------------------------------------------------------------------------------------
// Laws
// ---------------------------------------------------------------------------------------

proof fn lemma_delta_of_equal_is_zero(c: ModelUsage)
    ensures
        spec_usage_is_zero(spec_usage_delta(c, c)),
{
}

/// A cumulative record that repeats the stream's previous cumulative counters adds
/// nothing: duplicate snapshots are not counted twice.
pub proof fn law_repeated_cumulative_snapshot_adds_nothing(
    p: Progress,
    record: JsonValue,
    fingerprint: Seq<char>,
    on_day: bool,
    cumulative: ModelUsage,
)
    requires
        json_get(info_of(spec_payload_of(record)), "total_token_usage"@) matches Some(c)
            && spec_parse_usage(c) == Some(cumulative),
        p.stream.previous_total == Some(cumulative),
    ensures
        record_step(p, record, fingerprint, on_day).tally == p.tally,
{
    lemma_delta_of_equal_is_zero(cumulative);
}

/// Cumulative counters that went down mark a new epoch: each such counter counts its new
/// value in full, each that grew counts only its growth, and the new counters become the
/// baseline.
pub proof fn law_counter_reset_starts_a_new_epoch(
    st: StreamView,
    record: JsonValue,
    payload: JsonValue,
    previous: ModelUsage,
    cumulative: ModelUsage,
)
    requires
        json_get(info_of(payload), "total_token_usage"@) matches Some(c) && spec_parse_usage(c) == Some(cumulative),
        st.previous_total == Some(previous),
    ensures
        token_outcome(st, record, payload) matches TokenOutcome::Counted(next, _, usage) && {
            &&& next.previous_total == Some(cumulative)
            &&& usage.input == if cumulative.input < previous.input {
                cumulative.input as int
            } else {
                cumulative.input - previous.input
            }
            &&& usage.output == if cumulative.output < previous.output {
                cumulative.output as int
            } else {
                cumulative.output - previous.output
            }
            &&& usage.total == if cumulative.total < previous.total {
                cumulative.total as int
            } else {
                cumulative.total - previous.total
            }
        },
{
}

/// Whether a record falls on the requested day changes only what is counted: the stream
/// state, its baseline and the records seen advance alike, so that a session resumed on a
/// later day counts only new work.
pub proof fn law_baseline_advances_whatever_the_day(p: Progress, record: JsonValue, fingerprint: Seq<char>)
    ensures
        record_step(p, record, fingerprint, false).stream == record_step(p, record, fingerprint, true).stream,
        record_step(p, record, fingerprint, false).seen == record_step(p, record, fingerprint, true).seen,
        record_step(p, record, fingerprint, false).threads == record_step(p, record, fingerprint, true).threads,
{
}

/// A thread carries its baseline across files: when a later file names, in a
/// `session_meta` record, a thread read in any earlier file, the stream continues from the
/// model, cumulative counters and last older-format record that the thread was last left
/// with, so that a resumed session counts only its new work.
pub proof fn law_resumed_thread_keeps_its_baseline_across_files(
    before: Progress,
    record: JsonValue,
    fingerprint: Seq<char>,
    on_day: bool,
    t: Seq<char>,
)
    requires
        before.tally is Some,
        remember(before.threads, before.stream).contains_key(t),
        spec_is_record_type(record, spec_payload_of(record), "session_meta"@),
        after_session_meta(initial_stream(), spec_payload_of(record)).thread_id == Some(t),
    ensures
        ({
            let last = remember(before.threads, before.stream)[t];
            let next = record_step(file_start(before), record, fingerprint, on_day);
            &&& next.stream.thread_id == Some(t)
            &&& next.stream.current_model == last.current_model
            &&& next.stream.previous_total == last.previous_total
            &&& next.stream.previous_legacy == last.previous_legacy
            &&& next.tally == before.tally
        }),
{
    let start = file_start(before);
    assert(remember(start.threads, start.stream) == start.threads);
}

/// While other threads are read, record by record and across the start of a file, the
/// state that thread `t` was last left in stays as it is: a thread can be resumed however
/// many files later.
pub proof fn law_other_threads_keep_their_state(
    p: Progress,
    record: JsonValue,
    fingerprint: Seq<char>,
    on_day: bool,
    t: Seq<char>,
)
    requires
        p.stream.thread_id != Some(t),
    ensures
        record_step(p, record, fingerprint, on_day).threads.contains_key(t) == p.threads.contains_key(t),
        p.threads.contains_key(t) ==> record_step(p, record, fingerprint, on_day).threads[t] == p.threads[t],
        file_start(p).threads.contains_key(t) == p.threads.contains_key(t),
        p.threads.contains_key(t) ==> file_start(p).threads[t] == p.threads[t],
{
}

/// Usage of a record that is not on the requested day is never counted (the stream state
/// still advances).
pub proof fn law_records_off_the_day_are_not_counted(p: Progress, record: JsonValue, fingerprint: Seq<char>)
    ensures
        record_step(p, record, fingerprint, false).tally is Some ==> record_step(p, record, fingerprint, false).tally == p.tally,
{
}

/// A record from the history that a sub-agent inherited, below its history start, is never
/// counted, whatever the day.
pub proof fn law_inherited_history_is_not_counted(p: Progress, record: JsonValue, fingerprint: Seq<char>, on_day: bool)
    requires
        p.stream.subagent_history_start_ordinal matches Some(start)
            && json_u64(json_get(record, "ordinal"@)) matches Some(ordinal) && ordinal < start,
    ensures
        record_step(p, record, fingerprint, on_day).tally is Some ==> record_step(p, record, fingerprint, on_day).tally == p.tally,
{
}

/// Once a stream with a thread id has counted a record, the same record is a duplicate for
/// that stream: a token record is counted at most once per thread.
pub proof fn law_counted_record_is_a_duplicate_for_its_thread(
    st: StreamView,
    seen: Map<Seq<char>, Seq<OwnerView>>,
    fingerprint: Seq<char>,
)
    requires
        st.thread_id is Some,
    ensures
        duplicate_record(st, seen_after(st, seen, fingerprint, true), fingerprint),
{
    let after = seen_after(st, seen, fingerprint, true);
    let owners = after[fingerprint];
    assert(related_stream(st, owners[owners.len() - 1]));
}

/// A record counted by one stream is no duplicate for an unrelated stream: concurrent
/// sessions that report identical counters both count.
pub proof fn law_unrelated_streams_count_independently(
    first: StreamView,
    second: StreamView,
    fingerprint: Seq<char>,
)
    requires
        !related_stream(second, owner_of(first)),
    ensures
        !duplicate_record(second, seen_after(first, Map::empty(), fingerprint, true), fingerprint),
{
    let after = seen_after(first, Map::empty(), fingerprint, true);
    assert(after[fingerprint] =~= seq![owner_of(first)]);
}

/// Whether `v` is a string that names a model: something is left of it once trimmed.
pub open spec fn names_a_model(v: Option<JsonValue>) -> bool {
    json_str(v) matches Some(s) && trimmed(s).len() > 0
}

/// A `token_count` record is counted for the model of the current turn; without one, for
/// the first model, trimmed, that its per-turn usage, its `info` or its payload names, in
/// that order; and for `unknown-codex` only when none of them names one. A record with
/// cumulative counters that parse is always counted.
pub proof fn law_token_records_take_the_first_named_model(st: StreamView, record: JsonValue, payload: JsonValue)
    ensures
        (json_get(info_of(payload), "total_token_usage"@) matches Some(c) && spec_parse_usage(c) is Some)
            ==> token_outcome(st, record, payload) is Counted,
        ({
            let last_model = json_get_opt(last_usage_of(payload), "model"@);
            let info_model = json_get(info_of(payload), "model"@);
            let payload_model = json_get(payload, "model"@);
            token_outcome(st, record, payload) matches TokenOutcome::Counted(_, model, _) ==> {
                &&& st.current_model matches Some(m) ==> model == m
                &&& st.current_model is None && names_a_model(last_model) ==> model == trimmed(json_str(last_model)->0)
                &&& st.current_model is None && !names_a_model(last_model) && names_a_model(info_model)
                    ==> model == trimmed(json_str(info_model)->0)
                &&& st.current_model is None && !names_a_model(last_model) && !names_a_model(info_model)
                    && names_a_model(payload_model) ==> model == trimmed(json_str(payload_model)->0)
                &&& st.current_model is None && !names_a_model(last_model) && !names_a_model(info_model)
                    && !names_a_model(payload_model) ==> model == "unknown-codex"@
            }
        }),
{
}

/// A per-turn (older-format) token record counts its usage unless it repeats the stream's
/// previous such record exactly: the same timestamp, model and usage. A record with another
/// timestamp, or another usage, counts; the exact repeat of the previous record of the
/// current turn's model is skipped.
pub proof fn law_only_exact_repeats_of_per_turn_records_are_skipped(
    st: StreamView,
    record: JsonValue,
    payload: JsonValue,
    usage: ModelUsage,
)
    requires
        json_get(info_of(payload), "total_token_usage"@) is None,
        last_usage_of(payload) matches Some(l) && spec_parse_usage(l) == Some(usage),
    ensures
        ({
            let timestamp = json_str(json_get(record, "timestamp"@));
            let outcome = token_outcome(st, record, payload);
            &&& (st.previous_legacy matches Some(prev) ==> prev.timestamp != timestamp || prev.usage != usage)
                ==> (outcome matches TokenOutcome::Counted(next, _, u) && u == usage
                    && (next.previous_legacy matches Some(now) && now.timestamp == timestamp && now.usage == usage))
            &&& st.previous_legacy is None ==> (outcome matches TokenOutcome::Counted(_, _, u) && u == usage)
            &&& (st.previous_legacy matches Some(prev) && prev.timestamp == timestamp && prev.usage == usage
                && st.current_model == Some(prev.model)) ==> outcome == TokenOutcome::Ignored(st)
        }),
{
}

/// A usage object's counters are read from `input_tokens` (else `input`) and
/// `output_tokens` (else `output`), missing ones as zero; its total is the reported
/// `total_tokens` (else `total`) when that covers input and output, and input plus output
/// otherwise. It is refused only when input plus output does not fit in 64 bits.
pub proof fn law_usage_totals_cover_their_parts(v: JsonValue)
    ensures
        ({
            let input = match json_u64(json_get(v, "input_tokens"@)) {
                Some(n) => n as int,
                None => or_zero(json_u64(json_get(v, "input"@))),
            };
            let output = match json_u64(json_get(v, "output_tokens"@)) {
                Some(n) => n as int,
                None => or_zero(json_u64(json_get(v, "output"@))),
            };
            let reported = match json_u64(json_get(v, "total_tokens"@)) {
                Some(n) => n as int,
                None => or_zero(json_u64(json_get(v, "total"@))),
            };
            &&& spec_parse_usage(v) is None <==> input + output > u64::MAX
            &&& spec_parse_usage(v) matches Some(u) ==> {
                &&& u.input == input
                &&& u.output == output
                &&& u.total >= u.input + u.output
                &&& u.total == (if reported >= input + output { reported } else { input + output })
            }
        }),
{
}

} // verus!
