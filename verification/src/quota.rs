//! Quota reading through the Codex app-server: its errors, and the windows it reports.
use vstd::prelude::*;

use crate::json::{JsonValue, json_document, json_member_text, member_or_null, member_text, parse_json_text, take_member, i64_of, json_get, json_get_opt, json_i64, json_str, json_u64, opt_deref, str_of, u64_of};
use crate::text::{
    ascii_lower, ascii_lowercase_chars, chars_start_with, concat_str, decimal, decimal_chars, seq_starts_with,
    string_from_chars,
};
use crate::usage::RateLimitWindow;

verus! {

/// Why the Codex app-server could not be used.
#[derive(Debug)]
pub enum CodexClientError {
    NotFound,
    Spawn(String),
    Closed,
    Timeout,
    Protocol(String),
}

/// The message shown for an error.
pub open spec fn error_message(e: CodexClientError) -> Seq<char> {
    match e {
        CodexClientError::NotFound => "Codex CLI was not found. Install Codex and sign in first."@,
        CodexClientError::Spawn(s) => "Could not start Codex: "@ + s@,
        CodexClientError::Closed => "Codex app-server closed unexpectedly"@,
        CodexClientError::Timeout => "Codex app-server timed out"@,
        CodexClientError::Protocol(s) => "Codex app-server returned an error: "@ + s@,
    }
}

impl CodexClientError {
    /// The message shown for this error.
    pub fn message(&self) -> (r: String)
        ensures
            r@ == error_message(*self),
    {
        match self {
            CodexClientError::NotFound => "Codex CLI was not found. Install Codex and sign in first.".to_owned(),
            CodexClientError::Spawn(s) => concat_str("Could not start Codex: ", s.as_str()),
            CodexClientError::Closed => "Codex app-server closed unexpectedly".to_owned(),
            CodexClientError::Timeout => "Codex app-server timed out".to_owned(),
            CodexClientError::Protocol(s) => concat_str("Codex app-server returned an error: ", s.as_str()),
        }
    }
}

/// What a quota read found.
#[derive(Debug)]
pub enum QuotaRead {
    Authenticated(Vec<RateLimitWindow>),
    Unauthenticated,
}

/// Whether an `account/read` response names a signed-in account: its `account` is present
/// and not `null`.
pub open spec fn has_account(response: JsonValue) -> bool {
    match json_get(response, "account"@) {
        Some(JsonValue::Null) => false,
        Some(_) => true,
        None => false,
    }
}

/// Whether an `account/read` response names a signed-in account.
pub fn account_is_signed_in(response: &JsonValue) -> (r: bool)
    ensures
        r == has_account(*response),
{
    match response.get("account") {
        Some(account) => !account.is_null(),
        None => false,
    }
}

/// How a line from the app-server relates to a request.
#[derive(Debug, Clone, Copy, PartialEq, Eq, Structural)]
pub enum RpcReply {
    /// Not the answer to the request.
    Unrelated,
    /// The answer, with an `error`.
    Failed,
    /// The answer, with its `result` (or `null`).
    Succeeded,
}

/// How the message `message` answers request `id`.
pub open spec fn rpc_reply(message: JsonValue, id: u64) -> RpcReply {
    if json_u64(json_get(message, "id"@)) != Some(id) {
        RpcReply::Unrelated
    } else if json_get(message, "error"@) is Some {
        RpcReply::Failed
    } else {
        RpcReply::Succeeded
    }
}

/// Tells whether a message from the app-server answers request `id`, and how.
pub fn classify_rpc_reply(message: &JsonValue, id: u64) -> (r: RpcReply)
    ensures
        r == rpc_reply(*message, id),
{
    if u64_of(message.get("id")) != Some(id) {
        RpcReply::Unrelated
    } else if message.get("error").is_some() {
        RpcReply::Failed
    } else {
        RpcReply::Succeeded
    }
}

/// A line read from the app-server, as it bears on request `id`.
#[derive(Debug)]
pub enum RpcLine {
    /// Not a JSON document: it is skipped.
    NotJson,
    /// Not the answer to the request.
    Unrelated,
    /// The answer, with an error: the error as written by `serde_json`.
    Failed(String),
    /// The answer: its `result`, or `null`.
    Succeeded(JsonValue),
}

/// Reads a line from the app-server while waiting for the answer to request `id`: whether
/// it is JSON, whether it answers the request (see `rpc_reply`), and with what.
pub fn read_rpc_line(line: &str, id: u64) -> (r: RpcLine)
    ensures
        r is NotJson <==> json_document(line@) is None,
        json_document(line@) matches Some(doc) ==> match rpc_reply(doc, id) {
            RpcReply::Unrelated => r is Unrelated,
            RpcReply::Failed => r matches RpcLine::Failed(m) && m@ == json_member_text(line@, "error"@),
            RpcReply::Succeeded => r matches RpcLine::Succeeded(v) && v == member_or_null(doc, "result"@),
        },
{
    match parse_json_text(line) {
        None => RpcLine::NotJson,
        Some((doc, _)) => match classify_rpc_reply(&doc, id) {
            RpcReply::Unrelated => RpcLine::Unrelated,
            RpcReply::Failed => RpcLine::Failed(member_text(line, "error")),
            RpcReply::Succeeded => RpcLine::Succeeded(take_member(doc, "result")),
        },
    }
}

/// The rate-limit snapshot of a response: the Codex entry of `rateLimitsByLimitId`, else
/// `rateLimits`.
pub open spec fn limits_snapshot(response: JsonValue) -> Option<JsonValue> {
    match json_get_opt(json_get(response, "rateLimitsByLimitId"@), "codex"@) {
        Some(s) => Some(s),
        None => json_get(response, "rateLimits"@),
    }
}

/// The window `key` of a snapshot as a `RateLimitWindow` value: present when it has a
/// numeric `windowDurationMins`; its id is the snapshot's `limitId` (or `key`), a dash and
/// the duration; its used share is clamped to 100.
pub open spec fn window_of(snapshot: Option<JsonValue>, key: Seq<char>) -> Option<(Seq<char>, u64, u8, Option<i64>)> {
    let value = json_get_opt(snapshot, key);
    match json_u64(json_get_opt(value, "windowDurationMins"@)) {
        None => None,
        Some(duration) => {
            let limit = match json_str(json_get_opt(snapshot, "limitId"@)) {
                Some(l) => l,
                None => key,
            };
            let used = match json_u64(json_get_opt(value, "usedPercent"@)) {
                Some(u) => if u < 100 { u } else { 100 },
                None => 0,
            };
            Some((limit + "-"@ + decimal(duration as nat), duration, used as u8, json_i64(json_get_opt(value, "resetsAt"@))))
        },
    }
}

/// The value of a window.
pub open spec fn window_view(w: RateLimitWindow) -> (Seq<char>, u64, u8, Option<i64>) {
    (w.id@, w.duration_minutes, w.used_percent, w.resets_at)
}

/// The windows of a rate-limit response, primary first, skipping those without a
/// duration.
pub open spec fn normalized_windows(response: JsonValue) -> Seq<(Seq<char>, u64, u8, Option<i64>)> {
    let snapshot = limits_snapshot(response);
    let first = match window_of(snapshot, "primary"@) {
        Some(w) => seq![w],
        None => Seq::empty(),
    };
    match window_of(snapshot, "secondary"@) {
        Some(w) => first.push(w),
        None => first,
    }
}

fn window_from(snapshot: Option<&JsonValue>, key: &str) -> (r: Option<RateLimitWindow>)
    ensures
        match r {
            Some(w) => window_of(opt_deref(snapshot), key@) == Some(window_view(w)),
            None => window_of(opt_deref(snapshot), key@) is None,
        },
{
    let value = crate::json::get_opt(snapshot, key);
    let duration = match u64_of(crate::json::get_opt(value, "windowDurationMins")) {
        Some(d) => d,
        None => {
            return None;
        },
    };
    let limit = match str_of(crate::json::get_opt(snapshot, "limitId")) {
        Some(l) => concat_str(l.as_str(), "-"),
        None => concat_str(key, "-"),
    };
    let digits = string_from_chars(&decimal_chars(duration));
    let id = concat_str(limit.as_str(), digits.as_str());
    let used = match u64_of(crate::json::get_opt(value, "usedPercent")) {
        Some(u) => if u < 100 { u } else { 100 },
        None => 0,
    };
    Some(RateLimitWindow {
        id,
        duration_minutes: duration,
        used_percent: used as u8,
        resets_at: i64_of(crate::json::get_opt(value, "resetsAt")),
    })
}

/// The quota windows of an `account/rateLimits/read` response (see `normalized_windows`).
/// Windows of any duration are kept.
pub fn normalize_windows(response: &JsonValue) -> (r: Vec<RateLimitWindow>)
    ensures
        r@.map_values(|w: RateLimitWindow| window_view(w)) == normalized_windows(*response),
{
    let snapshot = match crate::json::get_opt(response.get("rateLimitsByLimitId"), "codex") {
        Some(s) => Some(s),
        None => response.get("rateLimits"),
    };
    let mut windows: Vec<RateLimitWindow> = Vec::new();
    if let Some(w) = window_from(snapshot, "primary") {
        windows.push(w);
    }
    if let Some(w) = window_from(snapshot, "secondary") {
        windows.push(w);
    }
    proof {
        assert(windows@.map_values(|w: RateLimitWindow| window_view(w)) =~= normalized_windows(*response));
    }
    windows
}

/// A response yields at most the primary and the secondary window, no window that the
/// response does not hold (one without a duration yields none), and no used share above 100.
pub proof fn law_windows_come_only_from_the_response(response: JsonValue)
    ensures
        normalized_windows(response).len() <= 2,
        normalized_windows(response).len() == (if window_of(limits_snapshot(response), "primary"@) is Some { 1int } else { 0int })
            + (if window_of(limits_snapshot(response), "secondary"@) is Some { 1int } else { 0int }),
        forall|i: int| 0 <= i < normalized_windows(response).len() ==> #[trigger] normalized_windows(response)[i].2 <= 100,
{
}

/// Whether a directory under the VS Code extensions is one of the ChatGPT extension: its
/// name, in ASCII lower case, begins with `openai.chatgpt-`.
pub fn is_codex_extension_directory(name: &str) -> (r: bool)
    ensures
        r == seq_starts_with(ascii_lower(name@), "openai.chatgpt-"@),
{
    chars_start_with(&ascii_lowercase_chars(name), "openai.chatgpt-")
}

/// The directory of the Windows target triple of the running architecture.
pub fn windows_target_directory(arm64: bool) -> (r: &'static str)
    ensures
        r@ == (if arm64 { "aarch64-pc-windows-msvc"@ } else { "x86_64-pc-windows-msvc"@ }),
{
    if arm64 {
        "aarch64-pc-windows-msvc"
    } else {
        "x86_64-pc-windows-msvc"
    }
}

} // verus!

verus! {

/// The npm package that holds the native executable for the architecture.
pub open spec fn platform_package(arm64: bool) -> Seq<char> {
    if arm64 { "codex-win32-arm64"@ } else { "codex-win32-x64"@ }
}

/// The target triple directory for the architecture.
pub open spec fn target_triple(arm64: bool) -> Seq<char> {
    if arm64 { "aarch64-pc-windows-msvc"@ } else { "x86_64-pc-windows-msvc"@ }
}

/// The vendor directories of the official npm package, relative to the launcher's
/// directory, in the order they are searched: the platform package nested in the `codex`
/// package, the platform package beside it, and the `codex` package's own.
pub open spec fn vendor_root(index: int, arm64: bool) -> Seq<Seq<char>> {
    if index == 0 {
        seq!["node_modules"@, "@openai"@, "codex"@, "node_modules"@, "@openai"@, platform_package(arm64), "vendor"@]
    } else if index == 1 {
        seq!["node_modules"@, "@openai"@, platform_package(arm64), "vendor"@]
    } else {
        seq!["node_modules"@, "@openai"@, "codex"@, "vendor"@]
    }
}

/// The candidate `index` for the native executable behind an npm launcher: vendor root
/// `index / 2`, then the triple, `bin` (even) or `codex` (odd), and `codex.exe`.
pub open spec fn npm_candidate(index: int, arm64: bool) -> Seq<Seq<char>> {
    vendor_root(index / 2, arm64) + seq![target_triple(arm64), if index % 2 == 0 { "bin"@ } else { "codex"@ }, "codex.exe"@]
}

/// The values of a list of path segment lists.
pub open spec fn segment_views(v: Seq<Vec<String>>) -> Seq<Seq<Seq<char>>> {
    v.map_values(|p: Vec<String>| p@.map_values(|s: String| s@))
}

fn segment_list(parts: &Vec<&str>) -> (r: Vec<String>)
    ensures
        r@.map_values(|s: String| s@) == parts@.map_values(|s: &str| s@),
{
    let mut out: Vec<String> = Vec::new();
    let mut i: usize = 0;
    while i < parts.len()
        invariant
            i <= parts@.len(),
            out@.len() == i,
            forall|k: int| 0 <= k < i ==> (#[trigger] out@[k])@ == parts@[k]@,
        decreases parts@.len() - i,
    {
        out.push(parts[i].to_owned());
        i = i + 1;
    }
    assert(out@.map_values(|s: String| s@) =~= parts@.map_values(|s: &str| s@));
    out
}

/// Where, relative to a directory that holds a `codex` launcher from npm, the native
/// executable of the official package may be, as path segments in the order tried.
pub fn npm_native_candidates(arm64: bool) -> (r: Vec<Vec<String>>)
    ensures
        segment_views(r@).len() == 6,
        forall|i: int| 0 <= i < 6 ==> #[trigger] segment_views(r@)[i] == npm_candidate(i, arm64),
{
    let platform: &str = if arm64 { "codex-win32-arm64" } else { "codex-win32-x64" };
    let triple = windows_target_directory(arm64);
    let mut out: Vec<Vec<String>> = Vec::new();
    let mut index: usize = 0;
    while index < 6
        invariant
            index <= 6,
            platform@ == platform_package(arm64),
            triple@ == target_triple(arm64),
            out@.len() == index,
            forall|i: int| 0 <= i < index ==> (#[trigger] out@[i])@.map_values(|s: String| s@) == npm_candidate(i, arm64),
        decreases 6 - index,
    {
        let mut parts: Vec<&str> = Vec::new();
        if index / 2 == 0 {
            parts.push("node_modules");
            parts.push("@openai");
            parts.push("codex");
            parts.push("node_modules");
            parts.push("@openai");
            parts.push(platform);
            parts.push("vendor");
        } else if index / 2 == 1 {
            parts.push("node_modules");
            parts.push("@openai");
            parts.push(platform);
            parts.push("vendor");
        } else {
            parts.push("node_modules");
            parts.push("@openai");
            parts.push("codex");
            parts.push("vendor");
        }
        parts.push(triple);
        if index % 2 == 0 {
            parts.push("bin");
        } else {
            parts.push("codex");
        }
        parts.push("codex.exe");
        let segments = segment_list(&parts);
        proof {
            assert(parts@.map_values(|s: &str| s@) =~= npm_candidate(index as int, arm64));
        }
        out.push(segments);
        index = index + 1;
    }
    assert forall|i: int| 0 <= i < 6 implies #[trigger] segment_views(out@)[i] == npm_candidate(i, arm64) by {
        assert(segment_views(out@)[i] == out@[i]@.map_values(|s: String| s@));
    }
    out
}

} // verus!
