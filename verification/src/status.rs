//! The dashboard snapshot that a refresh produces.
use vstd::prelude::*;

use crate::pricing::{PRICING_VERSION, PricingEstimate, estimate, priced_value, string_views, unpriced_models};
use crate::quota::{CodexClientError, QuotaRead, error_message};
use crate::usage::{ModelEntry, RateLimitWindow, TokenUsage, zero_usage};

verus! {

/// The state of the Codex connection shown by the HUD.
#[derive(Debug, Clone, Copy, PartialEq, Eq, Structural)]
pub enum ConnectionState {
    Disabled,
    Connecting,
    Ready,
    Disconnected,
    Unauthenticated,
    Offline,
    Error,
}

/// One coherent snapshot of quota, token usage and its value.
#[derive(Debug)]
pub struct DashboardStatus {
    pub connection: ConnectionState,
    pub windows: Vec<RateLimitWindow>,
    pub tokens: TokenUsage,
    pub pricing: PricingEstimate,
    pub updated_at: Option<i64>,
    pub message: Option<String>,
}

/// Whether `p` is the estimate of no usage: a value of zero, no models.
pub open spec fn is_zero_estimate(p: PricingEstimate) -> bool {
    &&& p.value == Some(0u128)
    &&& p.unavailable_models@.len() == 0
    &&& p.estimated_models@.len() == 0
    &&& p.version@ == PRICING_VERSION@
}

/// Whether `s` is a snapshot without data: no windows, no usage, a zero estimate, no time.
pub open spec fn is_empty_status(s: DashboardStatus, connection: ConnectionState) -> bool {
    &&& s.connection == connection
    &&& s.windows@.len() == 0
    &&& s.tokens.totals() == zero_usage()
    &&& s.tokens.by_model.entry_seq().len() == 0
    &&& is_zero_estimate(s.pricing)
    &&& s.updated_at is None
}

/// A snapshot in state `connection` with no data, carrying `message`.
pub fn empty_status(connection: ConnectionState, message: Option<String>) -> (r: DashboardStatus)
    ensures
        is_empty_status(r, connection),
        r.message == message,
{
    let tokens = TokenUsage::default();
    let pricing = estimate(&tokens);
    proof {
        assert(unpriced_models(tokens.by_model.entry_seq()) =~= Seq::<Seq<char>>::empty());
        assert(priced_value(tokens.by_model.entry_seq()) == 0);
        assert(string_views(pricing.unavailable_models@).len() == pricing.unavailable_models@.len());
    }
    DashboardStatus { connection, windows: Vec::new(), tokens, pricing, updated_at: None, message }
}

impl DashboardStatus {
    /// The snapshot shown while Codex access is off.
    pub fn disabled() -> (r: Self)
        ensures
            is_empty_status(r, ConnectionState::Disabled),
            r.message is None,
    {
        empty_status(ConnectionState::Disabled, None)
    }
}

/// Refuses Codex access unless it is enabled.
pub fn require_enabled(enabled: bool) -> (r: Result<(), String>)
    ensures
        r is Ok <==> enabled,
        r matches Err(m) ==> m@ == "Codex access is disabled"@,
{
    if enabled {
        Ok(())
    } else {
        Err("Codex access is disabled".to_owned())
    }
}

/// The snapshot shown when Codex is not installed.
pub fn disconnected_status() -> (r: DashboardStatus)
    ensures
        is_empty_status(r, ConnectionState::Disconnected),
        r.message matches Some(m) && m@ == "Codex isn't connected yet"@,
{
    empty_status(ConnectionState::Disconnected, Some("Codex isn't connected yet".to_owned()))
}

/// The snapshot shown when no account is signed in to Codex.
pub fn unauthenticated_status() -> (r: DashboardStatus)
    ensures
        is_empty_status(r, ConnectionState::Unauthenticated),
        r.message matches Some(m) && m@ == "Sign in through Codex to read quota."@,
{
    empty_status(ConnectionState::Unauthenticated, Some("Sign in through Codex to read quota.".to_owned()))
}

/// What a failed quota read amounts to: a missing Codex is a normal disconnected state;
/// any other failure is an error with the failure's message.
pub fn quota_error_status(error: CodexClientError) -> (r: Result<DashboardStatus, String>)
    ensures
        error is NotFound <==> r is Ok,
        r matches Ok(s) ==> is_empty_status(s, ConnectionState::Disconnected)
            && (s.message matches Some(m) && m@ == "Codex isn't connected yet"@),
        r matches Err(m) ==> m@ == error_message(error),
{
    match error {
        CodexClientError::NotFound => Ok(disconnected_status()),
        other => Err(other.message()),
    }
}

/// What a refresh does after reading the quota.
#[derive(Debug)]
pub enum RefreshStep {
    /// The refresh is over, with this result.
    Finished(Result<DashboardStatus, String>),
    /// Quota windows were read; the day's token usage is read next.
    ReadTokens(Vec<RateLimitWindow>),
}

/// The step after a quota read: a failure ends the refresh (see `quota_error_status`), an
/// unauthenticated read ends it with the sign-in snapshot, windows lead to the token read.
pub fn refresh_after_quota(quota: Result<QuotaRead, CodexClientError>) -> (r: RefreshStep)
    ensures
        match quota {
            Err(e) => r matches RefreshStep::Finished(f) && (e is NotFound <==> f is Ok)
                && (f matches Ok(s) ==> is_empty_status(s, ConnectionState::Disconnected)
                    && (s.message matches Some(m) && m@ == "Codex isn't connected yet"@))
                && (f matches Err(m) ==> m@ == error_message(e)),
            Ok(QuotaRead::Unauthenticated) => r matches RefreshStep::Finished(Ok(s))
                && is_empty_status(s, ConnectionState::Unauthenticated)
                && (s.message matches Some(m) && m@ == "Sign in through Codex to read quota."@),
            Ok(QuotaRead::Authenticated(windows)) => r matches RefreshStep::ReadTokens(w) && w == windows,
        },
{
    match quota {
        Err(error) => RefreshStep::Finished(quota_error_status(error)),
        Ok(QuotaRead::Unauthenticated) => RefreshStep::Finished(Ok(unauthenticated_status())),
        Ok(QuotaRead::Authenticated(windows)) => RefreshStep::ReadTokens(windows),
    }
}

/// The snapshot of a complete refresh: the windows read, the day's usage and its value,
/// stamped with `updated_at` (milliseconds since the Unix epoch).
pub fn ready_status(windows: Vec<RateLimitWindow>, tokens: TokenUsage, updated_at: i64) -> (r: DashboardStatus)
    requires
        tokens.by_model@.len() < 0x1_0000_0000,
    ensures
        r.connection == ConnectionState::Ready,
        r.windows == windows,
        r.tokens == tokens,
        r.pricing.value == Some(priced_value(tokens.by_model.entry_seq()) as u128),
        string_views(r.pricing.unavailable_models@) == unpriced_models(tokens.by_model.entry_seq()),
        r.pricing.estimated_models@.len() == 0,
        r.pricing.version@ == PRICING_VERSION@,
        r.updated_at == Some(updated_at),
        r.message is None,
{
    let pricing = estimate(&tokens);
    DashboardStatus {
        connection: ConnectionState::Ready,
        windows,
        tokens,
        pricing,
        updated_at: Some(updated_at),
        message: None,
    }
}

} // verus!
