//! Retry and recovery decisions for interrupted or failed provider streams.

use vstd::prelude::*;

use crate::error::{core_error_message, CoreError};
use crate::text::{contains_chars, contains_seq, decimal, decimal_string};

verus! {

pub const MAX_CONTEXT_RECOVERY_ATTEMPTS: u32 = 2;

pub const MAX_STREAM_DISCONNECT_RETRIES: u32 = 2;

pub const DEFAULT_MAX_CONNECT_RETRIES: u32 = 4;

/// Largest retry budget a provider override may configure.
pub const MAX_CONFIGURED_STREAM_RETRIES: u32 = 10;

/// What to do after a stream ended before its terminal event.
#[derive(Debug, Clone, PartialEq, Eq)]
pub enum StreamRecoveryDecision {
    StopAfterReplayBarrier { user_message: String, trace_message: String },
    Reconnect { attempt: u32, status_message: String, reset_reason: String, delay_ms: u128 },
    GiveUp { user_message: String, trace_message: String },
}

/// What to do after a connection attempt failed.
#[derive(Debug, Clone, PartialEq, Eq)]
pub enum StreamConnectRetryDecision {
    Retry { attempt: u32, delay_ms: u128, status_message: String },
    GiveUp { user_message: String, trace_message: String },
}

/// What to do after the provider reported a context-window overflow.
#[derive(Debug, Clone, PartialEq, Eq)]
pub enum ContextOverflowRecoveryDecision {
    Compact { attempt: u32, status_message: String },
    GiveUp { user_message: String },
}

pub enum StreamRecoverySpec {
    StopAfterReplayBarrier { user_message: Seq<char>, trace_message: Seq<char> },
    Reconnect { attempt: u32, status_message: Seq<char>, reset_reason: Seq<char>, delay_ms: u128 },
    GiveUp { user_message: Seq<char>, trace_message: Seq<char> },
}

pub enum ConnectRetrySpec {
    Retry { attempt: u32, delay_ms: u128, status_message: Seq<char> },
    GiveUp { user_message: Seq<char>, trace_message: Seq<char> },
}

pub enum ContextOverflowSpec {
    Compact { attempt: u32, status_message: Seq<char> },
    GiveUp { user_message: Seq<char> },
}

impl View for StreamRecoveryDecision {
    type V = StreamRecoverySpec;

    open spec fn view(&self) -> StreamRecoverySpec {
        match self {
            StreamRecoveryDecision::StopAfterReplayBarrier { user_message, trace_message } =>
                StreamRecoverySpec::StopAfterReplayBarrier {
                user_message: user_message@,
                trace_message: trace_message@,
            },
            StreamRecoveryDecision::Reconnect { attempt, status_message, reset_reason, delay_ms } =>
                StreamRecoverySpec::Reconnect {
                attempt: *attempt,
                status_message: status_message@,
                reset_reason: reset_reason@,
                delay_ms: *delay_ms,
            },
            StreamRecoveryDecision::GiveUp { user_message, trace_message } =>
                StreamRecoverySpec::GiveUp {
                user_message: user_message@,
                trace_message: trace_message@,
            },
        }
    }
}

impl View for StreamConnectRetryDecision {
    type V = ConnectRetrySpec;

    open spec fn view(&self) -> ConnectRetrySpec {
        match self {
            StreamConnectRetryDecision::Retry { attempt, delay_ms, status_message } =>
                ConnectRetrySpec::Retry {
                attempt: *attempt,
                delay_ms: *delay_ms,
                status_message: status_message@,
            },
            StreamConnectRetryDecision::GiveUp { user_message, trace_message } =>
                ConnectRetrySpec::GiveUp {
                user_message: user_message@,
                trace_message: trace_message@,
            },
        }
    }
}

impl View for ContextOverflowRecoveryDecision {
    type V = ContextOverflowSpec;

    open spec fn view(&self) -> ContextOverflowSpec {
        match self {
            ContextOverflowRecoveryDecision::Compact { attempt, status_message } =>
                ContextOverflowSpec::Compact { attempt: *attempt, status_message: status_message@ },
            ContextOverflowRecoveryDecision::GiveUp { user_message } =>
                ContextOverflowSpec::GiveUp { user_message: user_message@ },
        }
    }
}

/// Retry budgets of one model request.
#[derive(Debug, Clone, Copy)]
pub struct StreamRecoveryPolicy {
    max_context_recovery_attempts: u32,
    max_connect_retries: u32,
    max_disconnect_retries: u32,
}

impl StreamRecoveryPolicy {
    /// The reconnect budget never exceeds the configurable maximum.
    #[verifier::type_invariant]
    spec fn budgets_bounded(self) -> bool {
        self.max_disconnect_retries <= MAX_CONFIGURED_STREAM_RETRIES
    }
}

pub struct PolicyBudgets {
    pub context_recovery: u32,
    pub connect: u32,
    pub disconnect: u32,
}

impl View for StreamRecoveryPolicy {
    type V = PolicyBudgets;

    closed spec fn view(&self) -> PolicyBudgets {
        PolicyBudgets {
            context_recovery: self.max_context_recovery_attempts,
            connect: self.max_connect_retries,
            disconnect: self.max_disconnect_retries,
        }
    }
}

pub open spec fn pow2(n: nat) -> nat
    decreases n,
{
    if n == 0 {
        1
    } else {
        2 * pow2((n - 1) as nat)
    }
}

/// Backoff before connection retry number `attempt`: `5 * 2^min(attempt - 1, 3)`
/// seconds plus a deterministic jitter of `137 * attempt` milliseconds.
pub open spec fn retry_backoff_ms(attempt: u32) -> u128 {
    let exponent: nat = if attempt == 0 {
        0
    } else if attempt - 1 > 3 {
        3
    } else {
        (attempt - 1) as nat
    };
    (5 * pow2(exponent) * 1000 + 137 * attempt) as u128
}

/// Delay before stream reconnect number `attempt` (at least 1): `250 * 2^(attempt - 1)` ms.
pub open spec fn reconnect_delay_ms(attempt: u32) -> u128 {
    (250 * pow2((attempt - 1) as nat)) as u128
}

pub open spec fn context_overflow_markers() -> Seq<Seq<char>> {
    seq![
        "context length"@,
        "context window"@,
        "prompt_too_long"@,
        "prompt is too long"@,
        "maximum context"@,
        "too many tokens"@,
    ]
}

/// Unicode lowercase mapping of a string (`str::to_lowercase`).
pub uninterp spec fn unicode_lowercase(s: Seq<char>) -> Seq<char>;

/// `str::to_lowercase`. The contract names its result: it is the Unicode
/// lowercase mapping of the argument, a function of the argument alone.
#[verifier::external_body]
pub(crate) fn to_lowercase(s: &str) -> (r: String)
    ensures
        r@ == unicode_lowercase(s@),
{
    s.to_lowercase()
}

/// Provider error text that reports a context-window overflow.
pub open spec fn message_reports_overflow(message: Seq<char>) -> bool {
    let lower = unicode_lowercase(message);
    ||| (exists|i: int| 0 <= i < 6 && contains_seq(lower, #[trigger] context_overflow_markers()[i]))
    ||| (contains_seq(lower, "token limit"@) && contains_seq(lower, "input"@))
}

pub open spec fn is_context_overflow(error: CoreError) -> bool {
    match error {
        CoreError::ContextOverflow(..) => true,
        CoreError::Llm(m) => message_reports_overflow(m@),
        CoreError::TransientLlm(m) => message_reports_overflow(m@),
        _ => false,
    }
}

proof fn lemma_pow2_mono(a: nat, b: nat)
    requires
        a <= b,
    ensures
        1 <= pow2(a) <= pow2(b),
    decreases b,
{
    lemma_pow2_pos(b);
    if b > a {
        lemma_pow2_mono(a, (b - 1) as nat);
    }
}

proof fn lemma_pow2_pos(n: nat)
    ensures
        1 <= pow2(n),
    decreases n,
{
    if n > 0 {
        lemma_pow2_pos((n - 1) as nat);
    }
}

fn pow2_u64(n: u32) -> (r: u64)
    requires
        n <= 20,
    ensures
        r == pow2(n as nat),
        1 <= r <= 1048576,
{
    proof {
        reveal_with_fuel(pow2, 21);
        assert(pow2(20) == 1048576);
    }
    let mut r: u64 = 1;
    let mut i: u32 = 0;
    while i < n
        invariant
            i <= n <= 20,
            r == pow2(i as nat),
            pow2(20) == 1048576,
        decreases n - i,
    {
        proof {
            lemma_pow2_mono((i + 1) as nat, 20);
        }
        r = r * 2;
        i = i + 1;
    }
    proof {
        lemma_pow2_mono(n as nat, 20);
    }
    r
}

/// Backoff before connection retry number `attempt`.
pub fn retry_backoff_with_jitter(attempt: u32) -> (ms: u128)
    ensures
        ms == retry_backoff_ms(attempt),
        5000 <= ms,
{
    let exponent: u32 = if attempt == 0 {
        0
    } else if attempt - 1 > 3 {
        3
    } else {
        attempt - 1
    };
    let base = 5 * (pow2_u64(exponent) as u128) * 1000;
    base + 137 * (attempt as u128)
}

fn append_decimal(s: &mut String, n: u64)
    ensures
        final(s)@ == old(s)@ + decimal(n as nat),
{
    let d = decimal_string(n);
    s.append(d.as_str());
}


fn message_reports_context_overflow(message: &String) -> (b: bool)
    ensures
        b == message_reports_overflow(message@),
{
    let lower_text = to_lowercase(message.as_str());
    let lower = crate::text::chars_of(lower_text.as_str());
    let markers: [&str; 6] = [
        "context length",
        "context window",
        "prompt_too_long",
        "prompt is too long",
        "maximum context",
        "too many tokens",
    ];
    let mut i: usize = 0;
    while i < 6
        invariant
            i <= 6,
            lower@ == unicode_lowercase(message@),
            forall|k: int| 0 <= k < 6 ==> (#[trigger] markers@[k])@ == context_overflow_markers()[k],
            forall|k: int| 0 <= k < i ==> !contains_seq(lower@, #[trigger] context_overflow_markers()[k]),
        decreases 6 - i,
    {
        let marker = crate::text::chars_of(markers[i]);
        if contains_chars(lower.as_slice(), marker.as_slice()) {
            assert(marker@ == context_overflow_markers()[i as int]);
            assert(contains_seq(lower@, context_overflow_markers()[i as int]));
            assert(message_reports_overflow(message@));
            return true;
        }
        i = i + 1;
    }
    let token_limit = crate::text::chars_of("token limit");
    let input = crate::text::chars_of("input");
    contains_chars(lower.as_slice(), token_limit.as_slice()) && contains_chars(
        lower.as_slice(),
        input.as_slice(),
    )
}

impl StreamRecoveryPolicy {
    /// The default budgets: two context recoveries, four connection retries and
    /// two stream reconnects.
    pub fn new() -> (p: StreamRecoveryPolicy)
        ensures
            p@.context_recovery == MAX_CONTEXT_RECOVERY_ATTEMPTS,
            p@.connect == DEFAULT_MAX_CONNECT_RETRIES,
            p@.disconnect == MAX_STREAM_DISCONNECT_RETRIES,
    {
        StreamRecoveryPolicy {
            max_context_recovery_attempts: MAX_CONTEXT_RECOVERY_ATTEMPTS,
            max_connect_retries: DEFAULT_MAX_CONNECT_RETRIES,
            max_disconnect_retries: MAX_STREAM_DISCONNECT_RETRIES,
        }
    }

    /// Applies a provider's configured retry count (capped at ten) to both the
    /// connection and the reconnect budget.
    pub fn with_stream_max_retries(self, configured: Option<u32>) -> (p: StreamRecoveryPolicy)
        ensures
            p@.context_recovery == self@.context_recovery,
            match configured {
                Some(n) => {
                    let m = if n < MAX_CONFIGURED_STREAM_RETRIES {
                        n
                    } else {
                        MAX_CONFIGURED_STREAM_RETRIES
                    };
                    p@.connect == m && p@.disconnect == m
                },
                None => p@.connect == self@.connect && p@.disconnect == self@.disconnect,
            },
    {
        if let Some(max_retries) = configured {
            let max_retries = if max_retries < MAX_CONFIGURED_STREAM_RETRIES {
                max_retries
            } else {
                MAX_CONFIGURED_STREAM_RETRIES
            };
            StreamRecoveryPolicy {
                max_context_recovery_attempts: self.max_context_recovery_attempts,
                max_connect_retries: max_retries,
                max_disconnect_retries: max_retries,
            }
        } else {
            self
        }
    }

    pub fn max_connect_retries(self) -> (n: u32)
        ensures
            n == self@.connect,
    {
        self.max_connect_retries
    }

    pub fn max_disconnect_retries(self) -> (n: u32)
        ensures
            n == self@.disconnect,
    {
        self.max_disconnect_retries
    }

    /// Whether an error reports that the prompt exceeded the context window.
    pub fn is_context_overflow_error(error: &CoreError) -> (b: bool)
        ensures
            b == is_context_overflow(*error),
    {
        match error {
            CoreError::ContextOverflow(..) => true,
            CoreError::Llm(message) => message_reports_context_overflow(message),
            CoreError::TransientLlm(message) => message_reports_context_overflow(message),
            _ => false,
        }
    }
}


pub open spec fn context_overflow_spec(budget: u32, completed: u32, error: CoreError) -> ContextOverflowSpec {
    if completed >= budget {
        ContextOverflowSpec::GiveUp {
            user_message: "Context compression circuit breaker opened after "@ + decimal(
                budget as nat,
            ) + " recovery attempt(s): "@ + core_error_message(error),
        }
    } else {
        ContextOverflowSpec::Compact {
            attempt: (completed + 1) as u32,
            status_message: "Context window overflow detected. Compacting history and retrying ("@
                + decimal((completed + 1) as nat) + "/"@ + decimal(budget as nat) + ")"@,
        }
    }
}

pub open spec fn rate_limit_spec(budget: u32, completed: u32, retry_after_secs: u64) -> ConnectRetrySpec {
    let attempt = (completed + 1) as u32;
    if attempt > budget {
        ConnectRetrySpec::GiveUp {
            user_message: "Rate limited after "@ + decimal(budget as nat) + " retries"@,
            trace_message: "rate limited"@,
        }
    } else {
        let delay: u128 = if retry_after_secs > 0 {
            (retry_after_secs * 1000) as u128
        } else {
            retry_backoff_ms(attempt)
        };
        ConnectRetrySpec::Retry {
            attempt,
            delay_ms: delay,
            status_message: "Rate limited. Retrying in "@ + decimal((delay / 1000) as nat)
                + "s..."@,
        }
    }
}

pub open spec fn transient_error_spec(budget: u32, completed: u32, detail: Seq<char>) -> ConnectRetrySpec {
    let attempt = (completed + 1) as u32;
    if attempt > budget {
        let message = "Transient error after "@ + decimal(budget as nat) + " retries: "@ + detail;
        ConnectRetrySpec::GiveUp { user_message: message, trace_message: message }
    } else {
        ConnectRetrySpec::Retry {
            attempt,
            delay_ms: retry_backoff_ms(attempt),
            status_message: "Connection error. Retrying in "@ + decimal(
                (retry_backoff_ms(attempt) / 1000) as nat,
            ) + "s..."@,
        }
    }
}

pub open spec fn replay_barrier_message() -> Seq<char> {
    "The provider connection ended after a provider-hosted action had already started. Nexa kept the partial trace and did not replay the request because the remote action may have side effects."@
}

pub open spec fn repeated_disconnect_message() -> Seq<char> {
    "The model stream disconnected repeatedly. Partial output was preserved; retry when the provider connection is stable."@
}

pub open spec fn incomplete_spec(
    budget: u32,
    force_non_streaming: bool,
    completed: u32,
    replay_barrier_crossed: bool,
    detail: Seq<char>,
) -> StreamRecoverySpec {
    if replay_barrier_crossed {
        StreamRecoverySpec::StopAfterReplayBarrier {
            user_message: replay_barrier_message(),
            trace_message: "provider stream interrupted after irreversible hosted action; retry suppressed: "@
                + detail,
        }
    } else if !force_non_streaming && completed < budget {
        let attempt = (completed + 1) as u32;
        let reset = "Stream interrupted; reconnecting model stream ("@ + decimal(attempt as nat)
            + "/"@ + decimal(budget as nat) + ")."@;
        StreamRecoverySpec::Reconnect {
            attempt,
            status_message: reset + " ("@ + detail + ")"@,
            reset_reason: reset,
            delay_ms: reconnect_delay_ms(attempt),
        }
    } else {
        StreamRecoverySpec::GiveUp {
            user_message: repeated_disconnect_message(),
            trace_message: "model stream disconnected after "@ + decimal(budget as nat)
                + " replay attempt(s): "@ + detail,
        }
    }
}

impl StreamRecoveryPolicy {
    /// Compact and retry after a context overflow until the recovery budget is used.
    pub fn decide_after_context_overflow(self, completed_attempts: u32, error: &CoreError) -> (d:
        ContextOverflowRecoveryDecision)
        ensures
            d@ == context_overflow_spec(self@.context_recovery, completed_attempts, *error),
    {
        let budget = self.max_context_recovery_attempts;
        if completed_attempts >= budget {
            let mut m = String::new();
            m.append("Context compression circuit breaker opened after ");
            append_decimal(&mut m, budget as u64);
            m.append(" recovery attempt(s): ");
            let e = error.message();
            m.append(e.as_str());
            return ContextOverflowRecoveryDecision::GiveUp { user_message: m };
        }
        let attempt = completed_attempts + 1;
        let mut m = String::new();
        m.append("Context window overflow detected. Compacting history and retrying (");
        append_decimal(&mut m, attempt as u64);
        m.append("/");
        append_decimal(&mut m, budget as u64);
        m.append(")");
        ContextOverflowRecoveryDecision::Compact { attempt, status_message: m }
    }

    /// Retry a rate-limited connection, honoring the provider's retry-after hint.
    pub fn decide_after_rate_limit(self, completed_retries: u32, retry_after_secs: u64) -> (d:
        StreamConnectRetryDecision)
        requires
            completed_retries < u32::MAX,
        ensures
            d@ == rate_limit_spec(self@.connect, completed_retries, retry_after_secs),
    {
        let attempt = completed_retries + 1;
        if attempt > self.max_connect_retries {
            let mut m = String::new();
            m.append("Rate limited after ");
            append_decimal(&mut m, self.max_connect_retries as u64);
            m.append(" retries");
            let mut t = String::new();
            t.append("rate limited");
            return StreamConnectRetryDecision::GiveUp { user_message: m, trace_message: t };
        }
        let delay: u128 = if retry_after_secs > 0 {
            (retry_after_secs as u128) * 1000
        } else {
            retry_backoff_with_jitter(attempt)
        };
        let mut m = String::new();
        m.append("Rate limited. Retrying in ");
        let secs = delay / 1000;
        assert(secs <= u64::MAX) by {
            if retry_after_secs == 0 {
                lemma_backoff_bounds(attempt);
            }
        }
        append_decimal(&mut m, secs as u64);
        m.append("s...");
        StreamConnectRetryDecision::Retry { attempt, delay_ms: delay, status_message: m }
    }

    /// Retry a failed connection with exponential backoff until the budget is used.
    pub fn decide_after_transient_error(self, completed_retries: u32, detail: &str) -> (d:
        StreamConnectRetryDecision)
        requires
            completed_retries < u32::MAX,
        ensures
            d@ == transient_error_spec(self@.connect, completed_retries, detail@),
    {
        let attempt = completed_retries + 1;
        if attempt > self.max_connect_retries {
            let mut m = String::new();
            m.append("Transient error after ");
            append_decimal(&mut m, self.max_connect_retries as u64);
            m.append(" retries: ");
            m.append(detail);
            let t = m.clone();
            return StreamConnectRetryDecision::GiveUp { user_message: m, trace_message: t };
        }
        let delay = retry_backoff_with_jitter(attempt);
        proof {
            lemma_backoff_bounds(attempt);
        }
        let mut m = String::new();
        m.append("Connection error. Retrying in ");
        append_decimal(&mut m, (delay / 1000) as u64);
        m.append("s...");
        StreamConnectRetryDecision::Retry { attempt, delay_ms: delay, status_message: m }
    }

    /// Decide between reconnecting an interrupted stream and handing control back.
    pub fn decide_after_incomplete(
        self,
        force_non_streaming: bool,
        completed_retries: u32,
        replay_barrier_crossed: bool,
        detail: &str,
    ) -> (d: StreamRecoveryDecision)
        ensures
            d@ == incomplete_spec(
                self@.disconnect,
                force_non_streaming,
                completed_retries,
                replay_barrier_crossed,
                detail@,
            ),
    {
        proof {
            use_type_invariant(&self);
        }
        if replay_barrier_crossed {
            let mut u = String::new();
            u.append("The provider connection ended after a provider-hosted action had already started. Nexa kept the partial trace and did not replay the request because the remote action may have side effects.");
            let mut t = String::new();
            t.append("provider stream interrupted after irreversible hosted action; retry suppressed: ");
            t.append(detail);
            return StreamRecoveryDecision::StopAfterReplayBarrier { user_message: u, trace_message: t };
        }
        let budget = self.max_disconnect_retries;
        if !force_non_streaming && completed_retries < budget {
            let attempt = completed_retries + 1;
            let mut reset = String::new();
            reset.append("Stream interrupted; reconnecting model stream (");
            append_decimal(&mut reset, attempt as u64);
            reset.append("/");
            append_decimal(&mut reset, budget as u64);
            reset.append(").");
            let mut status = reset.clone();
            status.append(" (");
            status.append(detail);
            status.append(")");
            let factor = pow2_u64(attempt - 1);
            let delay = 250 * (factor as u128);
            return StreamRecoveryDecision::Reconnect {
                attempt,
                status_message: status,
                reset_reason: reset,
                delay_ms: delay,
            };
        }
        let mut u = String::new();
        u.append("The model stream disconnected repeatedly. Partial output was preserved; retry when the provider connection is stable.");
        let mut t = String::new();
        t.append("model stream disconnected after ");
        append_decimal(&mut t, budget as u64);
        t.append(" replay attempt(s): ");
        t.append(detail);
        StreamRecoveryDecision::GiveUp { user_message: u, trace_message: t }
    }
}

proof fn lemma_backoff_bounds(attempt: u32)
    ensures
        5000 + 137 * attempt <= retry_backoff_ms(attempt) <= 40000 + 137 * attempt,
{
    reveal_with_fuel(pow2, 4);
    let exponent: nat = if attempt == 0 {
        0
    } else if attempt - 1 > 3 {
        3
    } else {
        (attempt - 1) as nat
    };
    lemma_pow2_mono(exponent, 3);
}


impl Default for StreamRecoveryPolicy {
    fn default() -> (p: StreamRecoveryPolicy)
        ensures
            p@.context_recovery == MAX_CONTEXT_RECOVERY_ATTEMPTS,
            p@.connect == DEFAULT_MAX_CONNECT_RETRIES,
            p@.disconnect == MAX_STREAM_DISCONNECT_RETRIES,
    {
        StreamRecoveryPolicy::new()
    }
}

/// Once a provider-hosted action may have had side effects, the request is
/// never replayed, whatever the remaining budget or transport mode.
pub proof fn law_replay_barrier_disables_replay(
    budget: u32,
    force_non_streaming: bool,
    completed: u32,
    detail: Seq<char>,
)
    ensures
        incomplete_spec(budget, force_non_streaming, completed, true, detail) is StopAfterReplayBarrier,
{
}

/// Reconnects happen only in streaming mode, and only while the reconnect
/// budget lasts; their attempt numbers never exceed the budget.
pub proof fn law_reconnects_stay_within_budget(
    budget: u32,
    force_non_streaming: bool,
    completed: u32,
    barrier: bool,
    detail: Seq<char>,
)
    ensures
        incomplete_spec(budget, force_non_streaming, completed, barrier, detail) matches StreamRecoverySpec::Reconnect {
            attempt,
            ..
        } ==> !force_non_streaming && !barrier && 1 <= attempt <= budget && attempt == completed + 1,
{
}

/// Connection retries never exceed the connection budget.
pub proof fn law_connect_retries_stay_within_budget(
    budget: u32,
    completed: u32,
    retry_after_secs: u64,
    detail: Seq<char>,
)
    requires
        completed < u32::MAX,
    ensures
        rate_limit_spec(budget, completed, retry_after_secs) matches ConnectRetrySpec::Retry {
            attempt,
            ..
        } ==> attempt <= budget,
        transient_error_spec(budget, completed, detail) matches ConnectRetrySpec::Retry {
            attempt,
            ..
        } ==> attempt <= budget,
        (completed + 1 > budget) ==> rate_limit_spec(budget, completed, retry_after_secs) is GiveUp
            && transient_error_spec(budget, completed, detail) is GiveUp,
{
}

/// The retry backoff is bounded (5 to 40 seconds plus jitter) and never
/// shrinks as attempts grow.
pub proof fn law_backoff_bounded_and_monotone(a: u32, b: u32)
    requires
        a <= b,
    ensures
        5000 + 137 * a <= retry_backoff_ms(a) <= 40000 + 137 * a,
        retry_backoff_ms(a) <= retry_backoff_ms(b),
{
    lemma_backoff_bounds(a);
    lemma_backoff_bounds(b);
    let ea: nat = if a == 0 {
        0
    } else if a - 1 > 3 {
        3
    } else {
        (a - 1) as nat
    };
    let eb: nat = if b == 0 {
        0
    } else if b - 1 > 3 {
        3
    } else {
        (b - 1) as nat
    };
    lemma_pow2_mono(ea, eb);
    let pa = pow2(ea);
    let pb = pow2(eb);
    lemma_pow2_mono(eb, 3);
    reveal_with_fuel(pow2, 4);
    assert(5 * pa * 1000 <= 5 * pb * 1000) by (nonlinear_arith)
        requires
            pa <= pb,
    ;
    assert(retry_backoff_ms(a) == 5 * pa * 1000 + 137 * a);
    assert(retry_backoff_ms(b) == 5 * pb * 1000 + 137 * b);
}

/// A provider error (plain or transient) reports a context overflow exactly
/// when its lowercased text contains "context length", "context window",
/// "prompt_too_long", "prompt is too long", "maximum context" or "too many
/// tokens", or contains both "token limit" and "input". In particular an
/// error that mentions "input" without any of these, and without "token
/// limit", is no overflow: it is not answered by compacting the history.
pub proof fn law_overflow_is_recognised_by_its_markers(message: String)
    ensures
        ({
            let lower = unicode_lowercase(message@);
            let reported = contains_seq(lower, "context length"@) || contains_seq(
                lower,
                "context window"@,
            ) || contains_seq(lower, "prompt_too_long"@) || contains_seq(
                lower,
                "prompt is too long"@,
            ) || contains_seq(lower, "maximum context"@) || contains_seq(lower, "too many tokens"@)
                || (contains_seq(lower, "token limit"@) && contains_seq(lower, "input"@));
            &&& is_context_overflow(CoreError::Llm(message)) == reported
            &&& is_context_overflow(CoreError::TransientLlm(message)) == reported
        }),
        ({
            let lower = unicode_lowercase(message@);
            contains_seq(lower, "input"@) && !contains_seq(lower, "token limit"@) && !contains_seq(
                lower,
                "context length"@,
            ) && !contains_seq(lower, "context window"@) && !contains_seq(lower, "prompt_too_long"@)
                && !contains_seq(lower, "prompt is too long"@) && !contains_seq(
                lower,
                "maximum context"@,
            ) && !contains_seq(lower, "too many tokens"@) ==> !is_context_overflow(
                CoreError::Llm(message),
            ) && !is_context_overflow(CoreError::TransientLlm(message))
        }),
{
    let lower = unicode_lowercase(message@);
    let m = context_overflow_markers();
    assert(m[0] == "context length"@);
    assert(m[1] == "context window"@);
    assert(m[2] == "prompt_too_long"@);
    assert(m[3] == "prompt is too long"@);
    assert(m[4] == "maximum context"@);
    assert(m[5] == "too many tokens"@);
    let any_marker = exists|i: int| 0 <= i < 6 && contains_seq(lower, #[trigger] m[i]);
    let listed = contains_seq(lower, "context length"@) || contains_seq(lower, "context window"@)
        || contains_seq(lower, "prompt_too_long"@) || contains_seq(lower, "prompt is too long"@)
        || contains_seq(lower, "maximum context"@) || contains_seq(lower, "too many tokens"@);
    if any_marker {
        let i = choose|i: int| 0 <= i < 6 && contains_seq(lower, #[trigger] m[i]);
        assert(i == 0 || i == 1 || i == 2 || i == 3 || i == 4 || i == 5);
        assert(listed);
    }
    if listed {
        if contains_seq(lower, "context length"@) {
            assert(contains_seq(lower, m[0]));
        } else if contains_seq(lower, "context window"@) {
            assert(contains_seq(lower, m[1]));
        } else if contains_seq(lower, "prompt_too_long"@) {
            assert(contains_seq(lower, m[2]));
        } else if contains_seq(lower, "prompt is too long"@) {
            assert(contains_seq(lower, m[3]));
        } else if contains_seq(lower, "maximum context"@) {
            assert(contains_seq(lower, m[4]));
        } else {
            assert(contains_seq(lower, m[5]));
        }
    }
}

/// A context overflow is reported as such; among the other errors only a
/// provider error (plain or transient) can be an overflow, by its text.
pub proof fn law_only_provider_errors_are_read_for_overflow(error: CoreError)
    ensures
        error is ContextOverflow ==> is_context_overflow(error),
        is_context_overflow(error) ==> error is ContextOverflow || error is Llm
            || error is TransientLlm,
{
}

} // verus!
