//! Per-IP rate limits of the sensitive HTTP routes, and the error
//! envelope a refused or failed check is answered with.
use vstd::prelude::*;
use vstd::string::*;
use crate::text::{concat3, string_of, u64_digits, dec_seq};

verus! {

/// Rate limits are keyed by the client IP the request context resolved.
#[derive(Copy, Clone, Debug)]
pub struct ClientIpKey;

/// A route's limit: one request replenished every `period_ms`
/// milliseconds, up to `burst` at once.
#[derive(Copy, Clone, Debug)]
pub struct Bucket {
    pub name: &'static str,
    pub period_ms: u64,
    pub burst: u32,
}

impl Bucket {
    /// Sign-in: ten at once, one every twelve seconds.
    pub fn login() -> (r: Bucket)
        ensures
            r.name@ == "auth.login"@ && r.period_ms == 12_000 && r.burst == 10,
    {
        Bucket { name: "auth.login", period_ms: 12_000, burst: 10 }
    }

    pub fn oidc_callback() -> (r: Bucket)
        ensures
            r.name@ == "auth.oidc_callback"@ && r.period_ms == 12_000 && r.burst == 10,
    {
        Bucket { name: "auth.oidc_callback", period_ms: 12_000, burst: 10 }
    }

    pub fn register() -> (r: Bucket)
        ensures
            r.name@ == "auth.register"@ && r.period_ms == 12_000 && r.burst == 10,
    {
        Bucket { name: "auth.register", period_ms: 12_000, burst: 10 }
    }

    /// Password-reset requests: five at once, one every twelve minutes.
    pub fn password_reset_request() -> (r: Bucket)
        ensures
            r.name@ == "auth.password_reset_request"@ && r.period_ms == 720_000 && r.burst == 5,
    {
        Bucket { name: "auth.password_reset_request", period_ms: 720_000, burst: 5 }
    }

    pub fn password_reset_redeem() -> (r: Bucket)
        ensures
            r.name@ == "auth.password_reset_redeem"@ && r.period_ms == 360_000 && r.burst == 10,
    {
        Bucket { name: "auth.password_reset_redeem", period_ms: 360_000, burst: 10 }
    }

    pub fn resend_verification() -> (r: Bucket)
        ensures
            r.name@ == "auth.resend_verification"@ && r.period_ms == 720_000 && r.burst == 5,
    {
        Bucket { name: "auth.resend_verification", period_ms: 720_000, burst: 5 }
    }

    pub fn ws_ticket() -> (r: Bucket)
        ensures
            r.name@ == "ws_ticket"@ && r.period_ms == 33 && r.burst == 60,
    {
        Bucket { name: "ws_ticket", period_ms: 33, burst: 60 }
    }

    pub fn csp_report() -> (r: Bucket)
        ensures
            r.name@ == "csp_report"@ && r.period_ms == 600 && r.burst == 200,
    {
        Bucket { name: "csp_report", period_ms: 600, burst: 200 }
    }
}

/// How the limiter answered.
#[derive(Clone, Debug)]
pub enum LimiterOutcome {
    /// Over the limit; retry after `wait_time` seconds.
    TooManyRequests { wait_time: u64 },
    /// No client IP to key on.
    UnableToExtractKey,
    /// Another refusal, with its status code and message.
    Other { code: u16, msg: Option<String> },
}

/// The error envelope's status, code, message and retry hint.
#[derive(Clone, Debug)]
pub struct Envelope {
    pub status: u16,
    pub code: &'static str,
    pub message: String,
    pub retry_after_seconds: u64,
}

pub open spec fn envelope_for(bucket: Seq<char>, o: LimiterOutcome) -> (u16, Seq<char>, Seq<char>, u64) {
    match o {
        LimiterOutcome::TooManyRequests { wait_time } => (
            429,
            "rate_limited"@,
            "rate limit exceeded for "@ + bucket + "; retry in "@ + dec_seq(wait_time as nat)
                + "s"@,
            wait_time,
        ),
        LimiterOutcome::UnableToExtractKey => (
            500,
            "internal"@,
            "rate limiter key extraction failed"@,
            0,
        ),
        LimiterOutcome::Other { code, msg } => (
            code,
            "rate_limited"@,
            match msg {
                Some(m) => m@,
                None => "rate limited"@,
            },
            0,
        ),
    }
}

/// The envelope a refusal of `bucket` is answered with; a key failure
/// fails open as a server error.
pub fn envelope_for_outcome(bucket: &str, outcome: LimiterOutcome) -> (r: Envelope)
    ensures
        (r.status, r.code@, r.message@, r.retry_after_seconds) == envelope_for(bucket@, outcome),
{
    match outcome {
        LimiterOutcome::TooManyRequests { wait_time } => {
            let head = concat3("rate limit exceeded for ", bucket, "; retry in ");
            let n = string_of(&u64_digits(wait_time));
            let message = concat3(head.as_str(), n.as_str(), "s");
            Envelope { status: 429, code: "rate_limited", message, retry_after_seconds: wait_time }
        },
        LimiterOutcome::UnableToExtractKey => Envelope {
            status: 500,
            code: "internal",
            message: String::from_str("rate limiter key extraction failed"),
            retry_after_seconds: 0,
        },
        LimiterOutcome::Other { code, msg } => Envelope {
            status: code,
            code: "rate_limited",
            message: match msg {
                Some(m) => m,
                None => String::from_str("rate limited"),
            },
            retry_after_seconds: 0,
        },
    }
}

/// A `Retry-After` header is sent only with a positive hint.
pub fn sends_retry_after(retry_after_seconds: u64) -> (r: bool)
    ensures
        r == (retry_after_seconds > 0),
{
    retry_after_seconds > 0
}

/// Only a request over the limit is told to wait: a positive retry hint
/// comes with status 429 and exactly the limiter's wait; a failure to key
/// the request fails open as a server error with no hint.
pub proof fn lemma_envelope_retry(bucket: Seq<char>, o: LimiterOutcome)
    ensures
        envelope_for(bucket, o).3 > 0 ==> (o is TooManyRequests && envelope_for(bucket, o).0 == 429),
        o is TooManyRequests ==> envelope_for(bucket, o).3 == o->wait_time && envelope_for(
            bucket,
            o,
        ).0 == 429,
        o is UnableToExtractKey ==> envelope_for(bucket, o).0 == 500 && envelope_for(bucket, o).3 == 0,
{
}

} // verus!
