//! Per-provider token buckets kept in Redis: the bucket definitions, the
//! key a bucket lives under, and how the reserve script's reply and a
//! snapshot read are turned into results.
use vstd::prelude::*;
use vstd::string::*;
use crate::text::{concat2, string_of, u64_digits, dec_seq};

verus! {

/// The outcome of one reservation.
#[derive(Copy, Clone, Debug, PartialEq, Eq, Structural)]
pub enum Reservation {
    Granted { remaining: u32, seconds_until_reset: u64 },
    Denied { retry_after_secs: u64 },
}

/// Why a reservation could not be made: Redis failed (its message), or
/// the script answered in an unexpected shape.
#[derive(Clone, Debug)]
pub enum BucketError {
    Redis(String),
    InvalidReply(String),
}

impl BucketError {
    pub fn message(&self) -> (r: String)
        ensures
            r@ == match *self {
                BucketError::Redis(m) => "redis error: "@ + m@,
                BucketError::InvalidReply(m) => "unexpected Lua return: "@ + m@,
            },
    {
        match self {
            BucketError::Redis(m) => concat2("redis error: ", m.as_str()),
            BucketError::InvalidReply(m) => concat2("unexpected Lua return: ", m.as_str()),
        }
    }
}

/// A token bucket: `capacity` requests per window of `window_secs`.
#[derive(Clone, Copy, Debug)]
pub struct BucketDef {
    pub key: &'static str,
    pub capacity: u32,
    pub window_secs: u64,
}

impl BucketDef {
    /// ComicVine's documented budget: 200 requests an hour per resource.
    pub fn comicvine_hour() -> (r: BucketDef)
        ensures
            r.key@ == "comicvine:hour"@,
            r.capacity == 200,
            r.window_secs == 3600,
    {
        BucketDef { key: "comicvine:hour", capacity: 200, window_secs: 3600 }
    }

    /// Metron's burst limit: 30 requests a minute.
    pub fn metron_min() -> (r: BucketDef)
        ensures
            r.key@ == "metron:min"@,
            r.capacity == 30,
            r.window_secs == 60,
    {
        BucketDef { key: "metron:min", capacity: 30, window_secs: 60 }
    }

    /// Metron's daily limit: 5000 requests a day.
    pub fn metron_day() -> (r: BucketDef)
        ensures
            r.key@ == "metron:day"@,
            r.capacity == 5000,
            r.window_secs == 86_400,
    {
        BucketDef { key: "metron:day", capacity: 5000, window_secs: 86_400 }
    }
}

/// The Redis key of a bucket.
pub fn redis_key(suffix: &str) -> (r: String)
    ensures
        r@ == "metadata:bucket:"@ + suffix@,
{
    concat2("metadata:bucket:", suffix)
}

pub open spec fn clamp0(v: i64) -> i64 {
    if v < 0 {
        0
    } else {
        v
    }
}

/// The script answers `{granted, remaining, ttl}`: granted 1 gives the
/// remaining count and the seconds to the window's reset (negative values
/// read as 0, the count truncated to 32 bits); any other flag is a denial
/// whose retry hint is at least one second.
pub open spec fn reply_outcome(raw: Seq<i64>) -> Result<Reservation, Seq<char>> {
    if raw.len() != 3 {
        Err("expected 3 elements, got "@ + dec_seq(raw.len()))
    } else if raw[0] == 1 {
        Ok(
            Reservation::Granted {
                remaining: clamp0(raw[1]) as u32,
                seconds_until_reset: clamp0(raw[2]) as u64,
            },
        )
    } else {
        Ok(
            Reservation::Denied {
                retry_after_secs: if clamp0(raw[2]) >= 1 {
                    clamp0(raw[2]) as u64
                } else {
                    1
                },
            },
        )
    }
}

/// Read the reserve script's reply.
pub fn parse_reply(raw: &[i64]) -> (r: Result<Reservation, BucketError>)
    ensures
        match r {
            Ok(v) => reply_outcome(raw@) == Ok::<Reservation, Seq<char>>(v),
            Err(BucketError::InvalidReply(m)) => reply_outcome(raw@) == Err::<Reservation, Seq<char>>(
                m@,
            ),
            Err(BucketError::Redis(_)) => false,
        },
{
    if raw.len() != 3 {
        let n = string_of(&u64_digits(raw.len() as u64));
        return Err(BucketError::InvalidReply(concat2("expected 3 elements, got ", n.as_str())));
    }
    let granted = raw[0];
    let rem: i64 = if raw[1] < 0 {
        0
    } else {
        raw[1]
    };
    let remaining = rem as u32;
    let ttl: u64 = if raw[2] < 0 {
        0
    } else {
        raw[2] as u64
    };
    if granted == 1 {
        Ok(Reservation::Granted { remaining, seconds_until_reset: ttl })
    } else {
        Ok(Reservation::Denied { retry_after_secs: if ttl >= 1 { ttl } else { 1 } })
    }
}

/// A bucket's state for the gauges: `(remaining, seconds to reset)`. An
/// absent key is a full bucket; otherwise the stored count (negative read
/// as 0, truncated to 32 bits) and the key's TTL (negative read as 0).
pub open spec fn snapshot_state(capacity: u32, stored: Option<(i64, i64)>) -> (u32, u64) {
    match stored {
        None => (capacity, 0),
        Some((n, ttl)) => (clamp0(n) as u32, clamp0(ttl) as u64),
    }
}

/// `stored` holds the key's count and TTL when the key exists.
pub fn snapshot_of(capacity: u32, stored: Option<(i64, i64)>) -> (r: (u32, u64))
    ensures
        r == snapshot_state(capacity, stored),
{
    match stored {
        None => (capacity, 0),
        Some((n, ttl)) => {
            let t: u64 = if ttl < 0 {
                0
            } else {
                ttl as u64
            };
            let c: i64 = if n < 0 {
                0
            } else {
                n
            };
            (c as u32, t)
        },
    }
}

/// A denial always asks the caller to wait at least a second.
pub proof fn lemma_denial_waits(raw: Seq<i64>)
    requires
        reply_outcome(raw) matches Ok(Reservation::Denied { retry_after_secs }),
    ensures
        reply_outcome(raw)->Ok_0->retry_after_secs >= 1,
{
}

/// A reply is read exactly when it has three elements; it grants exactly
/// when its flag is 1, and then reports the remaining count and the
/// seconds to reset as sent when they are in range (negative ones as 0);
/// a denial asks to wait the seconds sent, and at least one.
pub proof fn lemma_reply_laws(raw: Seq<i64>)
    ensures
        (reply_outcome(raw) is Ok) == (raw.len() == 3),
        (reply_outcome(raw) matches Ok(Reservation::Granted { .. })) == (raw.len() == 3 && raw[0]
            == 1),
        (raw.len() == 3 && raw[0] == 1 && 0 <= raw[1] <= u32::MAX) ==> reply_outcome(
            raw,
        )->Ok_0->remaining == raw[1],
        (raw.len() == 3 && raw[0] == 1 && raw[1] < 0) ==> reply_outcome(raw)->Ok_0->remaining == 0,
        (raw.len() == 3 && raw[0] == 1) ==> reply_outcome(raw)->Ok_0->seconds_until_reset == (if raw[2]
            < 0 {
            0
        } else {
            raw[2] as int
        }),
        (raw.len() == 3 && raw[0] != 1) ==> reply_outcome(raw)->Ok_0->retry_after_secs == (if raw[2]
            < 1 {
            1
        } else {
            raw[2] as int
        }),
{
}

} // verus!
