//! Instants, lengths of time and monotonic clock readings as plain values,
//! and the two textual forms of an instant.

use vstd::prelude::*;
use crate::text::same_text;

verus! {

/// A point in time: seconds since 1970-01-01T00:00:00Z and the nanoseconds
/// into that second.
///
/// During a leap second `nanos` exceeds 999 999 999.
#[derive(Clone, Copy, Debug, PartialEq, Eq, Structural)]
pub struct Timestamp {
    pub secs: i64,
    pub nanos: u32,
}

impl Timestamp {
    /// Strictly earlier than `other`.
    pub open spec fn is_before(self, other: Timestamp) -> bool {
        self.secs < other.secs || (self.secs == other.secs && self.nanos < other.nanos)
    }

    /// Earlier than `other` or the same instant.
    pub open spec fn is_at_most(self, other: Timestamp) -> bool {
        self.is_before(other) || self == other
    }

    /// Nanoseconds since 1970-01-01T00:00:00Z.
    pub open spec fn total_nanos(self) -> int {
        self.secs * 1_000_000_000 + self.nanos
    }

    /// Whether this instant is strictly earlier than `other`.
    pub fn before(self, other: Timestamp) -> (yes: bool)
        ensures
            yes == self.is_before(other),
    {
        self.secs < other.secs || (self.secs == other.secs && self.nanos < other.nanos)
    }

    /// Whether more than `secs` seconds lie between this instant and the
    /// later instant `now`.
    pub fn older_than(self, secs: u64, now: Timestamp) -> (yes: bool)
        ensures
            yes == (now.total_nanos() - self.total_nanos() > secs * 1_000_000_000),
    {
        let then_nanos: i128 = (self.secs as i128) * 1_000_000_000 + (self.nanos as i128);
        let now_nanos: i128 = (now.secs as i128) * 1_000_000_000 + (now.nanos as i128);
        now_nanos - then_nanos > (secs as i128) * 1_000_000_000
    }
}

/// A length of time.
#[derive(Clone, Copy, Debug, PartialEq, Eq, Structural)]
pub struct Span {
    pub secs: u64,
    pub nanos: u32,
}

impl Span {
    /// The whole length in nanoseconds.
    pub open spec fn total_nanos(self) -> nat {
        (self.secs * 1_000_000_000 + self.nanos) as nat
    }

    /// No time at all.
    pub fn zero() -> (span: Span)
        ensures
            span == (Span { secs: 0, nanos: 0 }),
            span.total_nanos() == 0,
    {
        Span { secs: 0, nanos: 0 }
    }

    /// A whole number of seconds.
    pub fn from_secs(secs: u64) -> (span: Span)
        ensures
            span == (Span { secs, nanos: 0 }),
            span.total_nanos() == secs * 1_000_000_000,
    {
        Span { secs, nanos: 0 }
    }

    fn count_nanos(self) -> (n: u128)
        ensures
            n == self.total_nanos(),
    {
        (self.secs as u128) * 1_000_000_000 + (self.nanos as u128)
    }

    /// Whether this is no time at all.
    pub fn is_zero(self) -> (yes: bool)
        ensures
            yes == (self.total_nanos() == 0),
    {
        self.count_nanos() == 0
    }

    /// Whether this length is strictly less than `other`.
    pub fn shorter_than(self, other: Span) -> (yes: bool)
        ensures
            yes == (self.total_nanos() < other.total_nanos()),
    {
        self.count_nanos() < other.count_nanos()
    }

    /// The shorter of two lengths; `self` where they are equal.
    pub open spec fn shorter(self, other: Span) -> Span {
        if other.total_nanos() < self.total_nanos() {
            other
        } else {
            self
        }
    }

    /// The longer of two lengths; `self` where they are equal.
    pub open spec fn longer(self, other: Span) -> Span {
        if self.total_nanos() < other.total_nanos() {
            other
        } else {
            self
        }
    }

    /// The shorter of two lengths; `self` where they are equal.
    pub fn min(self, other: Span) -> (span: Span)
        ensures
            span == self.shorter(other),
    {
        if other.shorter_than(self) {
            other
        } else {
            self
        }
    }

    /// The longer of two lengths; `self` where they are equal.
    pub fn max(self, other: Span) -> (span: Span)
        ensures
            span == self.longer(other),
    {
        if self.shorter_than(other) {
            other
        } else {
            self
        }
    }
}

/// A reading of a clock that never runs backwards, in nanoseconds from an
/// origin that all readings share.
#[derive(Clone, Copy, Debug, PartialEq, Eq, Structural)]
pub struct Moment {
    pub nanos: u64,
}

impl Moment {
    /// Nanoseconds from `earlier` to this reading; none if `earlier` is not
    /// in fact earlier.
    pub open spec fn nanos_since(self, earlier: Moment) -> nat {
        if earlier.nanos <= self.nanos {
            (self.nanos - earlier.nanos) as nat
        } else {
            0
        }
    }

    /// Whether less than `span` has passed since `earlier`.
    pub fn within(self, earlier: Moment, span: Span) -> (yes: bool)
        ensures
            yes == (self.nanos_since(earlier) < span.total_nanos()),
    {
        let passed: u64 = if earlier.nanos <= self.nanos {
            self.nanos - earlier.nanos
        } else {
            0
        };
        (passed as u128) < span.count_nanos()
    }
}

/// The instant, as seconds and nanoseconds, that
/// `chrono::DateTime::parse_from_rfc3339` reads from a text; none where it
/// refuses the text.
pub uninterp spec fn rfc3339_instant(s: Seq<char>) -> Option<(i64, u32)>;

/// The text that chrono renders for an instant, given as seconds and
/// nanoseconds, with a format pattern; none where chrono has no such instant.
pub uninterp spec fn formatted_instant(secs: i64, nanos: u32, pattern: Seq<char>) -> Option<
    Seq<char>,
>;

/// The pattern of the canonical millisecond form.
pub open spec fn millisecond_pattern() -> Seq<char> {
    "%Y-%m-%dT%H:%M:%S%.3fZ"@
}

/// The instant, as seconds and nanoseconds, that
/// `chrono::DateTime::parse_from_rfc2822` reads from a text; none where it
/// refuses the text.
pub uninterp spec fn rfc2822_instant(s: Seq<char>) -> Option<(i64, u32)>;

/// Calls `chrono::DateTime::parse_from_rfc3339` and hands out the instant's
/// `timestamp` and `timestamp_subsec_nanos`. The result depends on the text
/// alone.
#[verifier::external_body]
fn chrono_parse_rfc3339(s: &str) -> (instant: Option<(i64, u32)>)
    ensures
        instant == rfc3339_instant(s@),
{
    match chrono::DateTime::parse_from_rfc3339(s) {
        Ok(t) => Some((t.timestamp(), t.timestamp_subsec_nanos())),
        Err(_) => None,
    }
}

/// Calls `chrono::DateTime::format` on the instant that
/// `chrono::DateTime::from_timestamp` makes of seconds and nanoseconds, with a
/// pattern. The result depends on these three alone; it is `None` exactly
/// where `from_timestamp` gives none. Patterns other than the canonical one
/// are left out, because rendering panics on one that chrono cannot read.
#[verifier::external_body]
fn chrono_format(secs: i64, nanos: u32, pattern: &str) -> (text: Option<String>)
    requires
        pattern@ == millisecond_pattern(),
    ensures
        match text {
            Some(t) => formatted_instant(secs, nanos, pattern@) == Some(t@),
            None => formatted_instant(secs, nanos, pattern@) is None,
        },
{
    match chrono::DateTime::from_timestamp(secs, nanos) {
        Some(t) => Some(t.format(pattern).to_string()),
        None => None,
    }
}

/// Calls `chrono::DateTime::parse_from_rfc2822` and hands out the instant's
/// `timestamp` and `timestamp_subsec_nanos`. The result depends on the text
/// alone.
#[verifier::external_body]
fn chrono_parse_rfc2822(s: &str) -> (instant: Option<(i64, u32)>)
    ensures
        instant == rfc2822_instant(s@),
{
    match chrono::DateTime::parse_from_rfc2822(s) {
        Ok(t) => Some((t.timestamp(), t.timestamp_subsec_nanos())),
        Err(_) => None,
    }
}

/// A pair of seconds and nanoseconds as an instant.
pub open spec fn as_timestamp(parts: Option<(i64, u32)>) -> Option<Timestamp> {
    match parts {
        Some((secs, nanos)) => Some(Timestamp { secs, nanos }),
        None => None,
    }
}

fn to_timestamp(parts: Option<(i64, u32)>) -> (t: Option<Timestamp>)
    ensures
        t == as_timestamp(parts),
{
    match parts {
        Some((secs, nanos)) => Some(Timestamp { secs, nanos }),
        None => None,
    }
}

/// The instant written by a canonical timestamp: `raw` must be exactly the
/// text that its own instant renders to.
pub open spec fn canonical_if(
    raw: Seq<char>,
    parsed: Option<Timestamp>,
    rendered: Option<Seq<char>>,
) -> Option<Timestamp> {
    if parsed is Some && rendered == Some(raw) {
        parsed
    } else {
        None
    }
}

/// The instant that `raw` writes in the canonical millisecond form
/// `YYYY-MM-DDTHH:MM:SS.mmmZ`, if it is in that form.
pub open spec fn canonical_instant(raw: Seq<char>) -> Option<Timestamp> {
    match rfc3339_instant(raw) {
        Some((secs, nanos)) => canonical_if(
            raw,
            Some(Timestamp { secs, nanos }),
            formatted_instant(secs, nanos, millisecond_pattern()),
        ),
        None => None,
    }
}

/// Accepts the instant read from `raw` only if rendering that instant gives
/// `raw` back.
pub fn accept_canonical(raw: &str, parsed: Option<Timestamp>, rendered: Option<&str>) -> (t: Option<
    Timestamp,
>)
    ensures
        t == canonical_if(
            raw@,
            parsed,
            match rendered {
                Some(r) => Some(r@),
                None => None,
            },
        ),
{
    match rendered {
        Some(r) => if same_text(r, raw) {
            parsed
        } else {
            None
        },
        None => None,
    }
}

/// Reads a timestamp that must be in the canonical millisecond form
/// `YYYY-MM-DDTHH:MM:SS.mmmZ`: any other spelling of an instant is refused.
pub fn parse_canonical_ms(raw: &str) -> (t: Option<Timestamp>)
    ensures
        t == canonical_instant(raw@),
{
    match chrono_parse_rfc3339(raw) {
        Some((secs, nanos)) => {
            let rendered = chrono_format(secs, nanos, "%Y-%m-%dT%H:%M:%S%.3fZ");
            let shown: Option<&str> = match &rendered {
                Some(r) => Some(r.as_str()),
                None => None,
            };
            accept_canonical(raw, Some(Timestamp { secs, nanos }), shown)
        },
        None => None,
    }
}

/// Reads the date of an HTTP header.
pub fn parse_http_date(raw: &str) -> (t: Option<Timestamp>)
    ensures
        t == as_timestamp(rfc2822_instant(raw@)),
{
    to_timestamp(chrono_parse_rfc2822(raw))
}

/// No instant has two canonical spellings: texts that are both canonical and
/// name the same instant are the same text.
pub proof fn law_canonical_spelling_is_unique(a: Seq<char>, b: Seq<char>)
    requires
        canonical_instant(a) is Some,
        canonical_instant(a) == canonical_instant(b),
    ensures
        a == b,
{
}

/// Instants are ordered as the time that they stand for, and an instant
/// stands for its seconds and nanoseconds.
pub proof fn law_instants_are_ordered_by_time(a: Timestamp, b: Timestamp)
    requires
        a.nanos < 1_000_000_000,
        b.nanos < 1_000_000_000,
    ensures
        a.total_nanos() == a.secs * 1_000_000_000 + a.nanos,
        a.is_before(b) <==> a.total_nanos() < b.total_nanos(),
        a.is_at_most(b) <==> a.total_nanos() <= b.total_nanos(),
{
}

/// Two instants are comparable, one within a leap second too: exactly one of
/// them is the earlier, unless they are the same.
pub proof fn law_instants_are_comparable(a: Timestamp, b: Timestamp, c: Timestamp)
    ensures
        a == b || a.is_before(b) || b.is_before(a),
        !(a.is_before(b) && b.is_before(a)),
        !a.is_before(a),
        a.is_before(b) && b.is_before(c) ==> a.is_before(c),
        a.is_at_most(b) <==> !b.is_before(a),
        a.secs < b.secs ==> a.is_before(b),
{
}

/// The shorter of two spans is one of them and no longer than either, the
/// longer is one of them and no shorter, and both are the first where the two
/// are equally long; since a moment, the time has passed that lies between,
/// and none since one to come.
pub proof fn law_spans_are_ordered_by_length(a: Span, b: Span, now: Moment, then: Moment)
    ensures
        a.total_nanos() == a.secs * 1_000_000_000 + a.nanos,
        a.shorter(b) == a || a.shorter(b) == b,
        a.shorter(b).total_nanos() <= a.total_nanos(),
        a.shorter(b).total_nanos() <= b.total_nanos(),
        a.longer(b) == a || a.longer(b) == b,
        a.longer(b).total_nanos() >= a.total_nanos(),
        a.longer(b).total_nanos() >= b.total_nanos(),
        a.total_nanos() == b.total_nanos() ==> a.shorter(b) == a && a.longer(b) == a,
        then.nanos <= now.nanos ==> now.nanos_since(then) == now.nanos - then.nanos,
        now.nanos <= then.nanos ==> now.nanos_since(then) == 0,
{
}

/// A text is the canonical spelling of an instant exactly if it names that
/// instant and the instant is written so in UTC, with three digits of a
/// second's fraction and a `Z`.
pub proof fn law_canonical_is_what_is_written(raw: Seq<char>, t: Timestamp)
    ensures
        canonical_instant(raw) == Some(t) <==> rfc3339_instant(raw) == Some((t.secs, t.nanos))
            && formatted_instant(t.secs, t.nanos, "%Y-%m-%dT%H:%M:%S%.3fZ"@) == Some(raw),
{
}

} // verus!
