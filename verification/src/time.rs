//! Points in time and their renderings.

use vstd::prelude::*;

verus! {

/// The last second that a [`Timestamp`] can hold: the end of the year
/// 262142, the last one that `chrono` represents.
pub const MAX_SECONDS: i64 = 8_210_266_876_799;

/// The text of the instant `secs` seconds and `nanos` nanoseconds after
/// 1970-01-01T00:00:00Z in the format of RFC 3339, in UTC with the suffix
/// `Z`, with nine fractional digits when `nanos_precision` is set and none
/// otherwise, as `chrono` renders it.
pub uninterp spec fn rfc3339_text(secs: int, nanos: int, nanos_precision: bool) -> Seq<char>;

/// The text of the instant `secs` seconds and `nanos` nanoseconds after
/// 1970-01-01T00:00:00Z under the `strftime` pattern `pattern`, as `chrono`
/// renders it in UTC, or `None` when `chrono` cannot render the pattern.
pub uninterp spec fn pattern_text(secs: int, nanos: int, pattern: Seq<char>) -> Option<Seq<char>>;

/// An instant at or after the start of 1970, in UTC: whole seconds since
/// then, and the nanoseconds into that second.
#[derive(Debug, Clone, Copy)]
pub struct Timestamp {
    secs: i64,
    nanos: u32,
}

impl Timestamp {
    #[verifier::type_invariant]
    spec fn in_range(&self) -> bool {
        0 <= self.secs <= MAX_SECONDS && self.nanos < 1_000_000_000
    }

    /// Whether the instant lies in the range that a timestamp can hold.
    /// Every timestamp that this library hands out does.
    pub closed spec fn valid(&self) -> bool {
        0 <= self.secs <= MAX_SECONDS && self.nanos < 1_000_000_000
    }

    /// Seconds since the start of 1970.
    pub closed spec fn secs(&self) -> int {
        self.secs as int
    }

    /// Nanoseconds into the second.
    pub closed spec fn nanos(&self) -> int {
        self.nanos as int
    }

    /// Milliseconds since the start of 1970.
    pub open spec fn millis(&self) -> int {
        self.secs() * 1000 + self.nanos() / 1_000_000
    }

    /// A valid timestamp is not negative, and its milliseconds fit in 64
    /// bits.
    pub proof fn lemma_valid(&self)
        requires
            self.valid(),
        ensures
            0 <= self.secs() <= MAX_SECONDS,
            0 <= self.nanos() < 1_000_000_000,
            0 <= self.millis() <= u64::MAX,
    {
    }

    /// The instant `secs` seconds and `nanos` nanoseconds after the start of
    /// 1970, if it lies in the range that a timestamp can hold.
    pub fn new(secs: i64, nanos: u32) -> (at: Option<Timestamp>)
        ensures
            at is Some <==> 0 <= secs <= MAX_SECONDS && nanos < 1_000_000_000,
            at matches Some(t) ==> t.secs() == secs && t.nanos() == nanos && t.valid(),
    {
        if 0 <= secs && secs <= MAX_SECONDS && nanos < 1_000_000_000 {
            Some(Timestamp { secs, nanos })
        } else {
            None
        }
    }

    /// The current time, or `None` where the clock gives no instant that a
    /// timestamp can hold: one before 1970.
    pub fn now() -> (at: Option<Timestamp>)
        ensures
            at matches Some(t) ==> t.valid(),
    {
        let (secs, nanos) = read_clock();
        Timestamp::new(secs, nanos)
    }

    /// Seconds since the start of 1970.
    pub fn seconds(&self) -> (secs: u64)
        ensures
            secs == self.secs(),
            secs <= MAX_SECONDS,
            self.valid(),
    {
        proof {
            use_type_invariant(self);
        }
        self.secs as u64
    }

    /// Nanoseconds into the second.
    pub fn subsec_nanos(&self) -> (nanos: u32)
        ensures
            nanos == self.nanos(),
            nanos < 1_000_000_000,
    {
        proof {
            use_type_invariant(self);
        }
        self.nanos
    }

    /// Milliseconds since the start of 1970.
    pub fn milliseconds(&self) -> (millis: u64)
        ensures
            millis == self.millis(),
    {
        proof {
            use_type_invariant(self);
        }
        (self.secs as u64) * 1000 + (self.nanos / 1_000_000) as u64
    }

    /// The instant in the format of RFC 3339, with nanoseconds when
    /// `nanos_precision` is set and whole seconds otherwise.
    pub fn to_rfc3339(&self, nanos_precision: bool) -> (text: String)
        ensures
            text@ == rfc3339_text(self.secs(), self.nanos(), nanos_precision),
    {
        proof {
            use_type_invariant(self);
        }
        render_rfc3339(self.secs, self.nanos, nanos_precision)
    }

    /// The instant under the `strftime` pattern `pattern`, or `None` when
    /// the pattern cannot be rendered.
    pub fn format(&self, pattern: &str) -> (text: Option<String>)
        ensures
            match text {
                Some(t) => pattern_text(self.secs(), self.nanos(), pattern@) == Some(t@),
                None => pattern_text(self.secs(), self.nanos(), pattern@) is None,
            },
    {
        proof {
            use_type_invariant(self);
        }
        render_pattern(self.secs, self.nanos, pattern)
    }
}

/// Reads the system clock: `std::time::SystemTime::now`, converted by
/// `chrono`'s `From<SystemTime> for DateTime<Utc>`, as the seconds since the
/// start of 1970 and the nanoseconds into that second. For a clock that
/// stands before 1970 the seconds are negative.
///
/// Trusted: the nanoseconds are below one second. Nothing is claimed of the
/// seconds. The conversion returns for every clock that stands within the
/// years that `chrono` represents, which end with 262142.
#[verifier::external_body]
fn read_clock() -> (reading: (i64, u32))
    ensures
        reading.1 < 1_000_000_000,
{
    let now = chrono::DateTime::<chrono::Utc>::from(std::time::SystemTime::now());
    (now.timestamp(), now.timestamp_subsec_nanos())
}

/// Renders an instant with `chrono::DateTime::to_rfc3339_opts`, in UTC with
/// the suffix `Z`.
///
/// Trusted: the text is a function of the three arguments alone, named
/// `rfc3339_text`.
#[verifier::external_body]
fn render_rfc3339(secs: i64, nanos: u32, nanos_precision: bool) -> (text: String)
    requires
        0 <= secs <= MAX_SECONDS,
        nanos < 1_000_000_000,
    ensures
        text@ == rfc3339_text(secs as int, nanos as int, nanos_precision),
{
    let form = if nanos_precision {
        chrono::SecondsFormat::Nanos
    } else {
        chrono::SecondsFormat::Secs
    };
    chrono::DateTime::from_timestamp(secs, nanos).unwrap_or_default().to_rfc3339_opts(form, true)
}

/// Renders an instant with `chrono::DateTime::format`.
///
/// Trusted: whether `chrono` can render the pattern, and the text if it
/// can, are a function of the three arguments alone, named `pattern_text`.
#[verifier::external_body]
fn render_pattern(secs: i64, nanos: u32, pattern: &str) -> (text: Option<String>)
    requires
        0 <= secs <= MAX_SECONDS,
        nanos < 1_000_000_000,
    ensures
        match text {
            Some(t) => pattern_text(secs as int, nanos as int, pattern@) == Some(t@),
            None => pattern_text(secs as int, nanos as int, pattern@) is None,
        },
{
    let at = chrono::DateTime::from_timestamp(secs, nanos).unwrap_or_default();
    let mut text = String::new();
    match at.format(pattern).write_to(&mut text) {
        Ok(()) => Some(text),
        Err(_) => None,
    }
}

} // verus!
