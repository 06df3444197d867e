//! Instants in UTC, as the adapters observe them.

use vstd::prelude::*;

verus! {

/// Whether `(secs, nanos)` names an instant that `chrono`'s `DateTime<Utc>` can hold:
/// the seconds lie between the first second of the year -262143 and the last
/// second of the year 262142, the nanoseconds are below two seconds, and only
/// the 59th second of a minute may carry a leap second (nanoseconds of one second or more).
pub open spec fn utc_representable(secs: int, nanos: int) -> bool {
    &&& -8_334_601_228_800 <= secs <= 8_210_266_876_799
    &&& 0 <= nanos < 2_000_000_000
    &&& nanos >= 1_000_000_000 ==> secs % 60 == 59
}

/// An instant in UTC: whole seconds since the Unix epoch and the nanoseconds
/// past that second (a leap second shows as nanoseconds of one second or more).
#[derive(Clone, Copy, Debug, PartialEq, Eq, Structural)]
pub struct Timestamp {
    pub(crate) secs: i64,
    pub(crate) nanos: u32,
}

/// `chrono::DateTime::<Utc>::from_timestamp(secs, nanos)`, read back as its
/// whole seconds and sub-second nanoseconds. Per chrono's source it is `Some`
/// exactly on the representable instants (see `utc_representable`), and then
/// it keeps both numbers as given.
#[verifier::external_body]
fn chrono_from_timestamp(secs: i64, nanos: u32) -> (r: Option<(i64, u32)>)
    ensures
        r is Some <==> utc_representable(secs as int, nanos as int),
        r matches Some(p) ==> p.0 == secs && p.1 == nanos,
{
    chrono::DateTime::from_timestamp(secs, nanos).map(|d| (d.timestamp(), d.timestamp_subsec_nanos()))
}

/// The RFC 3339 text that `chrono` writes for the instant `(secs, nanos)`
/// (`DateTime::<Utc>::to_rfc3339`).
pub uninterp spec fn rfc3339_text(secs: int, nanos: int) -> Seq<char>;

/// The instant, as `(secs, nanos)` in UTC, that `chrono` reads from an
/// RFC 3339 text (`DateTime::parse_from_rfc3339`), or `None` where it refuses the text.
pub uninterp spec fn rfc3339_instant(text: Seq<char>) -> Option<(int, int)>;

/// `chrono::DateTime::<Utc>::to_rfc3339` of a representable instant.
#[verifier::external_body]
fn chrono_to_rfc3339(secs: i64, nanos: u32) -> (r: String)
    requires
        utc_representable(secs as int, nanos as int),
    ensures
        r@ == rfc3339_text(secs as int, nanos as int),
{
    match chrono::DateTime::from_timestamp(secs, nanos) {
        Some(d) => d.to_rfc3339(),
        None => String::new(),
    }
}

/// The text that `chrono` shows for the instant `(secs, nanos)` in UTC
/// (the `Display` of `DateTime<Utc>`).
pub uninterp spec fn utc_display_text(secs: int, nanos: int) -> Seq<char>;

/// The `Display` text of `chrono::DateTime<Utc>` for a representable instant.
#[verifier::external_body]
fn chrono_display(secs: i64, nanos: u32) -> (r: String)
    requires
        utc_representable(secs as int, nanos as int),
    ensures
        r@ == utc_display_text(secs as int, nanos as int),
{
    match chrono::DateTime::from_timestamp(secs, nanos) {
        Some(d) => d.to_string(),
        None => String::new(),
    }
}

/// `chrono::DateTime::parse_from_rfc3339`, moved to UTC and read back as whole
/// seconds and sub-second nanoseconds. A parsed `DateTime` always lies in
/// chrono's representable range.
#[verifier::external_body]
fn chrono_parse_rfc3339(text: &str) -> (r: Option<(i64, u32)>)
    ensures
        r matches Some(p) ==> rfc3339_instant(text@) == Some((p.0 as int, p.1 as int))
            && utc_representable(p.0 as int, p.1 as int),
        r is None ==> rfc3339_instant(text@) is None,
{
    chrono::DateTime::parse_from_rfc3339(text).ok().map(|d| (d.timestamp(), d.timestamp_subsec_nanos()))
}

impl Timestamp {
    #[verifier::type_invariant]
    spec fn representable(self) -> bool {
        utc_representable(self.secs as int, self.nanos as int)
    }

    /// The instant `secs` seconds and `nanos` nanoseconds after the epoch.
    pub closed spec fn spec_at(secs: int, nanos: int) -> Timestamp {
        Timestamp { secs: secs as i64, nanos: nanos as u32 }
    }

    /// An instant is the one its seconds and nanoseconds name.
    pub broadcast proof fn lemma_at_parts(t: Timestamp)
        ensures
            #[trigger] Self::spec_at(t.spec_secs(), t.spec_nanos()) == t,
    {
    }

    /// The parts of a representable `spec_at` are the ones given.
    pub broadcast proof fn lemma_parts_of_at(secs: int, nanos: int)
        requires
            utc_representable(secs, nanos),
        ensures
            #[trigger] Self::spec_at(secs, nanos).spec_secs() == secs,
            Self::spec_at(secs, nanos).spec_nanos() == nanos,
    {
    }

    pub closed spec fn spec_secs(self) -> int {
        self.secs as int
    }

    pub closed spec fn spec_nanos(self) -> int {
        self.nanos as int
    }

    /// The instant `secs` seconds and `nanos` nanoseconds after the Unix
    /// epoch, where `chrono` can represent it.
    pub fn from_unix(secs: i64, nanos: u32) -> (r: Option<Timestamp>)
        ensures
            r == (if utc_representable(secs as int, nanos as int) {
                Some(Self::spec_at(secs as int, nanos as int))
            } else {
                None
            }),
    {
        match chrono_from_timestamp(secs, nanos) {
            Some((s, n)) => Some(Timestamp { secs: s, nanos: n }),
            None => None,
        }
    }

    /// The instant `millis` milliseconds after the Unix epoch, where `chrono`
    /// can represent it (as `TimeZone::timestamp_millis_opt` does).
    pub fn from_unix_millis(millis: i64) -> (r: Option<Timestamp>)
        ensures
            r == Self::spec_from_unix_millis(millis as int),
    {
        let mut secs = millis / 1000;
        let mut rem = millis % 1000;
        if rem < 0 {
            secs = secs - 1;
            rem = rem + 1000;
        }
        Self::from_unix(secs, (rem as u32) * 1_000_000)
    }

    /// Where `millis` since the epoch is representable, the instant it names.
    pub open spec fn spec_from_unix_millis(millis: int) -> Option<Timestamp> {
        let secs = millis / 1000;
        let nanos = (millis % 1000) * 1_000_000;
        if utc_representable(secs, nanos) {
            Some(Self::spec_at(secs, nanos))
        } else {
            None
        }
    }

    /// The Unix epoch.
    pub fn unix_epoch() -> (r: Timestamp)
        ensures
            r == Self::spec_at(0, 0),
            r.spec_secs() == 0 && r.spec_nanos() == 0,
    {
        Timestamp { secs: 0, nanos: 0 }
    }

    /// The instant that an RFC 3339 text names, as `chrono` reads it.
    pub fn parse_rfc3339(text: &str) -> (r: Option<Timestamp>)
        ensures
            r == match rfc3339_instant(text@) {
                Some(p) => Some(Self::spec_at(p.0, p.1)),
                None => None,
            },
    {
        match chrono_parse_rfc3339(text) {
            Some((s, n)) => Some(Timestamp { secs: s, nanos: n }),
            None => None,
        }
    }

    /// The RFC 3339 text of this instant, as `chrono` writes it.
    pub fn to_rfc3339(&self) -> (r: String)
        ensures
            r@ == rfc3339_text(self.spec_secs(), self.spec_nanos()),
    {
        proof {
            use_type_invariant(self);
        }
        chrono_to_rfc3339(self.secs, self.nanos)
    }

    /// This instant as `chrono` shows it in UTC.
    pub fn to_display(&self) -> (r: String)
        ensures
            r@ == utc_display_text(self.spec_secs(), self.spec_nanos()),
    {
        proof {
            use_type_invariant(self);
        }
        chrono_display(self.secs, self.nanos)
    }

    /// Whole seconds since the Unix epoch.
    pub fn secs(&self) -> (r: i64)
        ensures
            r == self.spec_secs(),
    {
        self.secs
    }

    /// Nanoseconds past the whole second.
    pub fn nanos(&self) -> (r: u32)
        ensures
            r == self.spec_nanos(),
    {
        self.nanos
    }

    /// Whether `self` comes strictly after `other`.
    pub open spec fn spec_is_after(self, other: Timestamp) -> bool {
        self.spec_secs() > other.spec_secs() || (self.spec_secs() == other.spec_secs()
            && self.spec_nanos() > other.spec_nanos())
    }

    /// Whether `self` comes strictly after `other`.
    pub fn is_after(&self, other: &Timestamp) -> (r: bool)
        ensures
            r == self.spec_is_after(*other),
    {
        self.secs > other.secs || (self.secs == other.secs && self.nanos > other.nanos)
    }
}

} // verus!
