//! The status that the monitor shows, field by field.

use vstd::prelude::*;
use crate::text::owned;

verus! {

/// One shown field: its value (if any is known), where it came from, when it
/// was observed (RFC 3339), how much it is trusted (in thousandths) and whether
/// it is a kept old value.
#[derive(Clone, Debug)]
pub struct StatusField<T> {
    pub value: Option<T>,
    pub source: Option<String>,
    pub observed_at: Option<String>,
    pub confidence: Option<u16>,
    pub stale: bool,
}

/// Whether a field shows nothing: no value, source, time or confidence, and not stale.
pub open spec fn is_empty_field<T>(f: StatusField<T>) -> bool {
    &&& f.value is None
    &&& f.source is None
    &&& f.observed_at is None
    &&& f.confidence is None
    &&& !f.stale
}

impl<T> Default for StatusField<T> {
    fn default() -> (r: Self)
        ensures
            is_empty_field(r),
    {
        StatusField { value: None, source: None, observed_at: None, confidence: None, stale: false }
    }
}

/// The whole status. Text fields hold `String`; numeric fields hold `N`
/// (the application uses `f64`).
#[derive(Clone, Debug)]
pub struct CodexStatus<N> {
    pub username: StatusField<String>,
    pub model: StatusField<String>,
    pub reasoning_effort: StatusField<String>,
    pub reasoning_speed: StatusField<N>,
    pub speed_mode: StatusField<String>,
    pub subscription: StatusField<String>,
    pub remaining_percent: StatusField<N>,
    pub reset_at: StatusField<String>,
    pub client_version: StatusField<String>,
    pub monthly_usage: StatusField<N>,
    pub weekly_duration_seconds: StatusField<N>,
    pub sync_state: String,
    pub message: Option<String>,
}

/// Whether every field of the status shows nothing.
pub open spec fn all_fields_empty<N>(s: CodexStatus<N>) -> bool {
    &&& is_empty_field(s.username)
    &&& is_empty_field(s.model)
    &&& is_empty_field(s.reasoning_effort)
    &&& is_empty_field(s.reasoning_speed)
    &&& is_empty_field(s.speed_mode)
    &&& is_empty_field(s.subscription)
    &&& is_empty_field(s.remaining_percent)
    &&& is_empty_field(s.reset_at)
    &&& is_empty_field(s.client_version)
    &&& is_empty_field(s.monthly_usage)
    &&& is_empty_field(s.weekly_duration_seconds)
}

impl<N> Default for CodexStatus<N> {
    fn default() -> (r: Self)
        ensures
            all_fields_empty(r),
            r.sync_state@ == Seq::<char>::empty(),
            r.message is None,
    {
        CodexStatus {
            username: StatusField::default(),
            model: StatusField::default(),
            reasoning_effort: StatusField::default(),
            reasoning_speed: StatusField::default(),
            speed_mode: StatusField::default(),
            subscription: StatusField::default(),
            remaining_percent: StatusField::default(),
            reset_at: StatusField::default(),
            client_version: StatusField::default(),
            monthly_usage: StatusField::default(),
            weekly_duration_seconds: StatusField::default(),
            sync_state: String::new(),
            message: None,
        }
    }
}

impl<N> CodexStatus<N> {
    /// A status with no field, waiting for reconnaissance, that shows `message`.
    pub fn unavailable(message: &str) -> (r: Self)
        ensures
            all_fields_empty(r),
            r.sync_state@ == "recon-required"@,
            r.message matches Some(m) && m@ == message@,
    {
        let mut r = Self::default();
        r.sync_state = owned("recon-required");
        r.message = Some(owned(message));
        r
    }

    /// A status with no field, for a provider that is not supported, that shows `message`.
    pub fn unsupported(message: &str) -> (r: Self)
        ensures
            all_fields_empty(r),
            r.sync_state@ == "unsupported"@,
            r.message matches Some(m) && m@ == message@,
    {
        let mut r = Self::default();
        r.sync_state = owned("unsupported");
        r.message = Some(owned(message));
        r
    }
}

} // verus!
