//! Which source answers a status request, and how values read through a
//! field mapping become status fields.

use vstd::prelude::*;
use crate::mapping::safe_relative;
use crate::paths::{has_parent_component, is_absolute_path};
use crate::pattern::{compile_reporting, last_group, regex_compiles, regex_error_text, regex_last_group};
use crate::status::{all_fields_empty, CodexStatus, StatusField};
use crate::text::{owned, push_text, str_eq};

verus! {

/// How a status request is answered.
#[derive(Clone, Copy, Debug, PartialEq, Eq, Structural)]
pub enum StatusRoute {
    /// An interception provider, which is not implemented.
    Unsupported,
    /// The structural snapshot, and the field mapping where it fails.
    Snapshot,
    /// The field mapping alone.
    Mapped,
}

/// The route for a provider name: `mitm` is unsupported, `auto` takes the
/// snapshot, `file`, `log`, `loopback` and `recon` take the field mapping;
/// any other name is refused.
pub open spec fn spec_status_route(provider: Seq<char>) -> Option<StatusRoute> {
    if provider == "mitm"@ {
        Some(StatusRoute::Unsupported)
    } else if provider == "auto"@ {
        Some(StatusRoute::Snapshot)
    } else if provider == "file"@ || provider == "log"@ || provider == "loopback"@ || provider
        == "recon"@ {
        Some(StatusRoute::Mapped)
    } else {
        None
    }
}

/// The message for a refused provider name.
pub open spec fn invalid_provider_message() -> Seq<char> {
    "无效 provider"@
}

/// The route for a provider name, or the error that the name is invalid.
pub fn status_route(provider: &str) -> (r: Result<StatusRoute, String>)
    ensures
        match spec_status_route(provider@) {
            Some(route) => r == Ok::<StatusRoute, String>(route),
            None => r matches Err(m) && m@ == invalid_provider_message(),
        },
{
    if str_eq(provider, "mitm") {
        Ok(StatusRoute::Unsupported)
    } else if str_eq(provider, "auto") {
        Ok(StatusRoute::Snapshot)
    } else if str_eq(provider, "file") || str_eq(provider, "log") || str_eq(provider, "loopback")
        || str_eq(provider, "recon") {
        Ok(StatusRoute::Mapped)
    } else {
        Err(owned("无效 provider"))
    }
}

/// The status shown for an unsupported provider.
pub fn unsupported_status<N>() -> (r: CodexStatus<N>)
    ensures
        all_fields_empty(r),
        r.sync_state@ == "unsupported"@,
        r.message matches Some(m) && m@ == "MITM、TLS hook 与读内存首版不实现"@,
{
    CodexStatus::unsupported("MITM、TLS hook 与读内存首版不实现")
}

/// How a mapping rule reads its file.
#[derive(Clone, Copy, Debug, PartialEq, Eq, Structural)]
pub enum RuleSource {
    /// A JSON file and a selector of keys.
    File,
    /// The tail of a log and a regular expression.
    Log,
}

/// The way a rule reads its file, by its provider: `file` or `log`; any
/// other rule is skipped.
pub fn rule_source(provider: &str) -> (r: Option<RuleSource>)
    ensures
        r == (if provider@ == "file"@ {
            Some(RuleSource::File)
        } else if provider@ == "log"@ {
            Some(RuleSource::Log)
        } else {
            None::<RuleSource>
        }),
{
    if str_eq(provider, "file") {
        Some(RuleSource::File)
    } else if str_eq(provider, "log") {
        Some(RuleSource::Log)
    } else {
        None
    }
}

/// A status field that a mapping rule can fill.
#[derive(Clone, Copy, Debug, PartialEq, Eq, Structural)]
pub enum MappedField {
    Username,
    Model,
    ReasoningEffort,
    Subscription,
    ResetAt,
    ClientVersion,
    ReasoningSpeed,
    RemainingPercent,
    MonthlyUsage,
    WeeklyDurationSeconds,
}

/// The field that a rule's field name names, if any.
pub open spec fn spec_mapped_field(name: Seq<char>) -> Option<MappedField> {
    if name == "username"@ {
        Some(MappedField::Username)
    } else if name == "model"@ {
        Some(MappedField::Model)
    } else if name == "reasoningEffort"@ {
        Some(MappedField::ReasoningEffort)
    } else if name == "subscription"@ {
        Some(MappedField::Subscription)
    } else if name == "resetAt"@ {
        Some(MappedField::ResetAt)
    } else if name == "clientVersion"@ {
        Some(MappedField::ClientVersion)
    } else if name == "reasoningSpeed"@ {
        Some(MappedField::ReasoningSpeed)
    } else if name == "remainingPercent"@ {
        Some(MappedField::RemainingPercent)
    } else if name == "monthlyUsage"@ {
        Some(MappedField::MonthlyUsage)
    } else if name == "weeklyDurationSeconds"@ {
        Some(MappedField::WeeklyDurationSeconds)
    } else {
        None
    }
}

/// The field that a rule's field name names, if any.
pub fn mapped_field(name: &str) -> (r: Option<MappedField>)
    ensures
        r == spec_mapped_field(name@),
{
    if str_eq(name, "username") {
        Some(MappedField::Username)
    } else if str_eq(name, "model") {
        Some(MappedField::Model)
    } else if str_eq(name, "reasoningEffort") {
        Some(MappedField::ReasoningEffort)
    } else if str_eq(name, "subscription") {
        Some(MappedField::Subscription)
    } else if str_eq(name, "resetAt") {
        Some(MappedField::ResetAt)
    } else if str_eq(name, "clientVersion") {
        Some(MappedField::ClientVersion)
    } else if str_eq(name, "reasoningSpeed") {
        Some(MappedField::ReasoningSpeed)
    } else if str_eq(name, "remainingPercent") {
        Some(MappedField::RemainingPercent)
    } else if str_eq(name, "monthlyUsage") {
        Some(MappedField::MonthlyUsage)
    } else if str_eq(name, "weeklyDurationSeconds") {
        Some(MappedField::WeeklyDurationSeconds)
    } else {
        None
    }
}

/// Whether the field holds text (the others hold numbers).
pub open spec fn is_text_field(f: MappedField) -> bool {
    match f {
        MappedField::Username | MappedField::Model | MappedField::ReasoningEffort
        | MappedField::Subscription | MappedField::ResetAt | MappedField::ClientVersion => true,
        _ => false,
    }
}

/// Whether the field holds text.
pub fn holds_text(f: MappedField) -> (r: bool)
    ensures
        r == is_text_field(f),
{
    match f {
        MappedField::Username | MappedField::Model | MappedField::ReasoningEffort
        | MappedField::Subscription | MappedField::ResetAt | MappedField::ClientVersion => true,
        _ => false,
    }
}

/// A status that is connected and shows no field yet, the start of a
/// status read through the field mapping.
pub fn connected_status<N>() -> (r: CodexStatus<N>)
    ensures
        all_fields_empty(r),
        r.sync_state@ == "connected"@,
        r.message is None,
{
    let mut r = CodexStatus::default();
    r.sync_state = owned("connected");
    r
}

/// Whether `f` shows a value read through the mapping: the value, marked as
/// read from a file, at `observed_at`, with confidence 900 thousandths.
pub open spec fn shows_mapped<T>(f: StatusField<T>, value: T, observed_at: Seq<char>) -> bool {
    &&& f.value == Some(value)
    &&& f.source matches Some(s) && s@ == "file"@
    &&& f.observed_at matches Some(t) && t@ == observed_at
    &&& f.confidence == Some(900u16)
    &&& !f.stale
}

fn mapped_value<T>(value: T, observed_at: &str) -> (r: StatusField<T>)
    ensures
        shows_mapped(r, value, observed_at@),
{
    StatusField {
        value: Some(value),
        source: Some(owned("file")),
        observed_at: Some(owned(observed_at)),
        confidence: Some(900),
        stale: false,
    }
}

/// Whether `new` is `old` with at most the field `f` changed.
pub open spec fn others_kept<N>(new: CodexStatus<N>, old: CodexStatus<N>, f: MappedField) -> bool {
    &&& f != MappedField::Username ==> new.username == old.username
    &&& f != MappedField::Model ==> new.model == old.model
    &&& f != MappedField::ReasoningEffort ==> new.reasoning_effort == old.reasoning_effort
    &&& f != MappedField::Subscription ==> new.subscription == old.subscription
    &&& f != MappedField::ResetAt ==> new.reset_at == old.reset_at
    &&& f != MappedField::ClientVersion ==> new.client_version == old.client_version
    &&& f != MappedField::ReasoningSpeed ==> new.reasoning_speed == old.reasoning_speed
    &&& f != MappedField::RemainingPercent ==> new.remaining_percent == old.remaining_percent
    &&& f != MappedField::MonthlyUsage ==> new.monthly_usage == old.monthly_usage
    &&& f != MappedField::WeeklyDurationSeconds ==> new.weekly_duration_seconds
        == old.weekly_duration_seconds
    &&& new.speed_mode == old.speed_mode
    &&& new.sync_state == old.sync_state
    &&& new.message == old.message
}

/// Whether the text field `f` of the status shows `value` read through the mapping.
pub open spec fn shows_mapped_text<N>(s: CodexStatus<N>, f: MappedField, value: String, observed_at: Seq<char>) -> bool {
    match f {
        MappedField::Username => shows_mapped(s.username, value, observed_at),
        MappedField::Model => shows_mapped(s.model, value, observed_at),
        MappedField::ReasoningEffort => shows_mapped(s.reasoning_effort, value, observed_at),
        MappedField::Subscription => shows_mapped(s.subscription, value, observed_at),
        MappedField::ResetAt => shows_mapped(s.reset_at, value, observed_at),
        _ => shows_mapped(s.client_version, value, observed_at),
    }
}

/// Whether the numeric field `f` of the status shows `value` read through the mapping.
pub open spec fn shows_mapped_number<N>(s: CodexStatus<N>, f: MappedField, value: N, observed_at: Seq<char>) -> bool {
    match f {
        MappedField::ReasoningSpeed => shows_mapped(s.reasoning_speed, value, observed_at),
        MappedField::RemainingPercent => shows_mapped(s.remaining_percent, value, observed_at),
        MappedField::MonthlyUsage => shows_mapped(s.monthly_usage, value, observed_at),
        _ => shows_mapped(s.weekly_duration_seconds, value, observed_at),
    }
}

/// Shows a text read through the mapping in the text field `f`.
pub fn set_mapped_text<N>(status: &mut CodexStatus<N>, f: MappedField, value: String, observed_at: &str)
    requires
        is_text_field(f),
    ensures
        others_kept(*final(status), *old(status), f),
        shows_mapped_text(*final(status), f, value, observed_at@),
{
    let field = mapped_value(value, observed_at);
    match f {
        MappedField::Username => status.username = field,
        MappedField::Model => status.model = field,
        MappedField::ReasoningEffort => status.reasoning_effort = field,
        MappedField::Subscription => status.subscription = field,
        MappedField::ResetAt => status.reset_at = field,
        _ => status.client_version = field,
    }
}

/// Shows a number read through the mapping (already scaled, and for the
/// remaining share kept within 0 to 100) in the numeric field `f`.
pub fn set_mapped_number<N>(status: &mut CodexStatus<N>, f: MappedField, value: N, observed_at: &str)
    requires
        !is_text_field(f),
    ensures
        others_kept(*final(status), *old(status), f),
        shows_mapped_number(*final(status), f, value, observed_at@),
{
    let field = mapped_value(value, observed_at);
    match f {
        MappedField::ReasoningSpeed => status.reasoning_speed = field,
        MappedField::RemainingPercent => status.remaining_percent = field,
        MappedField::MonthlyUsage => status.monthly_usage = field,
        _ => status.weekly_duration_seconds = field,
    }
}

/// The message for a log path that leaves the data directory.
pub open spec fn unsafe_log_path_message() -> Seq<char> {
    "日志路径必须是安全相对路径"@
}

/// The message for a log whose tail the expression does not capture in.
pub open spec fn no_capture_message() -> Seq<char> {
    "日志未命中捕获组"@
}

/// What a `log` rule reads from the tail of its log: where the path is not a
/// safe relative path, that error; where the pattern is refused, its error;
/// else group 1 of the last match of the pattern, or the error that nothing
/// was captured.
pub open spec fn log_selection(relative: Seq<char>, pattern: Seq<char>, tail: Seq<char>) -> Result<Seq<char>, Seq<char>> {
    if !safe_relative(relative) {
        Err(unsafe_log_path_message())
    } else if !regex_compiles(pattern) {
        Err("无效正则: "@ + regex_error_text(pattern))
    } else {
        match regex_last_group(pattern, tail) {
            Some(g) => Ok(g),
            None => Err(no_capture_message()),
        }
    }
}

/// Whether a `log` rule may read the file at this relative path.
pub fn check_log_path(relative: &str) -> (r: Result<(), String>)
    ensures
        safe_relative(relative@) ==> r is Ok,
        !safe_relative(relative@) ==> (r matches Err(m) && m@ == unsafe_log_path_message()),
{
    if is_absolute_path(relative) || has_parent_component(relative) {
        Err(owned("日志路径必须是安全相对路径"))
    } else {
        Ok(())
    }
}

/// The text that a `log` rule captures from the tail of its log (the tail is
/// read only where the path is safe).
pub fn log_capture(relative: &str, pattern: &str, tail: &str) -> (r: Result<String, String>)
    ensures
        match log_selection(relative@, pattern@, tail@) {
            Ok(g) => r matches Ok(x) && x@ == g,
            Err(e) => r matches Err(x) && x@ == e,
        },
{
    match check_log_path(relative) {
        Err(e) => return Err(e),
        Ok(()) => {},
    }
    let p = match compile_reporting(pattern) {
        Ok(p) => p,
        Err(e) => {
            let mut m = owned("无效正则: ");
            push_text(&mut m, e.as_str());
            return Err(m);
        },
    };
    match last_group(&p, tail) {
        Some(g) => Ok(g),
        None => Err(owned("日志未命中捕获组")),
    }
}


/// The most bytes read from the end of a mapped log.
pub const MAX_LOG_TAIL_BYTES: u64 = 65536;

/// Where reading a mapped log of `len` bytes starts: at most
/// `MAX_LOG_TAIL_BYTES` before its end.
pub fn log_tail_start(len: u64) -> (r: u64)
    ensures
        r == if len > MAX_LOG_TAIL_BYTES { len - MAX_LOG_TAIL_BYTES } else { 0 },
{
    if len > MAX_LOG_TAIL_BYTES {
        len - MAX_LOG_TAIL_BYTES
    } else {
        0
    }
}


/// The message shown where no field mapping exists.
pub open spec fn no_mapping_message() -> Seq<char> {
    "未发现可信数据源，请运行重新侦察并配置字段映射"@
}

/// The message for a mapping without a data directory.
pub open spec fn no_base_message() -> Seq<char> {
    "映射缺少运行时发现的 baseDirectory"@
}

/// The message shown where the mapped data directory is gone.
pub open spec fn base_gone_message() -> Seq<char> {
    "数据位置已变化，请重新侦察"@
}

/// Whether the status shows no field, asks for reconnaissance and shows `message`.
pub open spec fn asks_recon<N>(s: CodexStatus<N>, message: Seq<char>) -> bool {
    &&& all_fields_empty(s)
    &&& s.sync_state@ == "recon-required"@
    &&& s.message matches Some(m) && m@ == message
}

/// Whether a status read through the mapping can go on: where there is no
/// mapping file, the status that asks for reconnaissance and a mapping; where
/// the mapping names no data directory, that error; where the directory is
/// gone, the status that asks for reconnaissance again; else `Ok(None)`, go on.
pub fn mapping_gate<N>(mapping_present: bool, base_present: bool, base_exists: bool) -> (r: Result<
    Option<CodexStatus<N>>,
    String,
>)
    ensures
        !mapping_present ==> (r matches Ok(Some(s)) && asks_recon(s, no_mapping_message())),
        mapping_present && !base_present ==> (r matches Err(m) && m@ == no_base_message()),
        mapping_present && base_present && !base_exists ==> (r matches Ok(Some(s)) && asks_recon(
            s,
            base_gone_message(),
        )),
        mapping_present && base_present && base_exists ==> r matches Ok(None),
{
    if !mapping_present {
        Ok(Some(CodexStatus::unavailable("未发现可信数据源，请运行重新侦察并配置字段映射")))
    } else if !base_present {
        Err(owned("映射缺少运行时发现的 baseDirectory"))
    } else if !base_exists {
        Ok(Some(CodexStatus::unavailable("数据位置已变化，请重新侦察")))
    } else {
        Ok(None)
    }
}


/// What one mapping rule read: a text, a number (already scaled, and for the
/// remaining share kept within 0 to 100), or a value of another kind.
#[derive(Clone, Debug)]
pub enum RuleValue<N> {
    Text(String),
    Number(N),
    Other,
}

/// Whether a rule's number is the remaining share, which is kept within 0 to
/// 100 before it is scaled.
pub fn is_share_field(field: &str) -> (r: bool)
    ensures
        r == (spec_mapped_field(field@) == Some(MappedField::RemainingPercent)),
{
    match mapped_field(field) {
        Some(MappedField::RemainingPercent) => true,
        _ => false,
    }
}

/// Whether `new` is `old` after what a rule for the field named `field` read:
/// a text shown in a text field, a number in a numeric field; a failed read,
/// a name that names no field, or a value of the other kind changes nothing.
pub open spec fn rule_applied<N>(
    new: CodexStatus<N>,
    old: CodexStatus<N>,
    field: Seq<char>,
    read: Result<RuleValue<N>, String>,
    observed_at: Seq<char>,
) -> bool {
    match spec_mapped_field(field) {
        Some(f) => match read {
            Ok(RuleValue::Text(v)) => if is_text_field(f) {
                others_kept(new, old, f) && shows_mapped_text(new, f, v, observed_at)
            } else {
                new == old
            },
            Ok(RuleValue::Number(n)) => if !is_text_field(f) {
                others_kept(new, old, f) && shows_mapped_number(new, f, n, observed_at)
            } else {
                new == old
            },
            _ => new == old,
        },
        None => new == old,
    }
}

/// Takes what one mapping rule read into the status.
pub fn apply_rule_read<N>(
    status: &mut CodexStatus<N>,
    field: &str,
    read: Result<RuleValue<N>, String>,
    observed_at: &str,
)
    ensures
        rule_applied(*final(status), *old(status), field@, read, observed_at@),
{
    let f = match mapped_field(field) {
        Some(f) => f,
        None => return,
    };
    match read {
        Ok(RuleValue::Text(v)) => if holds_text(f) {
            set_mapped_text(status, f, v, observed_at);
        },
        Ok(RuleValue::Number(n)) => if !holds_text(f) {
            set_mapped_number(status, f, n, observed_at);
        },
        _ => {},
    }
}

} // verus!
