//! Rollout logs: the JSON lines that the client appends while it works,
//! read for the newest model, settings, plan and rate-limit readings.

use vstd::prelude::*;
use vstd::utf8::encode_utf8;
use crate::candidate::{lemma_kept_when_time_same, lemma_offered_all_keeps_newest, offered_all, offer_text, kept_or_stamped, lemma_kept_or_stamped_trans, newest_of, offer, seen_text, set_newest, AdapterResult, DiagnosticIssue, FieldCandidate, Seen};
use crate::diagnostics::{trim, trimmed};
use crate::json::{json_at, json_parses, json_text, json_value_at, parse_json, text_at, JsonDoc, JsonItem, JsonModel};
use crate::text::{from_chars, opt_view, owned, split_lines, str_eq, text_lines, to_chars};
use crate::time::{rfc3339_instant, rfc3339_text, utc_representable, Timestamp};
use crate::order::{lemma_sorted_desc_map, map_second, sort_desc, sorted_desc, SortKey};
use crate::paths::{
    extension_of, file_name_of, is_absolute_path, join_path, path_absolute, path_extension,
    path_file_name, path_has_base, path_joined, path_starts_with,
};

verus! {

broadcast use {Timestamp::lemma_at_parts, Timestamp::lemma_parts_of_at};

/// The used share of the primary rate window, as the log wrote the number.
/// (The remaining share, 100 minus it and kept within 0 to 100, is a floating
/// point value that the application computes.)
#[derive(Clone, Debug)]
pub struct UsedPercent {
    pub text: String,
}

/// The newest value of each field that the rollout logs report. `P` stands
/// for a rate reading.
#[derive(Clone, Debug)]
pub struct RolloutCandidates<P> {
    pub model: Option<FieldCandidate<String>>,
    pub reasoning_effort: Option<FieldCandidate<String>>,
    pub speed_mode: Option<FieldCandidate<String>>,
    pub subscription: Option<FieldCandidate<String>>,
    pub remaining_percent: Option<FieldCandidate<P>>,
    pub reset_at: Option<FieldCandidate<String>>,
    pub client_version: Option<FieldCandidate<String>>,
}

impl<P> RolloutCandidates<P> {
    /// No value for any field.
    pub fn new() -> (r: Self)
        ensures
            r.model is None && r.reasoning_effort is None && r.speed_mode is None
                && r.subscription is None && r.remaining_percent is None && r.reset_at is None
                && r.client_version is None,
    {
        RolloutCandidates {
            model: None,
            reasoning_effort: None,
            speed_mode: None,
            subscription: None,
            remaining_percent: None,
            reset_at: None,
            client_version: None,
        }
    }
}

/// What the rollout logs have shown of each field so far.
pub struct RolloutSeen {
    pub model: Seen,
    pub reasoning_effort: Seen,
    pub speed_mode: Seen,
    pub subscription: Seen,
    pub used_percent: Seen,
    pub reset_at: Seen,
    pub client_version: Seen,
}

/// The value and time of a rate slot.
pub open spec fn seen_used(slot: Option<FieldCandidate<UsedPercent>>) -> Seen {
    match slot {
        Some(c) => Some((c.value.text@, c.observed_at)),
        None => None,
    }
}

/// What the candidates show of each field.
pub open spec fn seen_of(c: RolloutCandidates<UsedPercent>) -> RolloutSeen {
    RolloutSeen {
        model: seen_text(c.model),
        reasoning_effort: seen_text(c.reasoning_effort),
        speed_mode: seen_text(c.speed_mode),
        subscription: seen_text(c.subscription),
        used_percent: seen_used(c.remaining_percent),
        reset_at: seen_text(c.reset_at),
        client_version: seen_text(c.client_version),
    }
}

/// The first of three pointers that addresses a string, and that string.
pub open spec fn first_text(b: Seq<u8>, p1: Seq<char>, p2: Seq<char>, p3: Seq<char>) -> Option<Seq<char>> {
    if json_text(b, p1) is Some {
        json_text(b, p1)
    } else if json_text(b, p2) is Some {
        json_text(b, p2)
    } else {
        json_text(b, p3)
    }
}

/// When a log line was observed: its "timestamp" where chrono reads it as
/// RFC 3339, else the file's time.
pub open spec fn line_time(b: Seq<u8>, file_time: Timestamp) -> Timestamp {
    match json_text(b, "/timestamp"@) {
        Some(t) => match rfc3339_instant(t) {
            Some(p) => Timestamp::spec_at(p.0, p.1),
            None => file_time,
        },
        None => file_time,
    }
}

/// Whether the line is a rate-limit event with a primary window.
pub open spec fn is_rate_event(b: Seq<u8>) -> bool {
    &&& json_text(b, "/payload/type"@) == Some("token_count"@)
    &&& json_at(b, "/payload/rate_limits/primary"@) is Some
}

/// The used share that a rate event reports, as written.
pub open spec fn used_reading(b: Seq<u8>) -> Option<Seq<char>> {
    match json_at(b, "/payload/rate_limits/primary/used_percent"@) {
        Some(JsonModel::Number(t, _)) => Some(t),
        _ => None,
    }
}

/// The reset time that a rate event reports, in RFC 3339, where its epoch
/// seconds are an `i64` that chrono can represent.
pub open spec fn reset_reading(b: Seq<u8>) -> Option<Seq<char>> {
    match json_at(b, "/payload/rate_limits/primary/resets_at"@) {
        Some(JsonModel::Number(_, Some(e))) => if utc_representable(e, 0) {
            Some(rfc3339_text(e, 0))
        } else {
            None
        },
        _ => None,
    }
}

/// The model named by a line.
pub open spec fn model_reading(b: Seq<u8>) -> Option<Seq<char>> {
    first_text(b, "/payload/thread_settings/model"@, "/payload/model"@, "/payload/model_slug"@)
}

/// The reasoning effort named by a line.
pub open spec fn effort_reading(b: Seq<u8>) -> Option<Seq<char>> {
    first_text(
        b,
        "/payload/thread_settings/reasoning_effort"@,
        "/payload/reasoning_effort"@,
        "/payload/effort"@,
    )
}

/// The speed mode (service tier) named by a line.
pub open spec fn speed_reading(b: Seq<u8>) -> Option<Seq<char>> {
    first_text(
        b,
        "/payload/thread_settings/service_tier"@,
        "/payload/service_tier"@,
        "/payload/speed_mode"@,
    )
}

/// The client version named by a line.
pub open spec fn version_reading(b: Seq<u8>) -> Option<Seq<char>> {
    first_text(b, "/payload/cli_version"@, "/payload/client_version"@, "/payload/version"@)
}

/// The plan named by a rate event.
pub open spec fn plan_reading(b: Seq<u8>) -> Option<Seq<char>> {
    first_text(
        b,
        "/payload/rate_limits/plan_type"@,
        "/payload/rate_limits/plan"@,
        "/payload/plan_type"@,
    )
}

/// What one parsed log line changes: the model, effort, speed mode and client
/// version it names; and for a rate event also the used share, the reset time
/// and the plan. Each value counts from the line's time.
pub open spec fn line_effect(s: RolloutSeen, b: Seq<u8>, file_time: Timestamp) -> RolloutSeen {
    let t = line_time(b, file_time);
    let rate = is_rate_event(b);
    RolloutSeen {
        model: offer(s.model, model_reading(b), t),
        reasoning_effort: offer(s.reasoning_effort, effort_reading(b), t),
        speed_mode: offer(s.speed_mode, speed_reading(b), t),
        client_version: offer(s.client_version, version_reading(b), t),
        used_percent: if rate {
            offer(s.used_percent, used_reading(b), t)
        } else {
            s.used_percent
        },
        reset_at: if rate {
            offer(s.reset_at, reset_reading(b), t)
        } else {
            s.reset_at
        },
        subscription: if rate {
            offer(s.subscription, plan_reading(b), t)
        } else {
            s.subscription
        },
    }
}

/// Whether a line holds only white space.
pub open spec fn is_blank(line: Seq<char>) -> bool {
    trimmed(line).len() == 0
}

/// What a line of text changes: nothing for a blank line or one that is not
/// JSON, else its effect.
pub open spec fn line_step(s: RolloutSeen, line: Seq<char>, file_time: Timestamp) -> RolloutSeen {
    if is_blank(line) || !json_parses(encode_utf8(line)) {
        s
    } else {
        line_effect(s, encode_utf8(line), file_time)
    }
}

/// What the lines change, taken in order.
pub open spec fn lines_effect(s: RolloutSeen, lines: Seq<Seq<char>>, file_time: Timestamp) -> RolloutSeen
    decreases lines.len(),
{
    if lines.len() == 0 {
        s
    } else {
        line_step(lines_effect(s, lines.drop_last(), file_time), lines.last(), file_time)
    }
}

/// How many lines are neither blank nor JSON.
pub open spec fn invalid_line_count(lines: Seq<Seq<char>>) -> nat
    decreases lines.len(),
{
    if lines.len() == 0 {
        0
    } else {
        let line = lines.last();
        invalid_line_count(lines.drop_last()) + if !is_blank(line) && !json_parses(
            encode_utf8(line),
        ) {
            1nat
        } else {
            0nat
        }
    }
}

/// Whether each slot of `new` is kept from `old` or stamped as read from the
/// rollout logs with its field's confidence.
pub open spec fn slots_kept_or_stamped(new: RolloutCandidates<UsedPercent>, old: RolloutCandidates<UsedPercent>) -> bool {
    &&& kept_or_stamped(new.model, old.model, "rollout"@, 960)
    &&& kept_or_stamped(new.reasoning_effort, old.reasoning_effort, "rollout"@, 960)
    &&& kept_or_stamped(new.speed_mode, old.speed_mode, "rollout"@, 960)
    &&& kept_or_stamped(new.client_version, old.client_version, "rollout"@, 920)
    &&& kept_or_stamped(new.remaining_percent, old.remaining_percent, "rollout"@, 980)
    &&& kept_or_stamped(new.reset_at, old.reset_at, "rollout"@, 980)
    &&& kept_or_stamped(new.subscription, old.subscription, "rollout"@, 980)
}

/// Whether each slot of `new` that shows the same value and time as the
/// slot of `old` (or, like it, nothing) is that slot unchanged: source and
/// confidence included.
pub open spec fn unchanged_where_same(new: RolloutCandidates<UsedPercent>, old: RolloutCandidates<UsedPercent>) -> bool {
    &&& seen_text(new.model) == seen_text(old.model) ==> new.model == old.model
    &&& seen_text(new.reasoning_effort) == seen_text(old.reasoning_effort) ==> new.reasoning_effort
        == old.reasoning_effort
    &&& seen_text(new.speed_mode) == seen_text(old.speed_mode) ==> new.speed_mode == old.speed_mode
    &&& seen_text(new.client_version) == seen_text(old.client_version) ==> new.client_version
        == old.client_version
    &&& seen_used(new.remaining_percent) == seen_used(old.remaining_percent) ==> new.remaining_percent
        == old.remaining_percent
    &&& seen_text(new.reset_at) == seen_text(old.reset_at) ==> new.reset_at == old.reset_at
    &&& seen_text(new.subscription) == seen_text(old.subscription) ==> new.subscription
        == old.subscription
}

proof fn lemma_unchanged_where_same(new: RolloutCandidates<UsedPercent>, old: RolloutCandidates<UsedPercent>)
    requires
        slots_kept_or_stamped(new, old),
    ensures
        unchanged_where_same(new, old),
{
    if seen_text(new.model) == seen_text(old.model) {
        lemma_kept_when_time_same(new.model, old.model, "rollout"@, 960);
    }
    if seen_text(new.reasoning_effort) == seen_text(old.reasoning_effort) {
        lemma_kept_when_time_same(new.reasoning_effort, old.reasoning_effort, "rollout"@, 960);
    }
    if seen_text(new.speed_mode) == seen_text(old.speed_mode) {
        lemma_kept_when_time_same(new.speed_mode, old.speed_mode, "rollout"@, 960);
    }
    if seen_text(new.client_version) == seen_text(old.client_version) {
        lemma_kept_when_time_same(new.client_version, old.client_version, "rollout"@, 920);
    }
    if seen_used(new.remaining_percent) == seen_used(old.remaining_percent) {
        lemma_kept_when_time_same(new.remaining_percent, old.remaining_percent, "rollout"@, 980);
    }
    if seen_text(new.reset_at) == seen_text(old.reset_at) {
        lemma_kept_when_time_same(new.reset_at, old.reset_at, "rollout"@, 980);
    }
    if seen_text(new.subscription) == seen_text(old.subscription) {
        lemma_kept_when_time_same(new.subscription, old.subscription, "rollout"@, 980);
    }
}

/// The first of three pointers that addresses a string in the document, and that string.
fn first_text_at(doc: &JsonDoc, p1: &str, p2: &str, p3: &str) -> (r: Option<String>)
    ensures
        match first_text(doc.source(), p1@, p2@, p3@) {
            Some(s) => r matches Some(x) && x@ == s,
            None => r is None,
        },
{
    match text_at(doc, p1) {
        Some(s) => Some(s),
        None => match text_at(doc, p2) {
            Some(s) => Some(s),
            None => text_at(doc, p3),
        },
    }
}

/// Takes what one parsed log line reports.
fn apply_line(doc: &JsonDoc, file_time: Timestamp, c: &mut RolloutCandidates<UsedPercent>)
    ensures
        seen_of(*final(c)) == line_effect(seen_of(*old(c)), doc.source(), file_time),
        slots_kept_or_stamped(*final(c), *old(c)),
{
    let observed_at = match text_at(doc, "/timestamp") {
        Some(t) => match Timestamp::parse_rfc3339(t.as_str()) {
            Some(x) => x,
            None => file_time,
        },
        None => file_time,
    };
    offer_text(
        &mut c.model,
        first_text_at(doc, "/payload/thread_settings/model", "/payload/model", "/payload/model_slug"),
        "rollout",
        observed_at,
        960,
    );
    offer_text(
        &mut c.reasoning_effort,
        first_text_at(
            doc,
            "/payload/thread_settings/reasoning_effort",
            "/payload/reasoning_effort",
            "/payload/effort",
        ),
        "rollout",
        observed_at,
        960,
    );
    offer_text(
        &mut c.speed_mode,
        first_text_at(
            doc,
            "/payload/thread_settings/service_tier",
            "/payload/service_tier",
            "/payload/speed_mode",
        ),
        "rollout",
        observed_at,
        960,
    );
    offer_text(
        &mut c.client_version,
        first_text_at(doc, "/payload/cli_version", "/payload/client_version", "/payload/version"),
        "rollout",
        observed_at,
        920,
    );
    let is_token_count = match text_at(doc, "/payload/type") {
        Some(t) => str_eq(t.as_str(), "token_count"),
        None => false,
    };
    if !is_token_count {
        return;
    }
    if json_value_at(doc, "/payload/rate_limits/primary").is_none() {
        return;
    }
    if let Some(JsonItem::Number(text, _)) = json_value_at(doc, "/payload/rate_limits/primary/used_percent") {
        let candidate = FieldCandidate::new(UsedPercent { text }, "rollout", observed_at, 980);
        proof {
            reveal_strlit("rollout");
        }
        set_newest(&mut c.remaining_percent, candidate);
    }
    if let Some(JsonItem::Number(_, Some(epoch))) = json_value_at(doc, "/payload/rate_limits/primary/resets_at") {
        if let Some(reset) = Timestamp::from_unix(epoch, 0) {
            offer_text(&mut c.reset_at, Some(reset.to_rfc3339()), "rollout", observed_at, 980);
        }
    }
    offer_text(
        &mut c.subscription,
        first_text_at(
            doc,
            "/payload/rate_limits/plan_type",
            "/payload/rate_limits/plan",
            "/payload/plan_type",
        ),
        "rollout",
        observed_at,
        980,
    );
}

/// Whether the issues are the old ones followed by `n` issues with the given
/// code and source.
pub open spec fn issues_appended(
    new: Seq<DiagnosticIssue>,
    old: Seq<DiagnosticIssue>,
    n: nat,
    code: Seq<char>,
    source: Seq<char>,
) -> bool {
    &&& new.len() == old.len() + n
    &&& forall|i: int| 0 <= i < old.len() ==> new[i] == old[i]
    &&& forall|i: int| old.len() <= i < new.len() ==> (#[trigger] new[i]).code@ == code
        && new[i].source@ == source
}

/// Reads the lines of a rollout log's tail into the candidates, in order: a
/// line that is neither blank nor JSON adds a "rollout-invalid-line" issue
/// (naming only the file) and is passed over; every other line counts (see
/// `line_effect`), from its own time or else the file's time.
pub fn parse_rollout(
    file_name: &str,
    text: &str,
    file_time: Timestamp,
    result: &mut AdapterResult<RolloutCandidates<UsedPercent>>,
)
    ensures
        seen_of(final(result).value) == lines_effect(
            seen_of(old(result).value),
            text_lines(text@),
            file_time,
        ),
        slots_kept_or_stamped(final(result).value, old(result).value),
        unchanged_where_same(final(result).value, old(result).value),
        issues_appended(
            final(result).issues@,
            old(result).issues@,
            invalid_line_count(text_lines(text@)),
            "rollout-invalid-line"@,
            file_name@,
        ),
{
    let chars = to_chars(text);
    let lines = split_lines(&chars);
    let ghost ls = lines@.map_values(|l: Vec<char>| l@);
    let ghost start = *result;
    let mut i: usize = 0;
    while i < lines.len()
        invariant
            i <= lines.len(),
            ls == lines@.map_values(|l: Vec<char>| l@),
            ls == text_lines(text@),
            seen_of(result.value) == lines_effect(seen_of(start.value), ls.take(i as int), file_time),
            slots_kept_or_stamped(result.value, start.value),
            issues_appended(
                result.issues@,
                start.issues@,
                invalid_line_count(ls.take(i as int)),
                "rollout-invalid-line"@,
                file_name@,
            ),
        decreases lines.len() - i,
    {
        let ghost before = *result;
        let ghost line = ls[i as int];
        assert(ls.take(i + 1).drop_last() =~= ls.take(i as int));
        assert(ls.take(i + 1).last() == line);
        let s = from_chars(&lines[i]);
        assert(s@ == line);
        if trim(s.as_str()).as_str().is_empty() {
            assert(is_blank(line));
        } else {
            match parse_json(s.as_str().as_bytes()) {
                None => {
                    result.issues.push(DiagnosticIssue::new("rollout-invalid-line", file_name));
                },
                Some(doc) => {
                    apply_line(&doc, file_time, &mut result.value);
                    proof {
                        lemma_kept_or_stamped_trans(start.value.model, before.value.model, result.value.model, "rollout"@, 960);
                        lemma_kept_or_stamped_trans(start.value.reasoning_effort, before.value.reasoning_effort, result.value.reasoning_effort, "rollout"@, 960);
                        lemma_kept_or_stamped_trans(start.value.speed_mode, before.value.speed_mode, result.value.speed_mode, "rollout"@, 960);
                        lemma_kept_or_stamped_trans(start.value.client_version, before.value.client_version, result.value.client_version, "rollout"@, 920);
                        lemma_kept_or_stamped_trans(start.value.remaining_percent, before.value.remaining_percent, result.value.remaining_percent, "rollout"@, 980);
                        lemma_kept_or_stamped_trans(start.value.reset_at, before.value.reset_at, result.value.reset_at, "rollout"@, 980);
                        lemma_kept_or_stamped_trans(start.value.subscription, before.value.subscription, result.value.subscription, "rollout"@, 980);
                    }
                },
            }
        }
        i = i + 1;
    }
    assert(ls.take(lines.len() as int) =~= ls);
    proof {
        lemma_unchanged_where_same(result.value, start.value);
    }
}

/// The most rollout logs that are read from one root.
pub const MAX_ROLLOUTS: usize = 240;

/// The name under which an issue of a log file is reported: its file name
/// where that is valid text, else "rollout".
pub open spec fn spec_safe_file_name(path: Seq<char>) -> Seq<char> {
    match path_file_name(path) {
        Some(n) => n,
        None => "rollout"@,
    }
}

/// The name under which an issue of a log file is reported.
pub fn safe_file_name(path: &str) -> (r: String)
    ensures
        r@ == spec_safe_file_name(path@),
{
    match file_name_of(path) {
        Some(n) => n,
        None => owned("rollout"),
    }
}

/// Where a log path that a state database names is looked for: as it is where
/// absolute, else below the root.
pub open spec fn spec_hint_path(root: Seq<char>, hinted: Seq<char>) -> Seq<char> {
    if path_absolute(hinted) {
        hinted
    } else {
        path_joined(root, hinted)
    }
}

/// Where a log path that a state database names is looked for.
pub fn hint_path(root: &str, hinted: &str) -> (r: String)
    ensures
        r@ == spec_hint_path(root@, hinted@),
{
    if is_absolute_path(hinted) {
        owned(hinted)
    } else {
        join_path(root, hinted)
    }
}

/// Whether a path is taken as a rollout log: its extension is `jsonl`, it
/// resolves (to `key`) below the root's canonical path, and that canonical
/// path was not taken yet.
pub open spec fn takes_rollout(root_key: Seq<char>, path: Seq<char>, key: Option<Seq<char>>, seen: Seq<Seq<char>>) -> bool {
    &&& path_extension(path) == Some("jsonl"@)
    &&& key matches Some(k) && path_has_base(k, root_key) && !seen.contains(k)
}

/// Takes `path` as a rollout log where it qualifies (see `takes_rollout`),
/// noting its canonical path `key` (`None` where it does not resolve).
pub fn push_rollout(
    root_key: &str,
    path: String,
    key: Option<String>,
    seen: &mut Vec<String>,
    found: &mut Vec<String>,
)
    ensures
        ({
            let s = old(seen)@.map_values(|k: String| k@);
            if takes_rollout(root_key@, path@, opt_view(key), s) {
                &&& final(seen)@.map_values(|k: String| k@) == s.push(opt_view(key).unwrap())
                &&& final(found)@.map_values(|p: String| p@) == old(found)@.map_values(|p: String| p@).push(path@)
            } else {
                &&& final(seen)@ == old(seen)@
                &&& final(found)@ == old(found)@
            }
        }),
{
    let ghost s = seen@.map_values(|k: String| k@);
    let is_log = match extension_of(path.as_str()) {
        Some(e) => str_eq(e.as_str(), "jsonl"),
        None => false,
    };
    if !is_log {
        return;
    }
    let k = match &key {
        Some(k) => k,
        None => return,
    };
    assert(opt_view(key) == Some(k@));
    if !path_starts_with(k.as_str(), root_key) {
        return;
    }
    let mut i: usize = 0;
    while i < seen.len()
        invariant
            i <= seen.len(),
            s == seen@.map_values(|k: String| k@),
            forall|j: int| 0 <= j < i ==> s[j] != k@,
            *seen == *old(seen),
            *found == *old(found),
            s == old(seen)@.map_values(|k: String| k@),
            opt_view(key) == Some(k@),
        decreases seen.len() - i,
    {
        if str_eq(seen[i].as_str(), k.as_str()) {
            assert(s[i as int] == k@);
            assert(s.contains(k@));
            return;
        }
        i = i + 1;
    }
    assert(!s.contains(k@));
    let ghost kv = k@;
    let key = owned(k.as_str());
    let ghost pv = path@;
    let ghost f0 = found@.map_values(|p: String| p@);
    seen.push(key);
    found.push(path);
    assert(seen@.map_values(|k: String| k@) =~= s.push(kv));
    assert(found@.map_values(|p: String| p@) =~= f0.push(pv));
}

/// The newest rollout logs first (logs with equal times in the order they
/// were found), at most `MAX_ROLLOUTS` of them.
pub open spec fn spec_newest_rollouts(found: Seq<(Seq<char>, Timestamp)>) -> Seq<Seq<char>> {
    let keyed = found.map_values(|f: (Seq<char>, Timestamp)| (SortKey(f.1.spec_secs() as i64, f.1.spec_nanos() as i64, 0, 0), f.0));
    let sorted = sorted_desc(keyed).map_values(|p: (SortKey, Seq<char>)| p.1);
    if sorted.len() > MAX_ROLLOUTS {
        sorted.take(MAX_ROLLOUTS as int)
    } else {
        sorted
    }
}

/// Orders the found rollout logs by their modification times, newest first,
/// and keeps at most `MAX_ROLLOUTS`.
pub fn newest_rollouts(found: Vec<(String, Timestamp)>) -> (r: Vec<String>)
    ensures
        r@.map_values(|p: String| p@) == spec_newest_rollouts(found@.map_values(|f: (String, Timestamp)| (f.0@, f.1))),
{
    let ghost all = found@;
    let ghost fv = all.map_values(|f: (String, Timestamp)| (f.0@, f.1));
    let mut keyed: Vec<(SortKey, String)> = Vec::new();
    for f in it: found
        invariant
            it.seq() == all,
            fv == all.map_values(|f: (String, Timestamp)| (f.0@, f.1)),
            map_second(keyed@, |p: String| p@) == fv.take(it.index() as int).map_values(
                |f: (Seq<char>, Timestamp)| (SortKey(f.1.spec_secs() as i64, f.1.spec_nanos() as i64, 0, 0), f.0),
            ),
    {
        let ghost i = it.index() as int;
        assert(fv.take(i + 1) =~= fv.take(i).push((f.0@, f.1)));
        let k = SortKey(f.1.secs(), f.1.nanos() as i64, 0, 0);
        let ghost before = keyed@;
        let ghost pv = f.0@;
        let p = f.0;
        keyed.push((k, p));
        assert(map_second(keyed@, |p: String| p@) =~= map_second(before, |p: String| p@).push((k, pv)));
    }
    assert(fv.take(fv.len() as int) =~= fv);
    let sorted = sort_desc(keyed);
    proof {
        lemma_sorted_desc_map(keyed@, |p: String| p@);
    }
    let ghost ss = sorted@;
    let mut out: Vec<String> = Vec::new();
    for p in it: sorted
        invariant
            it.seq() == ss,
            out@ == ss.take(it.index() as int).map_values(|q: (SortKey, String)| q.1),
    {
        let ghost i = it.index() as int;
        assert(ss.take(i + 1) =~= ss.take(i).push(p));
        out.push(p.1);
        assert(out@ =~= ss.take(i + 1).map_values(|q: (SortKey, String)| q.1));
    }
    assert(ss.take(ss.len() as int) =~= ss);
    assert(out@.map_values(|p: String| p@) =~= map_second(ss, |p: String| p@).map_values(
        |p: (SortKey, Seq<char>)| p.1,
    ));
    let ghost full = out@;
    out.truncate(MAX_ROLLOUTS);
    assert(out@.map_values(|p: String| p@) =~= (if full.len() > MAX_ROLLOUTS { full.take(MAX_ROLLOUTS as int) } else { full }).map_values(|p: String| p@));
    out
}

/// What was found of one rollout log: its path, its canonical path (where it
/// resolves), and, where it was read, the text of its tail and its
/// modification time.
#[derive(Clone, Debug)]
pub struct RolloutRead {
    pub path: String,
    pub key: Option<String>,
    pub content: Option<(String, Timestamp)>,
}

/// Whether the log is read: it resolves below the root.
pub open spec fn read_counts(root_key: Seq<char>, r: RolloutRead) -> bool {
    r.key matches Some(k) && path_has_base(k@, root_key)
}

/// The issues that one log gives, as (code, source): it does not resolve, it
/// lies outside the root, it could not be read, or one per line that is
/// neither blank nor JSON.
pub open spec fn read_issues(root_key: Seq<char>, r: RolloutRead) -> Seq<(Seq<char>, Seq<char>)> {
    let name = spec_safe_file_name(r.path@);
    match r.key {
        None => seq![("rollout-path-missing"@, name)],
        Some(k) => if !path_has_base(k@, root_key) {
            seq![("rollout-path-outside-root"@, name)]
        } else {
            match r.content {
                None => seq![("rollout-read-failed"@, name)],
                Some(c) => Seq::new(invalid_line_count(text_lines(c.0@)), |i: int| ("rollout-invalid-line"@, name)),
            }
        },
    }
}

/// What the logs show, taken in order, from nothing.
pub open spec fn reads_seen(root_key: Seq<char>, reads: Seq<RolloutRead>) -> RolloutSeen
    decreases reads.len(),
{
    if reads.len() == 0 {
        RolloutSeen {
            model: None,
            reasoning_effort: None,
            speed_mode: None,
            subscription: None,
            used_percent: None,
            reset_at: None,
            client_version: None,
        }
    } else {
        let prev = reads_seen(root_key, reads.drop_last());
        let r = reads.last();
        if read_counts(root_key, r) {
            match r.content {
                Some(c) => lines_effect(prev, text_lines(c.0@), c.1),
                None => prev,
            }
        } else {
            prev
        }
    }
}

/// The issues that the logs give, in order.
pub open spec fn reads_issue_list(root_key: Seq<char>, reads: Seq<RolloutRead>) -> Seq<(Seq<char>, Seq<char>)>
    decreases reads.len(),
{
    if reads.len() == 0 {
        Seq::empty()
    } else {
        reads_issue_list(root_key, reads.drop_last()) + read_issues(root_key, reads.last())
    }
}

/// The code and source of each issue.
pub open spec fn issue_pairs(issues: Seq<DiagnosticIssue>) -> Seq<(Seq<char>, Seq<char>)> {
    issues.map_values(|i: DiagnosticIssue| (i.code@, i.source@))
}

/// Whether each slot is empty or stamped as read from the rollout logs with its confidence.
pub open spec fn all_stamped(c: RolloutCandidates<UsedPercent>) -> bool {
    slots_kept_or_stamped(c, RolloutCandidates {
        model: None,
        reasoning_effort: None,
        speed_mode: None,
        subscription: None,
        remaining_percent: None,
        reset_at: None,
        client_version: None,
    })
}

/// Reads the rollout logs of a root (whose canonical path is `root_key`,
/// `None` where it does not resolve), in order: a log that does not resolve,
/// lies outside the root or could not be read only adds its issue; the lines
/// of every other log are taken (see `parse_rollout`).
pub fn read_rollout_candidates(root_key: Option<String>, reads: Vec<RolloutRead>) -> (r: AdapterResult<RolloutCandidates<UsedPercent>>)
    ensures
        match root_key {
            None => {
                &&& issue_pairs(r.issues@) == seq![("rollout-root-invalid"@, "rollout"@)]
                &&& seen_of(r.value) == reads_seen(Seq::empty(), Seq::empty())
            },
            Some(k) => {
                &&& issue_pairs(r.issues@) == reads_issue_list(k@, reads@)
                &&& seen_of(r.value) == reads_seen(k@, reads@)
            },
        },
        all_stamped(r.value),
{
    let mut result = AdapterResult::new(RolloutCandidates::new());
    let ghost empty = result.value;
    let root = match root_key {
        Some(k) => k,
        None => {
            result.issues.push(DiagnosticIssue::new("rollout-root-invalid", "rollout"));
            assert(issue_pairs(result.issues@) =~= seq![("rollout-root-invalid"@, "rollout"@)]);
            return result;
        },
    };
    let ghost all = reads@;
    assert(issue_pairs(result.issues@) =~= Seq::<(Seq<char>, Seq<char>)>::empty());
    for read in it: reads
        invariant
            it.seq() == all,
            issue_pairs(result.issues@) == reads_issue_list(root@, all.take(it.index() as int)),
            seen_of(result.value) == reads_seen(root@, all.take(it.index() as int)),
            slots_kept_or_stamped(result.value, empty),
            empty == (RolloutCandidates::<UsedPercent> {
                model: None,
                reasoning_effort: None,
                speed_mode: None,
                subscription: None,
                remaining_percent: None,
                reset_at: None,
                client_version: None,
            }),
    {
        let ghost i = it.index() as int;
        assert(all.take(i + 1).drop_last() =~= all.take(i));
        assert(all.take(i + 1).last() == read);
        let ghost before = result;
        let ghost rd = read;
        let name = safe_file_name(read.path.as_str());
        let RolloutRead { path: _, key, content } = read;
        match key {
            None => {
                result.issues.push(DiagnosticIssue::new("rollout-path-missing", name.as_str()));
            },
            Some(k) => {
                if !path_starts_with(k.as_str(), root.as_str()) {
                    result.issues.push(DiagnosticIssue::new("rollout-path-outside-root", name.as_str()));
                } else {
                    match content {
                        None => {
                            result.issues.push(DiagnosticIssue::new("rollout-read-failed", name.as_str()));
                        },
                        Some((text, file_time)) => {
                            parse_rollout(name.as_str(), text.as_str(), file_time, &mut result);
                            proof {
                                lemma_kept_or_stamped_trans(empty.model, before.value.model, result.value.model, "rollout"@, 960);
                                lemma_kept_or_stamped_trans(empty.reasoning_effort, before.value.reasoning_effort, result.value.reasoning_effort, "rollout"@, 960);
                                lemma_kept_or_stamped_trans(empty.speed_mode, before.value.speed_mode, result.value.speed_mode, "rollout"@, 960);
                                lemma_kept_or_stamped_trans(empty.client_version, before.value.client_version, result.value.client_version, "rollout"@, 920);
                                lemma_kept_or_stamped_trans(empty.remaining_percent, before.value.remaining_percent, result.value.remaining_percent, "rollout"@, 980);
                                lemma_kept_or_stamped_trans(empty.reset_at, before.value.reset_at, result.value.reset_at, "rollout"@, 980);
                                lemma_kept_or_stamped_trans(empty.subscription, before.value.subscription, result.value.subscription, "rollout"@, 980);
                            }
                        },
                    }
                }
            },
        }
        assert(issue_pairs(result.issues@) =~= issue_pairs(before.issues@) + read_issues(root@, rd));
    }
    assert(all.take(all.len() as int) =~= all);
    result
}

/// The most bytes read from the end of one rollout log.
pub const MAX_TAIL_BYTES: u64 = 262144;

/// Where reading a log of `len` bytes starts: at most `MAX_TAIL_BYTES` before its end.
pub fn tail_start(len: u64) -> (r: u64)
    ensures
        r == if len > MAX_TAIL_BYTES { len - MAX_TAIL_BYTES } else { 0 },
{
    if len > MAX_TAIL_BYTES {
        len - MAX_TAIL_BYTES
    } else {
        0
    }
}

/// The text that `String::from_utf8_lossy` makes of the bytes (invalid
/// sequences become U+FFFD).
pub uninterp spec fn utf8_lossy(bytes: Seq<u8>) -> Seq<char>;

/// `String::from_utf8_lossy`, as an owned `String`.
#[verifier::external_body]
pub(crate) fn lossy_text(bytes: &[u8]) -> (r: String)
    ensures
        r@ == utf8_lossy(bytes@),
{
    String::from_utf8_lossy(bytes).into_owned()
}

/// The first place of a newline byte in `b`, or `b.len()`.
pub open spec fn first_newline(b: Seq<u8>) -> int
    decreases b.len(),
{
    if b.len() == 0 {
        0
    } else if b[0] == 10 {
        0
    } else {
        1 + first_newline(b.drop_first())
    }
}

proof fn lemma_first_newline(b: Seq<u8>)
    ensures
        0 <= first_newline(b) <= b.len(),
        forall|k: int| 0 <= k < first_newline(b) ==> b[k] != 10,
        first_newline(b) < b.len() ==> b[first_newline(b)] == 10,
    decreases b.len(),
{
    if b.len() > 0 && b[0] != 10 {
        lemma_first_newline(b.drop_first());
        assert forall|k: int| 0 <= k < first_newline(b) implies b[k] != 10 by {
            if k > 0 {
                assert(b[k] == b.drop_first()[k - 1]);
            }
        }
    }
}

/// The text of a log's tail: where reading started inside the file, the
/// bytes up to and with the first newline are dropped (a line cut in two);
/// then the bytes are read as UTF-8, invalid sequences replaced.
pub open spec fn spec_tail_text(bytes: Seq<u8>, started_inside: bool) -> Seq<char> {
    let n = first_newline(bytes);
    if started_inside && n < bytes.len() {
        utf8_lossy(bytes.skip(n + 1))
    } else {
        utf8_lossy(bytes)
    }
}

/// The text of a log's tail, from the bytes read and whether reading started
/// inside the file.
pub fn tail_text(bytes: &Vec<u8>, started_inside: bool) -> (r: String)
    ensures
        r@ == spec_tail_text(bytes@, started_inside),
{
    proof {
        lemma_first_newline(bytes@);
    }
    if started_inside {
        let mut i: usize = 0;
        while i < bytes.len()
            invariant
                i <= bytes.len(),
                started_inside,
                forall|k: int| 0 <= k < i ==> bytes@[k] != 10,
            decreases bytes.len() - i,
        {
            if bytes[i] == 10u8 {
                proof {
                    lemma_first_newline(bytes@);
                }
                assert(first_newline(bytes@) == i) by {
                    if first_newline(bytes@) < i {
                        assert(bytes@[first_newline(bytes@)] == 10);
                    }
                }
                let rest = slice_from(bytes, i + 1);
                return lossy_text(rest.as_slice());
            }
            i = i + 1;
        }
        assert(first_newline(bytes@) == bytes@.len()) by {
            if first_newline(bytes@) < bytes@.len() {
                assert(bytes@[first_newline(bytes@)] == 10);
            }
        }
    }
    lossy_text(bytes.as_slice())
}

/// The bytes from place `start` on.
fn slice_from(bytes: &Vec<u8>, start: usize) -> (r: Vec<u8>)
    requires
        start <= bytes.len(),
    ensures
        r@ == bytes@.skip(start as int),
{
    let mut out: Vec<u8> = Vec::new();
    let mut i = start;
    while i < bytes.len()
        invariant
            start <= i <= bytes.len(),
            out@ == bytes@.subrange(start as int, i as int),
        decreases bytes.len() - i,
    {
        out.push(bytes[i]);
        assert(bytes@.subrange(start as int, i + 1) =~= bytes@.subrange(start as int, i as int).push(bytes@[i as int]));
        i = i + 1;
    }
    assert(bytes@.subrange(start as int, bytes.len() as int) =~= bytes@.skip(start as int));
    out
}


/// The rate readings of the lines, in order: for each line that is JSON, a
/// rate event and reports a used share, that share as written and the line's time.
pub open spec fn rate_events(lines: Seq<Seq<char>>, file_time: Timestamp) -> Seq<(Seq<char>, Timestamp)>
    decreases lines.len(),
{
    if lines.len() == 0 {
        Seq::empty()
    } else {
        let prev = rate_events(lines.drop_last(), file_time);
        let line = lines.last();
        let b = encode_utf8(line);
        if !is_blank(line) && json_parses(b) && is_rate_event(b) && used_reading(b) is Some {
            prev.push((used_reading(b)->0, line_time(b, file_time)))
        } else {
            prev
        }
    }
}

/// The rate readings of the logs that count, log after log.
pub open spec fn reads_rate_events(root_key: Seq<char>, reads: Seq<RolloutRead>) -> Seq<(Seq<char>, Timestamp)>
    decreases reads.len(),
{
    if reads.len() == 0 {
        Seq::empty()
    } else {
        let prev = reads_rate_events(root_key, reads.drop_last());
        let r = reads.last();
        if read_counts(root_key, r) {
            match r.content {
                Some(c) => prev + rate_events(text_lines(c.0@), c.1),
                None => prev,
            }
        } else {
            prev
        }
    }
}

proof fn lemma_offered_all_append(seen: Seen, a: Seq<(Seq<char>, Timestamp)>, b: Seq<(Seq<char>, Timestamp)>)
    ensures
        offered_all(seen, a + b) == offered_all(offered_all(seen, a), b),
    decreases b.len(),
{
    if b.len() == 0 {
        assert(a + b =~= a);
    } else {
        lemma_offered_all_append(seen, a, b.drop_last());
        assert((a + b).drop_last() =~= a + b.drop_last());
        assert((a + b).last() == b.last());
    }
}

proof fn lemma_lines_rate(s: RolloutSeen, lines: Seq<Seq<char>>, file_time: Timestamp)
    ensures
        lines_effect(s, lines, file_time).used_percent == offered_all(
            s.used_percent,
            rate_events(lines, file_time),
        ),
    decreases lines.len(),
{
    if lines.len() > 0 {
        lemma_lines_rate(s, lines.drop_last(), file_time);
        let prev = rate_events(lines.drop_last(), file_time);
        let line = lines.last();
        let b = encode_utf8(line);
        if !is_blank(line) && json_parses(b) && is_rate_event(b) && used_reading(b) is Some {
            assert(rate_events(lines, file_time) == prev.push((used_reading(b)->0, line_time(b, file_time))));
            assert(rate_events(lines, file_time).drop_last() =~= prev);
        }
    }
}

proof fn lemma_reads_rate(root_key: Seq<char>, reads: Seq<RolloutRead>)
    ensures
        reads_seen(root_key, reads).used_percent == offered_all(None, reads_rate_events(root_key, reads)),
    decreases reads.len(),
{
    if reads.len() > 0 {
        lemma_reads_rate(root_key, reads.drop_last());
        let r = reads.last();
        let prev = reads_seen(root_key, reads.drop_last());
        if read_counts(root_key, r) {
            match r.content {
                Some(c) => {
                    lemma_lines_rate(prev, text_lines(c.0@), c.1);
                    lemma_offered_all_append(
                        None,
                        reads_rate_events(root_key, reads.drop_last()),
                        rate_events(text_lines(c.0@), c.1),
                    );
                },
                None => {},
            }
        }
    }
}

/// The newest rate event wins across the logs of a root, whatever order they
/// are read in: where any log that counts holds a rate event with a used
/// share, the shown reading is one of those events, observed no earlier than
/// any of them (of equally new ones, the first read).
pub proof fn lemma_newest_rate_event_wins(root_key: Seq<char>, reads: Seq<RolloutRead>)
    ensures
        reads_rate_events(root_key, reads).len() > 0 ==> reads_seen(root_key, reads).used_percent is Some,
        reads_seen(root_key, reads).used_percent matches Some(n) ==> {
            &&& reads_rate_events(root_key, reads).contains(n)
            &&& forall|k: int|
                0 <= k < reads_rate_events(root_key, reads).len() ==> !(#[trigger] reads_rate_events(
                    root_key,
                    reads,
                )[k]).1.spec_is_after(n.1)
        },
{
    lemma_reads_rate(root_key, reads);
    lemma_offered_all_keeps_newest(None, reads_rate_events(root_key, reads));
}


/// Whether the line is a token-count event with a primary rate window,
/// dated `at` by its own "timestamp" (RFC 3339), reporting the used share
/// `used` and the plan `plan`.
pub open spec fn dated_rate_line(line: Seq<char>, at: (int, int), used: Seq<char>, plan: Seq<char>) -> bool {
    let b = encode_utf8(line);
    &&& trimmed(line).len() > 0
    &&& json_parses(b)
    &&& json_text(b, "/payload/type"@) == Some("token_count"@)
    &&& json_at(b, "/payload/rate_limits/primary"@) is Some
    &&& json_at(b, "/payload/rate_limits/primary/used_percent"@) matches Some(JsonModel::Number(u, _)) && u
        == used
    &&& json_text(b, "/payload/rate_limits/plan_type"@) == Some(plan)
    &&& json_text(b, "/timestamp"@) matches Some(t) && rfc3339_instant(t) == Some(at)
}

/// Within one log the later rate event wins by its own timestamp, whatever
/// the file's time: where a log that counts holds two rate events, the second
/// dated strictly later than the first, the shown used share and plan are the
/// second's, observed at its timestamp.
pub proof fn lemma_later_line_of_a_log_wins(
    root_key: Seq<char>,
    r: RolloutRead,
    l1: Seq<char>,
    l2: Seq<char>,
    p1: (int, int),
    p2: (int, int),
    u1: Seq<char>,
    u2: Seq<char>,
    plan1: Seq<char>,
    plan2: Seq<char>,
)
    requires
        read_counts(root_key, r),
        r.content matches Some(c) && text_lines(c.0@) == seq![l1, l2],
        dated_rate_line(l1, p1, u1, plan1),
        dated_rate_line(l2, p2, u2, plan2),
        Timestamp::spec_at(p2.0, p2.1).spec_is_after(Timestamp::spec_at(p1.0, p1.1)),
    ensures
        reads_seen(root_key, seq![r]).used_percent == Some((u2, Timestamp::spec_at(p2.0, p2.1))),
        reads_seen(root_key, seq![r]).subscription == Some((plan2, Timestamp::spec_at(p2.0, p2.1))),
{
    let reads = seq![r];
    assert(reads.drop_last() =~= Seq::<RolloutRead>::empty());
    let c = r.content->0;
    let lines = seq![l1, l2];
    assert(lines.drop_last() =~= seq![l1]);
    assert(seq![l1].drop_last() =~= Seq::<Seq<char>>::empty());
    let s0 = reads_seen(root_key, Seq::empty());
    assert(s0.used_percent is None && s0.subscription is None);
    let s1 = lines_effect(s0, seq![l1], c.1);
    let b1 = encode_utf8(l1);
    let b2 = encode_utf8(l2);
    assert(line_time(b1, c.1) == Timestamp::spec_at(p1.0, p1.1));
    assert(line_time(b2, c.1) == Timestamp::spec_at(p2.0, p2.1));
    assert(used_reading(b1) == Some(u1));
    assert(used_reading(b2) == Some(u2));
    assert(plan_reading(b1) == Some(plan1));
    assert(plan_reading(b2) == Some(plan2));
    assert(lines_effect(s0, Seq::<Seq<char>>::empty(), c.1) == s0);
    assert(!is_blank(l1) && !is_blank(l2));
    assert(is_rate_event(b1) && is_rate_event(b2));
    assert(s1 == line_effect(s0, b1, c.1));
    assert(s1.used_percent == Some((u1, Timestamp::spec_at(p1.0, p1.1))));
    assert(s1.subscription == Some((plan1, Timestamp::spec_at(p1.0, p1.1))));
    assert(lines_effect(s0, lines, c.1) == line_effect(s1, b2, c.1));
    assert(reads_seen(root_key, reads) == lines_effect(s0, lines, c.1));
}


/// A line is dated by its own "timestamp" where that reads as RFC 3339,
/// whatever the file's time; only a line without one falls back to the file's time.
pub proof fn lemma_line_dated_by_its_timestamp(b: Seq<u8>, file_time: Timestamp)
    ensures
        json_text(b, "/timestamp"@) matches Some(t) ==> (rfc3339_instant(t) matches Some(p) ==> line_time(
            b,
            file_time,
        ) == Timestamp::spec_at(p.0, p.1)),
        json_text(b, "/timestamp"@) is None ==> line_time(b, file_time) == file_time,
{
}


/// What a line reports, pointer by pointer: the model from
/// "thread_settings/model", else "model", else "model_slug"; the effort from
/// "thread_settings/reasoning_effort", else "reasoning_effort", else "effort";
/// the speed mode from "thread_settings/service_tier", else "service_tier",
/// else "speed_mode"; the version from "cli_version", else "client_version",
/// else "version"; the plan from "rate_limits/plan_type", else
/// "rate_limits/plan", else "plan_type" (all under "payload"); the used share
/// as the number written at "rate_limits/primary/used_percent"; and the reset
/// time as the RFC 3339 text of the epoch seconds at
/// "rate_limits/primary/resets_at".
pub proof fn lemma_line_readings(b: Seq<u8>)
    ensures
        json_text(b, "/payload/thread_settings/model"@) is Some ==> model_reading(b) == json_text(
            b,
            "/payload/thread_settings/model"@,
        ),
        json_text(b, "/payload/thread_settings/model"@) is None && json_text(b, "/payload/model"@) is Some
            ==> model_reading(b) == json_text(b, "/payload/model"@),
        json_text(b, "/payload/thread_settings/model"@) is None && json_text(b, "/payload/model"@) is None
            ==> model_reading(b) == json_text(b, "/payload/model_slug"@),
        json_text(b, "/payload/thread_settings/reasoning_effort"@) is Some ==> effort_reading(b) == json_text(
            b,
            "/payload/thread_settings/reasoning_effort"@,
        ),
        json_text(b, "/payload/thread_settings/reasoning_effort"@) is None && json_text(
            b,
            "/payload/reasoning_effort"@,
        ) is Some ==> effort_reading(b) == json_text(b, "/payload/reasoning_effort"@),
        json_text(b, "/payload/thread_settings/reasoning_effort"@) is None && json_text(
            b,
            "/payload/reasoning_effort"@,
        ) is None ==> effort_reading(b) == json_text(b, "/payload/effort"@),
        json_text(b, "/payload/thread_settings/service_tier"@) is Some ==> speed_reading(b) == json_text(
            b,
            "/payload/thread_settings/service_tier"@,
        ),
        json_text(b, "/payload/thread_settings/service_tier"@) is None && json_text(b, "/payload/service_tier"@)
            is Some ==> speed_reading(b) == json_text(b, "/payload/service_tier"@),
        json_text(b, "/payload/thread_settings/service_tier"@) is None && json_text(b, "/payload/service_tier"@)
            is None ==> speed_reading(b) == json_text(b, "/payload/speed_mode"@),
        json_text(b, "/payload/cli_version"@) is Some ==> version_reading(b) == json_text(b, "/payload/cli_version"@),
        json_text(b, "/payload/cli_version"@) is None && json_text(b, "/payload/client_version"@) is Some
            ==> version_reading(b) == json_text(b, "/payload/client_version"@),
        json_text(b, "/payload/cli_version"@) is None && json_text(b, "/payload/client_version"@) is None
            ==> version_reading(b) == json_text(b, "/payload/version"@),
        json_text(b, "/payload/rate_limits/plan_type"@) is Some ==> plan_reading(b) == json_text(
            b,
            "/payload/rate_limits/plan_type"@,
        ),
        json_text(b, "/payload/rate_limits/plan_type"@) is None && json_text(b, "/payload/rate_limits/plan"@)
            is Some ==> plan_reading(b) == json_text(b, "/payload/rate_limits/plan"@),
        json_text(b, "/payload/rate_limits/plan_type"@) is None && json_text(b, "/payload/rate_limits/plan"@)
            is None ==> plan_reading(b) == json_text(b, "/payload/plan_type"@),
        json_at(b, "/payload/rate_limits/primary/used_percent"@) matches Some(JsonModel::Number(t, _))
            ==> used_reading(b) == Some(t),
        !(json_at(b, "/payload/rate_limits/primary/used_percent"@) matches Some(JsonModel::Number(_, _)))
            ==> used_reading(b) is None,
        json_at(b, "/payload/rate_limits/primary/resets_at"@) matches Some(JsonModel::Number(_, Some(e)))
            ==> (utc_representable(e, 0) ==> reset_reading(b) == Some(rfc3339_text(e, 0))),
        is_rate_event(b) == (json_text(b, "/payload/type"@) == Some("token_count"@) && json_at(
            b,
            "/payload/rate_limits/primary"@,
        ) is Some),
{
}

} // verus!
