//! Per-field aggregation of the adapters' candidates into the shown status.

use vstd::prelude::*;
use crate::auth::AuthCandidates;
use crate::candidate::{push_option, AdapterResult, DiagnosticIssue, FieldCandidate};
use crate::diagnostics::{report_redacted, DiagnosticReport, DiagnosticRoot};
use crate::discovery::{DataRootCandidate, RootEvidence};
use crate::rollout::RolloutCandidates;
use crate::sqlite::ThreadCandidates;
use crate::status::{all_fields_empty, is_empty_field, CodexStatus, StatusField};
use crate::text::{owned, str_eq};
use crate::time::rfc3339_text;

verus! {

/// The status fields that candidates are collected for.
#[derive(Clone, Copy, Debug, PartialEq, Eq, Structural)]
pub enum StatusKey {
    Username,
    Model,
    ReasoningEffort,
    ReasoningSpeed,
    SpeedMode,
    Subscription,
    RemainingPercent,
    ResetAt,
    ClientVersion,
}

/// How much a source is preferred for a field: rollout logs first for what
/// they report, then the auth claims (the plan, behind rollout logs) and the
/// state database, a field mapping last, any other source in between.
pub open spec fn spec_source_priority(key: StatusKey, source: Seq<char>) -> u8 {
    if key == StatusKey::Subscription && source == "rollout"@ {
        4
    } else if key == StatusKey::Subscription && source == "auth"@ {
        3
    } else if key == StatusKey::Username && source == "auth"@ {
        4
    } else if (key == StatusKey::Model || key == StatusKey::ReasoningEffort || key
        == StatusKey::ReasoningSpeed || key == StatusKey::SpeedMode || key
        == StatusKey::ClientVersion) && source == "rollout"@ {
        4
    } else if (key == StatusKey::Model || key == StatusKey::ReasoningEffort || key
        == StatusKey::ClientVersion) && source == "sqlite"@ {
        3
    } else if (key == StatusKey::RemainingPercent || key == StatusKey::ResetAt) && source
        == "rollout"@ {
        4
    } else if source == "mapping"@ {
        1
    } else {
        2
    }
}

/// How much `source` is preferred for the field `key`.
pub fn source_priority(key: StatusKey, source: &str) -> (r: u8)
    ensures
        r == spec_source_priority(key, source@),
{
    let rollout = str_eq(source, "rollout");
    let auth = str_eq(source, "auth");
    let sqlite = str_eq(source, "sqlite");
    let mapping = str_eq(source, "mapping");
    let for_rollout = key == StatusKey::Model || key == StatusKey::ReasoningEffort || key
        == StatusKey::ReasoningSpeed || key == StatusKey::SpeedMode || key
        == StatusKey::ClientVersion;
    let for_sqlite = key == StatusKey::Model || key == StatusKey::ReasoningEffort || key
        == StatusKey::ClientVersion;
    let for_rate = key == StatusKey::RemainingPercent || key == StatusKey::ResetAt;
    if key == StatusKey::Subscription && rollout {
        4
    } else if key == StatusKey::Subscription && auth {
        3
    } else if key == StatusKey::Username && auth {
        4
    } else if for_rollout && rollout {
        4
    } else if for_sqlite && sqlite {
        3
    } else if for_rate && rollout {
        4
    } else if mapping {
        1
    } else {
        2
    }
}

/// Whether `a` ranks strictly below `b` for the field `key`: by source
/// priority, then by observation time, then by confidence.
pub open spec fn ranks_below<T>(a: FieldCandidate<T>, b: FieldCandidate<T>, key: StatusKey) -> bool {
    let pa = spec_source_priority(key, a.source@);
    let pb = spec_source_priority(key, b.source@);
    let (sa, na) = (a.observed_at.spec_secs(), a.observed_at.spec_nanos());
    let (sb, nb) = (b.observed_at.spec_secs(), b.observed_at.spec_nanos());
    ||| pa < pb
    ||| pa == pb && sa < sb
    ||| pa == pb && sa == sb && na < nb
    ||| pa == pb && sa == sb && na == nb && a.confidence < b.confidence
}

/// Whether `s[i]` is the candidate chosen for `key`: no candidate ranks above
/// it, and every later candidate ranks below it (of equally ranked candidates,
/// the last one is chosen).
pub open spec fn is_chosen<T>(s: Seq<FieldCandidate<T>>, key: StatusKey, i: int) -> bool {
    &&& 0 <= i < s.len()
    &&& forall|j: int| 0 <= j < s.len() ==> !ranks_below(#[trigger] s[i], s[j], key)
    &&& forall|j: int| i < j < s.len() ==> ranks_below(#[trigger] s[j], s[i], key)
}

/// The candidate chosen for `key` among `s`, if `s` is not empty.
pub open spec fn chosen<T>(s: Seq<FieldCandidate<T>>, key: StatusKey) -> Option<FieldCandidate<T>> {
    if s.len() == 0 {
        None
    } else {
        Some(s[choose|i: int| is_chosen(s, key, i)])
    }
}

/// Whether `a` ranks strictly below `b` for the field `key`.
fn rank_below<T>(a: &FieldCandidate<T>, b: &FieldCandidate<T>, key: StatusKey) -> (r: bool)
    ensures
        r == ranks_below(*a, *b, key),
{
    let pa = source_priority(key, a.source);
    let pb = source_priority(key, b.source);
    if pa != pb {
        pa < pb
    } else if b.observed_at.is_after(&a.observed_at) {
        true
    } else if a.observed_at.is_after(&b.observed_at) {
        false
    } else {
        a.confidence < b.confidence
    }
}

/// Picks the candidate for `key`: the highest-ranked one, the last of equals.
pub fn select_candidate<T>(candidates: Vec<FieldCandidate<T>>, key: StatusKey) -> (r: Option<
    FieldCandidate<T>,
>)
    ensures
        r == chosen(candidates@, key),
{
    let mut candidates = candidates;
    let ghost s = candidates@;
    if candidates.len() == 0 {
        return None;
    }
    let mut best: usize = 0;
    let mut j: usize = 1;
    while j < candidates.len()
        invariant
            candidates@ == s,
            0 < j <= s.len(),
            best < j,
            forall|k: int| 0 <= k < j ==> !ranks_below(s[best as int], #[trigger] s[k], key),
            forall|k: int| best < k < j ==> ranks_below(#[trigger] s[k], s[best as int], key),
        decreases s.len() - j,
    {
        if !rank_below(&candidates[j], &candidates[best], key) {
            proof {
                assert forall|k: int| 0 <= k < j + 1 implies !ranks_below(s[j as int], #[trigger] s[k], key) by {
                    if k < j {
                        assert(!ranks_below(s[best as int], s[k], key));
                    }
                }
            }
            best = j;
        }
        j = j + 1;
    }
    proof {
        assert(is_chosen(s, key, best as int));
        let c = choose|i: int| is_chosen(s, key, i);
        if c != best as int {
            if c < best as int {
                assert(ranks_below(s[best as int], s[c], key));
            } else {
                assert(ranks_below(s[c], s[best as int], key));
            }
        }
    }
    Some(candidates.swap_remove(best))
}

/// The candidates gathered for each status field.
#[derive(Clone, Debug)]
pub struct SnapshotCandidates<N> {
    pub username: Vec<FieldCandidate<String>>,
    pub model: Vec<FieldCandidate<String>>,
    pub reasoning_effort: Vec<FieldCandidate<String>>,
    pub reasoning_speed: Vec<FieldCandidate<N>>,
    pub speed_mode: Vec<FieldCandidate<String>>,
    pub subscription: Vec<FieldCandidate<String>>,
    pub remaining_percent: Vec<FieldCandidate<N>>,
    pub reset_at: Vec<FieldCandidate<String>>,
    pub client_version: Vec<FieldCandidate<String>>,
}

/// Whether no field has a candidate.
pub open spec fn no_candidates<N>(c: SnapshotCandidates<N>) -> bool {
    &&& c.username@.len() == 0
    &&& c.model@.len() == 0
    &&& c.reasoning_effort@.len() == 0
    &&& c.reasoning_speed@.len() == 0
    &&& c.speed_mode@.len() == 0
    &&& c.subscription@.len() == 0
    &&& c.remaining_percent@.len() == 0
    &&& c.reset_at@.len() == 0
    &&& c.client_version@.len() == 0
}

impl<N> Default for SnapshotCandidates<N> {
    fn default() -> (r: Self)
        ensures
            no_candidates(r),
    {
        SnapshotCandidates {
            username: Vec::new(),
            model: Vec::new(),
            reasoning_effort: Vec::new(),
            reasoning_speed: Vec::new(),
            speed_mode: Vec::new(),
            subscription: Vec::new(),
            remaining_percent: Vec::new(),
            reset_at: Vec::new(),
            client_version: Vec::new(),
        }
    }
}

/// Whether the field `f` shows the candidate chosen for `key` among `s`: its
/// value, marked as read from a file, with its observation time in RFC 3339
/// and its confidence; or nothing where `s` is empty.
pub open spec fn shows_chosen<T>(f: StatusField<T>, s: Seq<FieldCandidate<T>>, key: StatusKey) -> bool {
    match chosen(s, key) {
        None => is_empty_field(f),
        Some(c) => {
            &&& f.value == Some(c.value)
            &&& f.source matches Some(x) && x@ == "file"@
            &&& f.observed_at matches Some(t) && t@ == rfc3339_text(
                c.observed_at.spec_secs(),
                c.observed_at.spec_nanos(),
            )
            &&& f.confidence == Some(c.confidence)
            &&& !f.stale
        },
    }
}

/// The field that shows the candidate chosen for `key`.
pub fn into_status<T>(candidates: Vec<FieldCandidate<T>>, key: StatusKey) -> (r: StatusField<T>)
    ensures
        shows_chosen(r, candidates@, key),
{
    match select_candidate(candidates, key) {
        None => StatusField::default(),
        Some(c) => StatusField {
            observed_at: Some(c.observed_at.to_rfc3339()),
            value: Some(c.value),
            source: Some(owned("file")),
            confidence: Some(c.confidence),
            stale: false,
        },
    }
}

/// Whether a core field has a candidate (the reasoning speed does not count).
pub open spec fn has_core_field<N>(c: SnapshotCandidates<N>) -> bool {
    ||| c.username@.len() > 0
    ||| c.model@.len() > 0
    ||| c.reasoning_effort@.len() > 0
    ||| c.speed_mode@.len() > 0
    ||| c.subscription@.len() > 0
    ||| c.remaining_percent@.len() > 0
    ||| c.reset_at@.len() > 0
    ||| c.client_version@.len() > 0
}

/// The message shown while connected.
pub open spec fn connected_message() -> Seq<char> {
    "已连接本地只读状态"@
}

/// The message shown when no source could be trusted.
pub open spec fn no_source_message() -> Seq<char> {
    "未发现可信数据源，请确认 Codex 已登录并至少运行过一个任务"@
}

/// Whether `r` is the status built from `c`: each field shows its chosen
/// candidate, the usage fields show nothing, and the status is "connected"
/// exactly when a core field has a candidate, "recon-required" otherwise.
pub open spec fn is_status_of<N>(r: CodexStatus<N>, c: SnapshotCandidates<N>) -> bool {
    &&& shows_chosen(r.username, c.username@, StatusKey::Username)
    &&& shows_chosen(r.model, c.model@, StatusKey::Model)
    &&& shows_chosen(r.reasoning_effort, c.reasoning_effort@, StatusKey::ReasoningEffort)
    &&& shows_chosen(r.reasoning_speed, c.reasoning_speed@, StatusKey::ReasoningSpeed)
    &&& shows_chosen(r.speed_mode, c.speed_mode@, StatusKey::SpeedMode)
    &&& shows_chosen(r.subscription, c.subscription@, StatusKey::Subscription)
    &&& shows_chosen(r.remaining_percent, c.remaining_percent@, StatusKey::RemainingPercent)
    &&& shows_chosen(r.reset_at, c.reset_at@, StatusKey::ResetAt)
    &&& shows_chosen(r.client_version, c.client_version@, StatusKey::ClientVersion)
    &&& is_empty_field(r.monthly_usage)
    &&& is_empty_field(r.weekly_duration_seconds)
    &&& if has_core_field(c) {
        &&& r.sync_state@ == "connected"@
        &&& r.message matches Some(m) && m@ == connected_message()
    } else {
        &&& r.sync_state@ == "recon-required"@
        &&& r.message matches Some(m) && m@ == no_source_message()
    }
}

/// Builds the shown status from the gathered candidates.
pub fn build_status<N>(candidates: SnapshotCandidates<N>) -> (r: CodexStatus<N>)
    ensures
        is_status_of(r, candidates),
{
    let ghost c = candidates;
    let available = candidates.username.len() > 0 || candidates.model.len() > 0
        || candidates.reasoning_effort.len() > 0 || candidates.speed_mode.len() > 0
        || candidates.subscription.len() > 0 || candidates.remaining_percent.len() > 0
        || candidates.reset_at.len() > 0 || candidates.client_version.len() > 0;
    let SnapshotCandidates {
        username,
        model,
        reasoning_effort,
        reasoning_speed,
        speed_mode,
        subscription,
        remaining_percent,
        reset_at,
        client_version,
    } = candidates;
    let mut status = CodexStatus::default();
    status.username = into_status(username, StatusKey::Username);
    status.model = into_status(model, StatusKey::Model);
    status.reasoning_effort = into_status(reasoning_effort, StatusKey::ReasoningEffort);
    status.reasoning_speed = into_status(reasoning_speed, StatusKey::ReasoningSpeed);
    status.speed_mode = into_status(speed_mode, StatusKey::SpeedMode);
    status.subscription = into_status(subscription, StatusKey::Subscription);
    status.remaining_percent = into_status(remaining_percent, StatusKey::RemainingPercent);
    status.reset_at = into_status(reset_at, StatusKey::ResetAt);
    status.client_version = into_status(client_version, StatusKey::ClientVersion);
    if available {
        status.sync_state = owned("connected");
        status.message = Some(owned("已连接本地只读状态"));
    } else {
        status.sync_state = owned("recon-required");
        status.message = Some(owned("未发现可信数据源，请确认 Codex 已登录并至少运行过一个任务"));
    }
    status
}

/// What a snapshot is asked to do: look for the data roots again even where
/// they are cached, and where to store the redacted diagnostics (if anywhere).
#[derive(Clone, Debug)]
pub struct SnapshotOptions {
    pub force_discovery: bool,
    pub diagnostics_path: Option<String>,
}

impl Default for SnapshotOptions {
    fn default() -> (r: Self)
        ensures
            !r.force_discovery,
            r.diagnostics_path is None,
    {
        SnapshotOptions { force_discovery: false, diagnostics_path: None }
    }
}

/// Keeps the discovered data roots between snapshots.
#[derive(Clone, Debug)]
pub struct SnapshotCollector {
    pub roots: Option<Vec<DataRootCandidate>>,
}

impl Default for SnapshotCollector {
    fn default() -> (r: Self)
        ensures
            r.roots is None,
    {
        SnapshotCollector { roots: None }
    }
}

impl SnapshotCollector {
    /// Whether the data roots must be discovered (again) before a snapshot:
    /// where asked to, where none are cached, or where a cached root is no
    /// longer a folder (`cached_roots_exist` tells whether all still are).
    pub fn should_discover(&self, force_discovery: bool, cached_roots_exist: bool) -> (r: bool)
        ensures
            r == (force_discovery || self.roots is None || !cached_roots_exist),
    {
        force_discovery || self.roots.is_none() || !cached_roots_exist
    }

    /// Caches freshly discovered roots.
    pub fn store(&mut self, roots: Vec<DataRootCandidate>)
        ensures
            final(self).roots == Some(roots),
    {
        self.roots = Some(roots);
    }

    /// The cached roots, or none.
    pub fn cached(&self) -> (r: &[DataRootCandidate])
        ensures
            r@ == match self.roots {
                Some(v) => v@,
                None => Seq::empty(),
            },
    {
        match &self.roots {
            Some(v) => v.as_slice(),
            None => &[],
        }
    }
}

/// The name under which the report shows a kind of evidence.
pub open spec fn spec_evidence_name(e: RootEvidence) -> Seq<char> {
    match e {
        RootEvidence::Sessions => "sessions"@,
        RootEvidence::ModelsCache => "models-cache"@,
        RootEvidence::Auth => "auth"@,
        RootEvidence::StateDatabase => "state-database"@,
        RootEvidence::RolloutLog => "rollout-log"@,
    }
}

/// The name under which the report shows a kind of evidence.
pub fn evidence_name(value: &RootEvidence) -> (r: String)
    ensures
        r@ == spec_evidence_name(*value),
{
    match value {
        RootEvidence::Sessions => owned("sessions"),
        RootEvidence::ModelsCache => owned("models-cache"),
        RootEvidence::Auth => owned("auth"),
        RootEvidence::StateDatabase => owned("state-database"),
        RootEvidence::RolloutLog => owned("rollout-log"),
    }
}

/// The value of an option as a sequence of at most one.
pub open spec fn opt_seq<T>(o: Option<T>) -> Seq<T> {
    match o {
        Some(v) => seq![v],
        None => Seq::empty(),
    }
}

/// Whether `r` is the report's entry for `root`: its path, the names of its
/// evidence, and no table, column or event type.
pub open spec fn root_entry(r: DiagnosticRoot, root: DataRootCandidate) -> bool {
    &&& r.path@ == root.path@
    &&& r.evidence@.len() == root.evidence@.len()
    &&& forall|i: int| 0 <= i < root.evidence@.len() ==> #[trigger] r.evidence@[i]@ == spec_evidence_name(root.evidence@[i])
    &&& r.tables@.len() == 0
    &&& r.columns@.len() == 0
    &&& r.event_types@.len() == 0
}

/// The report's entry for a root.
pub fn root_entry_of(root: &DataRootCandidate) -> (r: DiagnosticRoot)
    ensures
        root_entry(r, *root),
{
    let mut evidence: Vec<String> = Vec::new();
    let mut i: usize = 0;
    while i < root.evidence.len()
        invariant
            i <= root.evidence.len(),
            evidence@.len() == i,
            forall|k: int| 0 <= k < i ==> #[trigger] evidence@[k]@ == spec_evidence_name(root.evidence@[k]),
        decreases root.evidence.len() - i,
    {
        evidence.push(evidence_name(&root.evidence[i]));
        i = i + 1;
    }
    DiagnosticRoot {
        path: owned(root.path.as_str()),
        evidence,
        tables: Vec::new(),
        columns: Vec::new(),
        event_types: Vec::new(),
    }
}

/// The rollout log paths that the state databases name, in order.
pub fn hinted_paths(threads: &ThreadCandidates) -> (r: Vec<String>)
    ensures
        r@.map_values(|p: String| p@) == threads.rollout_paths@.map_values(
            |c: FieldCandidate<String>| c.value@,
        ),
{
    let mut out: Vec<String> = Vec::new();
    let mut i: usize = 0;
    while i < threads.rollout_paths.len()
        invariant
            i <= threads.rollout_paths.len(),
            out@.map_values(|p: String| p@) == threads.rollout_paths@.take(i as int).map_values(
                |c: FieldCandidate<String>| c.value@,
            ),
        decreases threads.rollout_paths.len() - i,
    {
        let ghost before = out@;
        let ghost tk = threads.rollout_paths@.take(i + 1);
        assert(tk =~= threads.rollout_paths@.take(i as int).push(threads.rollout_paths@[i as int]));
        out.push(owned(threads.rollout_paths[i].value.as_str()));
        assert(out@.map_values(|p: String| p@) =~= before.map_values(|p: String| p@).push(threads.rollout_paths@[i as int].value@));
        assert(out@.map_values(|p: String| p@) =~= threads.rollout_paths@.take(i + 1).map_values(
            |c: FieldCandidate<String>| c.value@,
        ));
        i = i + 1;
    }
    assert(threads.rollout_paths@.take(threads.rollout_paths@.len() as int) =~= threads.rollout_paths@);
    out
}

/// Whether `new` is `old` with one root's candidates added: the state
/// database's model, effort and version; the rollout logs' model, effort,
/// speed mode, plan, rate reading, reset time and version; the auth claims'
/// name and plan; each list in that order.
pub open spec fn root_gathered<N>(
    new: SnapshotCandidates<N>,
    old: SnapshotCandidates<N>,
    sqlite: ThreadCandidates,
    rollout: RolloutCandidates<N>,
    auth: AuthCandidates,
) -> bool {
    &&& new.username@ == old.username@ + opt_seq(auth.username)
    &&& new.model@ == old.model@ + opt_seq(sqlite.model) + opt_seq(rollout.model)
    &&& new.reasoning_effort@ == old.reasoning_effort@ + opt_seq(sqlite.reasoning_effort) + opt_seq(
        rollout.reasoning_effort,
    )
    &&& new.reasoning_speed@ == old.reasoning_speed@
    &&& new.speed_mode@ == old.speed_mode@ + opt_seq(rollout.speed_mode)
    &&& new.subscription@ == old.subscription@ + opt_seq(rollout.subscription) + opt_seq(
        auth.subscription,
    )
    &&& new.remaining_percent@ == old.remaining_percent@ + opt_seq(rollout.remaining_percent)
    &&& new.reset_at@ == old.reset_at@ + opt_seq(rollout.reset_at)
    &&& new.client_version@ == old.client_version@ + opt_seq(sqlite.client_version) + opt_seq(
        rollout.client_version,
    )
}

proof fn lemma_push_opt<T>(s: Seq<T>, o: Option<T>)
    ensures
        (match o {
            Some(v) => s.push(v),
            None => s,
        }) == s + opt_seq(o),
{
    match o {
        Some(v) => assert(s.push(v) =~= s + seq![v]),
        None => assert(s =~= s + Seq::<T>::empty()),
    }
}

/// Adds what one data root gave to the candidates and to the report: the
/// root's entry, then the issues of the state databases, the rollout logs
/// and the auth claims, in that order.
pub fn gather_root<N>(
    candidates: &mut SnapshotCandidates<N>,
    report: &mut DiagnosticReport,
    root: &DataRootCandidate,
    sqlite: AdapterResult<ThreadCandidates>,
    rollout: AdapterResult<RolloutCandidates<N>>,
    auth: AdapterResult<AuthCandidates>,
)
    ensures
        root_gathered(*final(candidates), *old(candidates), sqlite.value, rollout.value, auth.value),
        final(report).roots@.len() == old(report).roots@.len() + 1,
        final(report).roots@.drop_last() == old(report).roots@,
        root_entry(final(report).roots@.last(), *root),
        final(report).issues@ == old(report).issues@ + sqlite.issues@ + rollout.issues@ + auth.issues@,
{
    let ghost c0 = *candidates;
    let ghost sq = sqlite.value;
    let ghost ro = rollout.value;
    let ghost au = auth.value;
    report.roots.push(root_entry_of(root));
    let AdapterResult { value: s, issues: mut s_issues } = sqlite;
    let AdapterResult { value: r, issues: mut r_issues } = rollout;
    let AdapterResult { value: a, issues: mut a_issues } = auth;
    let ghost i0 = report.issues@;
    let ghost si = s_issues@;
    let ghost ri = r_issues@;
    let ghost ai = a_issues@;
    report.issues.append(&mut s_issues);
    report.issues.append(&mut r_issues);
    report.issues.append(&mut a_issues);
    assert(report.issues@ =~= i0 + si + ri + ai);
    push_option(&mut candidates.model, s.model);
    push_option(&mut candidates.reasoning_effort, s.reasoning_effort);
    push_option(&mut candidates.client_version, s.client_version);
    push_option(&mut candidates.model, r.model);
    push_option(&mut candidates.reasoning_effort, r.reasoning_effort);
    push_option(&mut candidates.speed_mode, r.speed_mode);
    push_option(&mut candidates.subscription, r.subscription);
    push_option(&mut candidates.remaining_percent, r.remaining_percent);
    push_option(&mut candidates.reset_at, r.reset_at);
    push_option(&mut candidates.client_version, r.client_version);
    push_option(&mut candidates.username, a.username);
    push_option(&mut candidates.subscription, a.subscription);
    proof {
        lemma_push_opt(c0.model@, sq.model);
        lemma_push_opt(c0.model@ + opt_seq(sq.model), ro.model);
        lemma_push_opt(c0.reasoning_effort@, sq.reasoning_effort);
        lemma_push_opt(c0.reasoning_effort@ + opt_seq(sq.reasoning_effort), ro.reasoning_effort);
        lemma_push_opt(c0.client_version@, sq.client_version);
        lemma_push_opt(c0.client_version@ + opt_seq(sq.client_version), ro.client_version);
        lemma_push_opt(c0.speed_mode@, ro.speed_mode);
        lemma_push_opt(c0.subscription@, ro.subscription);
        lemma_push_opt(c0.subscription@ + opt_seq(ro.subscription), au.subscription);
        lemma_push_opt(c0.remaining_percent@, ro.remaining_percent);
        lemma_push_opt(c0.reset_at@, ro.reset_at);
        lemma_push_opt(c0.username@, au.username);
    }
}


/// The chosen candidate comes from a source of the highest priority for the
/// field among all candidates, and of those sources it was observed last.
pub proof fn lemma_chosen_has_top_priority<T>(s: Seq<FieldCandidate<T>>, key: StatusKey)
    requires
        s.len() > 0,
    ensures
        chosen(s, key) is Some,
        forall|j: int|
            0 <= j < s.len() ==> spec_source_priority(key, (#[trigger] s[j]).source@) <= spec_source_priority(
                key,
                chosen(s, key)->0.source@,
            ),
        forall|j: int|
            0 <= j < s.len() && spec_source_priority(key, (#[trigger] s[j]).source@) == spec_source_priority(
                key,
                chosen(s, key)->0.source@,
            ) ==> !s[j].observed_at.spec_is_after(chosen(s, key)->0.observed_at),
{
    lemma_chosen_exists(s, key);
    let i = choose|i: int| is_chosen(s, key, i);
    assert forall|j: int| 0 <= j < s.len() implies spec_source_priority(key, (#[trigger] s[j]).source@)
        <= spec_source_priority(key, s[i].source@) by {
        assert(!ranks_below(s[i], s[j], key));
    }
    assert forall|j: int|
        0 <= j < s.len() && spec_source_priority(key, (#[trigger] s[j]).source@) == spec_source_priority(
            key,
            s[i].source@,
        ) implies !s[j].observed_at.spec_is_after(s[i].observed_at) by {
        assert(!ranks_below(s[i], s[j], key));
    }
}

/// Some candidate is the chosen one whenever there is a candidate.
proof fn lemma_chosen_exists<T>(s: Seq<FieldCandidate<T>>, key: StatusKey)
    requires
        s.len() > 0,
    ensures
        exists|i: int| is_chosen(s, key, i),
    decreases s.len(),
{
    if s.len() == 1 {
        assert(is_chosen(s, key, 0));
    } else {
        let p = s.drop_last();
        lemma_chosen_exists(p, key);
        let i = choose|i: int| is_chosen(p, key, i);
        let last = s.len() - 1;
        if ranks_below(s[last], s[i], key) {
            assert forall|j: int| 0 <= j < s.len() implies !ranks_below(#[trigger] s[i], s[j], key) by {
                if j < last {
                    assert(s[j] == p[j]);
                    assert(!ranks_below(p[i], p[j], key));
                } else {
                    assert(ranks_below(s[last], s[i], key));
                }
            }
            assert forall|j: int| i < j < s.len() implies ranks_below(#[trigger] s[j], s[i], key) by {
                if j < last {
                    assert(s[j] == p[j]);
                }
            }
            assert(is_chosen(s, key, i));
        } else {
            assert forall|j: int| 0 <= j < s.len() implies !ranks_below(#[trigger] s[last], s[j], key) by {
                if j < last {
                    assert(s[j] == p[j]);
                    assert(!ranks_below(p[i], p[j], key));
                }
            }
            assert(is_chosen(s, key, last));
        }
    }
}

/// A plan read from a rollout log is shown in place of one claimed by the
/// login token, whatever their times: where a subscription candidate comes
/// from the rollout logs, the chosen one does.
pub proof fn lemma_rollout_plan_beats_auth_claim(s: Seq<FieldCandidate<String>>)
    requires
        exists|k: int| 0 <= k < s.len() && (#[trigger] s[k]).source@ == "rollout"@,
    ensures
        chosen(s, StatusKey::Subscription) matches Some(c) && c.source@ == "rollout"@,
{
    let k = choose|k: int| 0 <= k < s.len() && (#[trigger] s[k]).source@ == "rollout"@;
    lemma_chosen_has_top_priority(s, StatusKey::Subscription);
    assert(spec_source_priority(StatusKey::Subscription, s[k].source@) == 4);
}

/// Without a candidate for any core field, every field shows nothing and the
/// status asks for reconnaissance.
pub proof fn lemma_no_source_shows_nothing<N>(r: CodexStatus<N>, c: SnapshotCandidates<N>)
    requires
        no_candidates(c),
        is_status_of(r, c),
    ensures
        all_fields_empty(r),
        r.sync_state@ == "recon-required"@,
{
}


/// Where and what to store of the diagnostics of a snapshot: where a
/// diagnostics path is given, that path and the gathered report redacted for
/// the user's home (never the report as gathered); else nothing.
pub fn diagnostics_to_store(report: &DiagnosticReport, home: &str, path: &Option<String>) -> (r: Option<
    (String, DiagnosticReport),
>)
    ensures
        path is None ==> r is None,
        path matches Some(p) ==> (r matches Some(x) && x.0@ == p@ && report_redacted(x.1, *report, home@)),
{
    match path {
        Some(p) => Some((owned(p.as_str()), report.redacted_for(home))),
        None => None,
    }
}


/// Whether the rollout logs report the field (all but the account name and the plan).
pub open spec fn rollout_reported(key: StatusKey) -> bool {
    key == StatusKey::Model || key == StatusKey::ReasoningEffort || key == StatusKey::ReasoningSpeed
        || key == StatusKey::SpeedMode || key == StatusKey::ClientVersion || key
        == StatusKey::RemainingPercent || key == StatusKey::ResetAt
}

/// How sources rank: for a field the rollout logs report, the logs rank above
/// every other source; for the model, effort and version the state database
/// ranks above every source but the logs; for the plan the logs rank above the
/// auth claims, which rank above every other source; for the account name the
/// auth claims rank above every other source; and a field mapping ranks below
/// every other source, for every field.
pub proof fn lemma_source_ranking(key: StatusKey, other: Seq<char>)
    ensures
        rollout_reported(key) && other != "rollout"@ ==> spec_source_priority(key, "rollout"@)
            > spec_source_priority(key, other),
        (key == StatusKey::Model || key == StatusKey::ReasoningEffort || key == StatusKey::ClientVersion)
            && other != "rollout"@ && other != "sqlite"@ ==> spec_source_priority(key, "sqlite"@)
            > spec_source_priority(key, other),
        key == StatusKey::Subscription && other != "rollout"@ ==> spec_source_priority(key, "rollout"@)
            > spec_source_priority(key, other),
        key == StatusKey::Subscription && other != "rollout"@ && other != "auth"@ ==> spec_source_priority(
            key,
            "auth"@,
        ) > spec_source_priority(key, other),
        key == StatusKey::Username && other != "auth"@ ==> spec_source_priority(key, "auth"@)
            > spec_source_priority(key, other),
        other != "mapping"@ ==> spec_source_priority(key, "mapping"@) < spec_source_priority(key, other),
{
    reveal_strlit("rollout");
    reveal_strlit("sqlite");
    reveal_strlit("auth");
    reveal_strlit("mapping");
    assert("rollout"@[0] != "sqlite"@[0]);
    assert("rollout"@[0] != "auth"@[0]);
    assert("rollout"@[0] != "mapping"@[0]);
    assert("sqlite"@[0] != "auth"@[0]);
    assert("sqlite"@[0] != "mapping"@[0]);
    assert("auth"@[0] != "mapping"@[0]);
}

/// For a field that the rollout logs report, whenever a candidate comes from
/// the logs the shown candidate comes from the logs.
pub proof fn lemma_rollout_wins_reported_fields<T>(s: Seq<FieldCandidate<T>>, key: StatusKey)
    requires
        rollout_reported(key),
        exists|k: int| 0 <= k < s.len() && (#[trigger] s[k]).source@ == "rollout"@,
    ensures
        chosen(s, key) matches Some(c) && c.source@ == "rollout"@,
{
    let k = choose|k: int| 0 <= k < s.len() && (#[trigger] s[k]).source@ == "rollout"@;
    lemma_chosen_has_top_priority(s, key);
    let c = chosen(s, key)->0;
    if c.source@ != "rollout"@ {
        lemma_source_ranking(key, c.source@);
        assert(spec_source_priority(key, s[k].source@) <= spec_source_priority(key, c.source@));
    }
}

} // verus!
