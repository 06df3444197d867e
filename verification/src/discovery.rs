//! Discovery of the client's data roots by their structure: which folders
//! look like the client's data, how strongly, and in which order to use them.

use vstd::prelude::*;
use crate::order::{key_lt, keyed_by, lemma_keyed_pairs, lemma_sorted_desc_map, map_second, sort_desc, sorted_desc, SortKey};
use crate::paths::{dedup_paths, deduped_paths, no_neighbour_repeats, sort_paths, sorted_paths};
use crate::text::{owned, str_eq, opt_view, ascii_lower, ends_with, has_prefix, has_suffix, lower_chars, starts_with, to_chars};
use crate::time::Timestamp;

verus! {

/// Where discovery looks: the user's home, the folder that `CODEX_HOME` names
/// (if set), and the platform's configuration, data and cache folders.
#[derive(Clone, Debug)]
pub struct DiscoveryInputs {
    pub home: String,
    pub codex_home: Option<String>,
    pub system_roots: Vec<String>,
}

/// What marks a folder as the client's data.
#[derive(Clone, Copy, Debug, PartialEq, Eq, Structural)]
pub enum RootEvidence {
    Sessions,
    ModelsCache,
    Auth,
    StateDatabase,
    RolloutLog,
}

/// A folder that holds the client's data, with its score and what was found there.
#[derive(Clone, Debug)]
pub struct DataRootCandidate {
    pub path: String,
    pub score: u16,
    pub evidence: Vec<RootEvidence>,
}

/// A regular file directly in a folder, with its modification time (the Unix
/// epoch where the time cannot be read).
#[derive(Clone, Debug)]
pub struct ListedFile {
    pub name: String,
    pub modified: Timestamp,
}

/// What a folder holds, as far as discovery looks: the modification times of
/// a `sessions` folder, a `models_cache.json` file and an `auth.json` file
/// where they exist (the Unix epoch where a time cannot be read), and the
/// regular files directly in it.
#[derive(Clone, Debug)]
pub struct RootListing {
    pub sessions: Option<Timestamp>,
    pub models_cache: Option<Timestamp>,
    pub auth: Option<Timestamp>,
    pub files: Vec<ListedFile>,
}

/// The later of two instants.
pub open spec fn later(a: Timestamp, b: Timestamp) -> Timestamp {
    if b.spec_is_after(a) {
        b
    } else {
        a
    }
}

fn later_of(a: Timestamp, b: Timestamp) -> (r: Timestamp)
    ensures
        r == later(a, b),
{
    if b.is_after(&a) {
        b
    } else {
        a
    }
}

/// Whether a file name (in any ASCII case) names a state database: `state_…`
/// ending in `.sqlite` or `.db`.
pub open spec fn is_state_db_name(name: Seq<char>) -> bool {
    let n = ascii_lower(name);
    has_prefix(n, "state_"@) && (has_suffix(n, ".sqlite"@) || has_suffix(n, ".db"@))
}

/// Whether a file name (in any ASCII case) names a rollout log: `….jsonl`.
pub open spec fn is_log_name(name: Seq<char>) -> bool {
    has_suffix(ascii_lower(name), ".jsonl"@)
}

/// Score, evidence and newest time, while a folder is being inspected.
pub type Inspection = (int, Seq<RootEvidence>, Timestamp);

/// The inspection after one more regular file: a state database adds 3 and
/// its evidence once, a rollout log adds 1 and its evidence once; either
/// counts towards the newest time.
pub open spec fn file_step(st: Inspection, name: Seq<char>, modified: Timestamp) -> Inspection {
    if is_state_db_name(name) {
        if st.1.contains(RootEvidence::StateDatabase) {
            (st.0, st.1, later(st.2, modified))
        } else {
            (st.0 + 3, st.1.push(RootEvidence::StateDatabase), later(st.2, modified))
        }
    } else if is_log_name(name) {
        if st.1.contains(RootEvidence::RolloutLog) {
            (st.0, st.1, later(st.2, modified))
        } else {
            (st.0 + 1, st.1.push(RootEvidence::RolloutLog), later(st.2, modified))
        }
    } else {
        st
    }
}

/// The inspection after the files, taken in order.
pub open spec fn files_step(st: Inspection, files: Seq<ListedFile>) -> Inspection
    decreases files.len(),
{
    if files.len() == 0 {
        st
    } else {
        let prev = files_step(st, files.drop_last());
        file_step(prev, files.last().name@, files.last().modified)
    }
}

/// The inspection from the fixed entries: `sessions` adds 2, `models_cache.json`
/// adds 2, `auth.json` adds 1, each with its evidence and time.
pub open spec fn fixed_step(l: RootListing, epoch: Timestamp) -> Inspection {
    let s0: Inspection = (0, Seq::empty(), epoch);
    let s1 = match l.sessions {
        Some(t) => (s0.0 + 2, s0.1.push(RootEvidence::Sessions), later(s0.2, t)),
        None => s0,
    };
    let s2 = match l.models_cache {
        Some(t) => (s1.0 + 2, s1.1.push(RootEvidence::ModelsCache), later(s1.2, t)),
        None => s1,
    };
    match l.auth {
        Some(t) => (s2.0 + 1, s2.1.push(RootEvidence::Auth), later(s2.2, t)),
        None => s2,
    }
}

/// What a folder's listing shows: its score, evidence and newest time where
/// the score is at least 3, else nothing.
pub open spec fn spec_inspect(l: RootListing, epoch: Timestamp) -> Option<Inspection> {
    let st = files_step(fixed_step(l, epoch), l.files@);
    if st.0 >= 3 {
        Some(st)
    } else {
        None
    }
}

proof fn lemma_files_step_bounds(st: Inspection, files: Seq<ListedFile>)
    requires
        0 <= st.0 <= 5,
        !st.1.contains(RootEvidence::StateDatabase),
        !st.1.contains(RootEvidence::RolloutLog),
    ensures
        st.0 <= files_step(st, files).0 <= st.0 + 4,
        files_step(st, files).0 >= st.0 + 3 <== files_step(st, files).1.contains(RootEvidence::StateDatabase),
        files_step(st, files).0 >= st.0 + 1 <== files_step(st, files).1.contains(RootEvidence::RolloutLog),
        files_step(st, files).0 == st.0 + (if files_step(st, files).1.contains(RootEvidence::StateDatabase) { 3int } else { 0int }) + (if files_step(st, files).1.contains(RootEvidence::RolloutLog) { 1int } else { 0int }),
    decreases files.len(),
{
    if files.len() > 0 {
        lemma_files_step_bounds(st, files.drop_last());
        let prev = files_step(st, files.drop_last());
        let f = files.last();
        if is_state_db_name(f.name@) && !prev.1.contains(RootEvidence::StateDatabase) {
            assert(prev.1.push(RootEvidence::StateDatabase)[prev.1.len() as int] == RootEvidence::StateDatabase);
            assert(prev.1.push(RootEvidence::StateDatabase).contains(RootEvidence::RolloutLog) == prev.1.contains(RootEvidence::RolloutLog)) by {
                if prev.1.contains(RootEvidence::RolloutLog) {
                    let k = choose|k: int| 0 <= k < prev.1.len() && prev.1[k] == RootEvidence::RolloutLog;
                    assert(prev.1.push(RootEvidence::StateDatabase)[k] == RootEvidence::RolloutLog);
                }
            }
        } else if !is_state_db_name(f.name@) && is_log_name(f.name@) && !prev.1.contains(RootEvidence::RolloutLog) {
            assert(prev.1.push(RootEvidence::RolloutLog)[prev.1.len() as int] == RootEvidence::RolloutLog);
            assert(prev.1.push(RootEvidence::RolloutLog).contains(RootEvidence::StateDatabase) == prev.1.contains(RootEvidence::StateDatabase)) by {
                if prev.1.contains(RootEvidence::StateDatabase) {
                    let k = choose|k: int| 0 <= k < prev.1.len() && prev.1[k] == RootEvidence::StateDatabase;
                    assert(prev.1.push(RootEvidence::RolloutLog)[k] == RootEvidence::StateDatabase);
                }
            }
        }
    }
}

/// Inspects a folder's listing: its score (out of 9) and evidence, and the
/// newest time among what counted, where the score is at least 3.
pub fn inspect_listing(listing: &RootListing) -> (r: Option<(u16, Vec<RootEvidence>, Timestamp)>)
    ensures
        match spec_inspect(*listing, Timestamp::spec_at(0, 0)) {
            Some(st) => r matches Some(x) && x.0 as int == st.0 && x.1@ == st.1 && x.2 == st.2,
            None => r is None,
        },
{
    let ghost epoch = Timestamp::spec_at(0, 0);
    let mut score: u16 = 0;
    let mut evidence: Vec<RootEvidence> = Vec::new();
    let mut newest = Timestamp::unix_epoch();
    if let Some(t) = listing.sessions {
        score = score + 2;
        evidence.push(RootEvidence::Sessions);
        newest = later_of(newest, t);
    }
    if let Some(t) = listing.models_cache {
        score = score + 2;
        evidence.push(RootEvidence::ModelsCache);
        newest = later_of(newest, t);
    }
    if let Some(t) = listing.auth {
        score = score + 1;
        evidence.push(RootEvidence::Auth);
        newest = later_of(newest, t);
    }
    let ghost fixed = fixed_step(*listing, epoch);
    assert(score as int == fixed.0 && evidence@ == fixed.1 && newest == fixed.2);
    assert(!fixed.1.contains(RootEvidence::StateDatabase));
    assert(!fixed.1.contains(RootEvidence::RolloutLog));
    let mut has_state = false;
    let mut has_log = false;
    let files = &listing.files;
    let mut i: usize = 0;
    while i < files.len()
        invariant
            i <= files.len(),
            files == &listing.files,
            fixed == fixed_step(*listing, epoch),
            0 <= fixed.0 <= 5,
            !fixed.1.contains(RootEvidence::StateDatabase),
            !fixed.1.contains(RootEvidence::RolloutLog),
            (score as int, evidence@, newest) == files_step(fixed, files@.take(i as int)),
            has_state == evidence@.contains(RootEvidence::StateDatabase),
            has_log == evidence@.contains(RootEvidence::RolloutLog),
        decreases files.len() - i,
    {
        let ghost before = files@.take(i as int);
        assert(files@.take(i + 1).drop_last() =~= before);
        proof {
            lemma_files_step_bounds(fixed, before);
        }
        let name = lower_chars(&to_chars(files[i].name.as_str()));
        let state_db = starts_with(&name, "state_") && (ends_with(&name, ".sqlite") || ends_with(
            &name,
            ".db",
        ));
        let log = ends_with(&name, ".jsonl");
        let ghost ev = evidence@;
        if state_db {
            if !has_state {
                score = score + 3;
                evidence.push(RootEvidence::StateDatabase);
                has_state = true;
                assert(evidence@.contains(RootEvidence::StateDatabase)) by {
                    assert(evidence@[evidence@.len() - 1] == RootEvidence::StateDatabase);
                }
                assert(evidence@.contains(RootEvidence::RolloutLog) == ev.contains(RootEvidence::RolloutLog)) by {
                    if ev.contains(RootEvidence::RolloutLog) {
                        let k = choose|k: int| 0 <= k < ev.len() && ev[k] == RootEvidence::RolloutLog;
                        assert(evidence@[k] == RootEvidence::RolloutLog);
                    }
                }
            }
            newest = later_of(newest, files[i].modified);
        } else if log {
            if !has_log {
                score = score + 1;
                evidence.push(RootEvidence::RolloutLog);
                has_log = true;
                assert(evidence@.contains(RootEvidence::RolloutLog)) by {
                    assert(evidence@[evidence@.len() - 1] == RootEvidence::RolloutLog);
                }
                assert(evidence@.contains(RootEvidence::StateDatabase) == ev.contains(RootEvidence::StateDatabase)) by {
                    if ev.contains(RootEvidence::StateDatabase) {
                        let k = choose|k: int| 0 <= k < ev.len() && ev[k] == RootEvidence::StateDatabase;
                        assert(evidence@[k] == RootEvidence::StateDatabase);
                    }
                }
            }
            newest = later_of(newest, files[i].modified);
        }
        i = i + 1;
    }
    assert(files@.take(files.len() as int) =~= files@);
    if score >= 3 {
        Some((score, evidence, newest))
    } else {
        None
    }
}

/// A folder that the walk found to look like the client's data: its path as
/// walked, its canonical path, and its inspection.
#[derive(Clone, Debug)]
pub struct ObservedRoot {
    pub path: String,
    pub key: String,
    pub score: u16,
    pub evidence: Vec<RootEvidence>,
    pub newest: Timestamp,
}

/// A candidate kept per canonical path while ranking.
#[derive(Clone, Debug)]
pub struct FoundRoot {
    pub key: String,
    pub candidate: DataRootCandidate,
    pub explicit: bool,
    pub newest: Timestamp,
}

/// Canonical path, path, score, evidence, whether it is `CODEX_HOME`, newest time.
pub type FoundView = (Seq<char>, Seq<char>, u16, Seq<RootEvidence>, bool, Timestamp);

/// Path, score and evidence of a candidate.
pub type CandidateView = (Seq<char>, u16, Seq<RootEvidence>);

pub open spec fn candidate_view(c: DataRootCandidate) -> CandidateView {
    (c.path@, c.score, c.evidence@)
}

pub open spec fn found_view(f: FoundRoot) -> FoundView {
    (f.key@, f.candidate.path@, f.candidate.score, f.candidate.evidence@, f.explicit, f.newest)
}

/// The last place in `entries` with the canonical path `key`, or -1.
pub open spec fn key_position(entries: Seq<FoundView>, key: Seq<char>) -> int
    decreases entries.len(),
{
    if entries.len() == 0 {
        -1
    } else if entries.last().0 == key {
        entries.len() - 1
    } else {
        key_position(entries.drop_last(), key)
    }
}

proof fn lemma_key_position(entries: Seq<FoundView>, key: Seq<char>)
    ensures
        -1 <= key_position(entries, key) < entries.len(),
        key_position(entries, key) >= 0 ==> entries[key_position(entries, key)].0 == key,
    decreases entries.len(),
{
    if entries.len() > 0 {
        lemma_key_position(entries.drop_last(), key);
    }
}

/// The kept candidates after one more observed folder: a new canonical path
/// is added; for a known one the observation replaces the kept candidate
/// where it is `CODEX_HOME` or scores higher, and the path stays `CODEX_HOME`
/// once it was seen as such.
pub open spec fn merge_step(entries: Seq<FoundView>, o: ObservedRoot, explicit: Option<Seq<char>>) -> Seq<FoundView> {
    let is_explicit = explicit == Some(o.key@);
    let i = key_position(entries, o.key@);
    if i >= 0 {
        let cur = entries[i];
        if is_explicit || o.score > cur.2 {
            entries.update(i, (o.key@, o.path@, o.score, o.evidence@, cur.4 || is_explicit, o.newest))
        } else {
            entries
        }
    } else {
        entries.push((o.key@, o.path@, o.score, o.evidence@, is_explicit, o.newest))
    }
}

/// The kept candidates after the observed folders, taken in walk order.
pub open spec fn merge_all(obs: Seq<ObservedRoot>, explicit: Option<Seq<char>>) -> Seq<FoundView>
    decreases obs.len(),
{
    if obs.len() == 0 {
        Seq::empty()
    } else {
        merge_step(merge_all(obs.drop_last(), explicit), obs.last(), explicit)
    }
}

/// The ranking key of a kept candidate: `CODEX_HOME` first, then by score,
/// then by newest time.
pub open spec fn rank_key(e: FoundView) -> SortKey {
    SortKey(if e.4 { 1 } else { 0 }, e.2 as i64, e.5.spec_secs() as i64, e.5.spec_nanos() as i64)
}

/// The candidates in ranked order.
pub open spec fn ranked(obs: Seq<ObservedRoot>, explicit: Option<Seq<char>>) -> Seq<CandidateView> {
    let entries = merge_all(obs, explicit);
    sorted_desc(entries.map_values(|e: FoundView| (rank_key(e), (e.1, e.2, e.3)))).map_values(
        |p: (SortKey, CandidateView)| p.1,
    )
}

fn same_text(a: &String, b: &String) -> (r: bool)
    ensures
        r == (a@ == b@),
{
    str_eq(a.as_str(), b.as_str())
}

/// Ranks the folders that the walk found, one candidate per canonical path:
/// `CODEX_HOME` (whose canonical path is `explicit`) first, then by score,
/// then by newest time; candidates that tie keep their order of discovery.
pub fn rank_roots(explicit: Option<String>, observed: Vec<ObservedRoot>) -> (r: Vec<DataRootCandidate>)
    ensures
        r@.map_values(|c: DataRootCandidate| candidate_view(c)) == ranked(observed@, opt_view(explicit)),
{
    let ghost ex = opt_view(explicit);
    let ghost all = observed@;
    let mut entries: Vec<FoundRoot> = Vec::new();
    for o in it: observed
        invariant
            it.seq() == all,
            ex == opt_view(explicit),
            entries@.map_values(|f: FoundRoot| found_view(f)) == merge_all(all.take(it.index() as int), ex),
    {
        let ghost i = it.index() as int;
        assert(all.take(i + 1).drop_last() =~= all.take(i));
        assert(all.take(i + 1).last() == o);
        let ghost views = entries@.map_values(|f: FoundRoot| found_view(f));
        let is_explicit = match &explicit {
            Some(k) => same_text(k, &o.key),
            None => false,
        };
        let mut pos = entries.len();
        let mut found = false;
        assert(views.take(pos as int) =~= views);
        while pos > 0 && !found
            invariant
                pos <= entries.len(),
                views == entries@.map_values(|f: FoundRoot| found_view(f)),
                found ==> pos < entries.len() && key_position(views, o.key@) == pos as int,
                !found ==> key_position(views, o.key@) == key_position(views.take(pos as int), o.key@),
            decreases pos + (if found { 0int } else { 1int }),
        {
            let ghost t = views.take(pos as int);
            assert(t.drop_last() =~= views.take(pos - 1));
            if same_text(&entries[pos - 1].key, &o.key) {
                found = true;
                pos = pos - 1;
            } else {
                pos = pos - 1;
            }
        }
        proof {
            if !found {
                assert(views.take(0) =~= Seq::<FoundView>::empty());
            }
            lemma_key_position(views, o.key@);
        }
        if found {
            let replace = is_explicit || o.score > entries[pos].candidate.score;
            if replace {
                let was_explicit = entries[pos].explicit;
                let entry = FoundRoot {
                    key: o.key,
                    candidate: DataRootCandidate { path: o.path, score: o.score, evidence: o.evidence },
                    explicit: was_explicit || is_explicit,
                    newest: o.newest,
                };
                entries.set(pos, entry);
                assert(entries@.map_values(|f: FoundRoot| found_view(f)) =~= merge_step(views, all[i], ex));
            }
        } else {
            let entry = FoundRoot {
                key: o.key,
                candidate: DataRootCandidate { path: o.path, score: o.score, evidence: o.evidence },
                explicit: is_explicit,
                newest: o.newest,
            };
            entries.push(entry);
            assert(entries@.map_values(|f: FoundRoot| found_view(f)) =~= merge_step(views, all[i], ex));
        }
    }
    assert(all.take(all.len() as int) =~= all);
    let ghost merged = entries@.map_values(|f: FoundRoot| found_view(f));
    let ghost es = entries@;
    let mut keyed: Vec<(SortKey, DataRootCandidate)> = Vec::new();
    for e in it: entries
        invariant
            it.seq() == es,
            map_second(keyed@, |c: DataRootCandidate| candidate_view(c)) == es.take(it.index() as int).map_values(
                |x: FoundRoot| (rank_key(found_view(x)), candidate_view(x.candidate)),
            ),
    {
        let ghost i = it.index() as int;
        assert(es.take(i + 1) =~= es.take(i).push(e));
        let k = SortKey(
            if e.explicit {
                1
            } else {
                0
            },
            e.candidate.score as i64,
            e.newest.secs(),
            e.newest.nanos() as i64,
        );
        let ghost before = keyed@;
        let ghost cv = candidate_view(e.candidate);
        let c = e.candidate;
        assert(candidate_view(c) == cv);
        keyed.push((k, c));
        assert(keyed@ == before.push((k, c)));
        assert(map_second(keyed@, |c: DataRootCandidate| candidate_view(c)) =~= map_second(before, |c: DataRootCandidate| candidate_view(c)).push((k, cv)));
        assert(es.take(i + 1).map_values(|x: FoundRoot| (rank_key(found_view(x)), candidate_view(x.candidate)))
            =~= es.take(i).map_values(|x: FoundRoot| (rank_key(found_view(x)), candidate_view(x.candidate))).push(
            (rank_key(found_view(e)), candidate_view(e.candidate)),
        ));
    }
    assert(es.take(es.len() as int) =~= es);
    assert(map_second(keyed@, |c: DataRootCandidate| candidate_view(c)) =~= merged.map_values(|e: FoundView| (rank_key(e), (e.1, e.2, e.3))));
    let sorted = sort_desc(keyed);
    proof {
        lemma_sorted_desc_map(keyed@, |c: DataRootCandidate| candidate_view(c));
    }
    let ghost ss = sorted@;
    let mut out: Vec<DataRootCandidate> = Vec::new();
    for p in it: sorted
        invariant
            it.seq() == ss,
            out@ == ss.take(it.index() as int).map_values(|q: (SortKey, DataRootCandidate)| q.1),
    {
        let ghost i = it.index() as int;
        assert(ss.take(i + 1) =~= ss.take(i).push(p));
        out.push(p.1);
        assert(out@ =~= ss.take(i + 1).map_values(|q: (SortKey, DataRootCandidate)| q.1));
    }
    assert(ss.take(ss.len() as int) =~= ss);
    assert(out@.map_values(|c: DataRootCandidate| candidate_view(c)) =~= map_second(ss, |c: DataRootCandidate| candidate_view(c)).map_values(
        |p: (SortKey, CandidateView)| p.1,
    ));
    out
}


/// Whether the kept entries have distinct canonical paths, and only an entry
/// whose canonical path is `explicit` is marked as `CODEX_HOME`.
pub open spec fn kept_once(entries: Seq<FoundView>, explicit: Option<Seq<char>>) -> bool {
    &&& forall|i: int, j: int|
        0 <= i < j < entries.len() ==> (#[trigger] entries[i]).0 != (#[trigger] entries[j]).0
    &&& forall|i: int| 0 <= i < entries.len() && (#[trigger] entries[i]).4 ==> explicit == Some(entries[i].0)
}

proof fn lemma_key_position_absent(entries: Seq<FoundView>, key: Seq<char>)
    ensures
        key_position(entries, key) < 0 ==> forall|i: int| 0 <= i < entries.len() ==> (#[trigger] entries[i]).0 != key,
    decreases entries.len(),
{
    if entries.len() > 0 {
        lemma_key_position_absent(entries.drop_last(), key);
        if key_position(entries, key) < 0 {
            assert forall|i: int| 0 <= i < entries.len() implies (#[trigger] entries[i]).0 != key by {
                if i < entries.len() - 1 {
                    assert(entries[i] == entries.drop_last()[i]);
                }
            }
        }
    }
}

/// Ranking keeps one candidate per canonical path, and marks as `CODEX_HOME`
/// exactly the path of `CODEX_HOME` once the walk has met it.
pub proof fn lemma_merge_all_keeps_one_per_path(obs: Seq<ObservedRoot>, explicit: Option<Seq<char>>)
    ensures
        kept_once(merge_all(obs, explicit), explicit),
        (exists|k: int| 0 <= k < obs.len() && Some((#[trigger] obs[k]).key@) == explicit) ==> exists|i: int|
            0 <= i < merge_all(obs, explicit).len() && (#[trigger] merge_all(obs, explicit)[i]).4,
    decreases obs.len(),
{
    if obs.len() > 0 {
        let p = obs.drop_last();
        let o = obs.last();
        lemma_merge_all_keeps_one_per_path(p, explicit);
        let m = merge_all(p, explicit);
        let n = merge_all(obs, explicit);
        assert(n == merge_step(m, o, explicit));
        lemma_key_position(m, o.key@);
        lemma_key_position_absent(m, o.key@);
        let is_explicit = explicit == Some(o.key@);
        let i = key_position(m, o.key@);
        if (exists|k: int| 0 <= k < obs.len() && Some((#[trigger] obs[k]).key@) == explicit) {
            let k = choose|k: int| 0 <= k < obs.len() && Some((#[trigger] obs[k]).key@) == explicit;
            if k < obs.len() - 1 {
                assert(p[k] == obs[k]);
                let w = choose|w: int| 0 <= w < m.len() && (#[trigger] m[w]).4;
                if i >= 0 && i == w {
                    assert(n[w].4);
                } else {
                    assert(n[w] == m[w]);
                }
            } else if i >= 0 {
                assert(n[i].4);
            } else {
                assert(n[m.len() as int].4);
            }
        }
    }
}

/// `CODEX_HOME` ranks first: where the walk met the folder whose canonical
/// path is that of `CODEX_HOME`, the first ranked candidate is the one kept
/// for that path.
pub proof fn lemma_codex_home_ranks_first(obs: Seq<ObservedRoot>, ex: Seq<char>)
    requires
        exists|k: int| 0 <= k < obs.len() && (#[trigger] obs[k]).key@ == ex,
    ensures
        ranked(obs, Some(ex)).len() > 0,
        exists|i: int|
            0 <= i < merge_all(obs, Some(ex)).len() && (#[trigger] merge_all(obs, Some(ex))[i]).0 == ex
                && ranked(obs, Some(ex))[0] == (merge_all(obs, Some(ex))[i].1, merge_all(
                obs,
                Some(ex),
            )[i].2, merge_all(obs, Some(ex))[i].3),
{
    let explicit = Some(ex);
    let k0 = choose|k: int| 0 <= k < obs.len() && (#[trigger] obs[k]).key@ == ex;
    assert(Some(obs[k0].key@) == explicit);
    lemma_merge_all_keeps_one_per_path(obs, explicit);
    let m = merge_all(obs, explicit);
    let w = choose|w: int| 0 <= w < m.len() && (#[trigger] m[w]).4;
    let key = |e: FoundView| rank_key(e);
    let proj = |e: FoundView| (e.1, e.2, e.3);
    let keyed = keyed_by(m, key);
    lemma_keyed_pairs(m, key);
    let sorted = sorted_desc(keyed);
    assert(m.map_values(|e: FoundView| (rank_key(e), (e.1, e.2, e.3))) =~= map_second(keyed, proj));
    lemma_sorted_desc_map(keyed, proj);
    let r = ranked(obs, explicit);
    assert(r =~= map_second(sorted, proj).map_values(|p: (SortKey, CandidateView)| p.1));
    assert(sorted.contains((key(m[w]), m[w])));
    let pw = choose|q: int| 0 <= q < sorted.len() && sorted[q] == (key(m[w]), m[w]);
    assert(sorted.len() > 0);
    if pw > 0 {
        assert(!key_lt(sorted[0].0, sorted[pw].0));
    }
    let top = sorted[0].1;
    assert(sorted[0].0 == rank_key(top));
    assert(top.4);
    assert(m.contains(top));
    let j = choose|j: int| 0 <= j < m.len() && m[j] == top;
    assert(m[j].0 == ex);
    assert(r[0] == proj(top));
}


impl DiscoveryInputs {
    /// The inputs made of the user's home, `CODEX_HOME` (where set and not
    /// empty) and the platform folders that exist, in `Path` order without repeats.
    pub fn from_parts(home: String, codex_home: Option<String>, existing_system_folders: Vec<String>) -> (r: Self)
        ensures
            r.home == home,
            match codex_home {
                Some(c) => if c@.len() == 0 {
                    r.codex_home is None
                } else {
                    r.codex_home == Some(c)
                },
                None => r.codex_home is None,
            },
            r.system_roots@.map_values(|p: String| p@) == deduped_paths(
                sorted_paths(existing_system_folders@.map_values(|p: String| p@)),
            ),
            no_neighbour_repeats(r.system_roots@.map_values(|p: String| p@)),
    {
        let codex_home = match codex_home {
            Some(c) => if c.as_str().is_empty() {
                None
            } else {
                Some(c)
            },
            None => None,
        };
        DiscoveryInputs { home, codex_home, system_roots: dedup_paths(sort_paths(existing_system_folders)) }
    }
}

/// The folders that discovery walks and how deep below each: `CODEX_HOME`
/// itself only, the home two levels down, each platform folder four levels down.
pub open spec fn spec_walk_plan(inputs: DiscoveryInputs) -> Seq<(Seq<char>, usize)> {
    let first: Seq<(Seq<char>, usize)> = match inputs.codex_home {
        Some(c) => seq![(c@, 0usize)],
        None => Seq::empty(),
    };
    first.push((inputs.home@, 2usize)) + inputs.system_roots@.map_values(|p: String| (p@, 4usize))
}

/// The folders that discovery walks, in order, each with the depth of the walk.
pub fn walk_plan(inputs: &DiscoveryInputs) -> (r: Vec<(String, usize)>)
    ensures
        r@.map_values(|e: (String, usize)| (e.0@, e.1)) == spec_walk_plan(*inputs),
{
    let mut plan: Vec<(String, usize)> = Vec::new();
    match &inputs.codex_home {
        Some(c) => plan.push((owned(c.as_str()), 0)),
        None => {},
    }
    plan.push((owned(inputs.home.as_str()), 2));
    let ghost base = plan@.map_values(|e: (String, usize)| (e.0@, e.1));
    let mut i: usize = 0;
    while i < inputs.system_roots.len()
        invariant
            i <= inputs.system_roots.len(),
            plan@.map_values(|e: (String, usize)| (e.0@, e.1)) == base + inputs.system_roots@.take(i as int).map_values(
                |p: String| (p@, 4usize),
            ),
        decreases inputs.system_roots.len() - i,
    {
        let ghost before = plan@.map_values(|e: (String, usize)| (e.0@, e.1));
        plan.push((owned(inputs.system_roots[i].as_str()), 4));
        assert(plan@.map_values(|e: (String, usize)| (e.0@, e.1)) =~= before.push((inputs.system_roots@[i as int]@, 4usize)));
        assert(inputs.system_roots@.take(i + 1).map_values(|p: String| (p@, 4usize)) =~= inputs.system_roots@.take(
            i as int,
        ).map_values(|p: String| (p@, 4usize)).push((inputs.system_roots@[i as int]@, 4usize)));
        i = i + 1;
    }
    assert(inputs.system_roots@.take(inputs.system_roots@.len() as int) =~= inputs.system_roots@);
    assert(plan@.map_values(|e: (String, usize)| (e.0@, e.1)) =~= spec_walk_plan(*inputs));
    plan
}


/// Whether a file name, in any ASCII case, starts with `state_` and ends with
/// `.sqlite` or `.db`: the name of a state database.
pub open spec fn names_state_database(name: Seq<char>) -> bool {
    has_prefix(ascii_lower(name), "state_"@) && (has_suffix(ascii_lower(name), ".sqlite"@) || has_suffix(
        ascii_lower(name),
        ".db"@,
    ))
}

/// Whether a file name, in any ASCII case, ends with `.jsonl` and does not
/// name a state database: the name of a rollout log.
pub open spec fn names_rollout_log(name: Seq<char>) -> bool {
    !names_state_database(name) && has_suffix(ascii_lower(name), ".jsonl"@)
}

proof fn lemma_push_keeps_contains(s: Seq<RootEvidence>, x: RootEvidence, y: RootEvidence)
    ensures
        s.push(x).contains(y) == (s.contains(y) || x == y),
{
    if s.contains(y) {
        let k = choose|k: int| 0 <= k < s.len() && s[k] == y;
        assert(s.push(x)[k] == y);
    }
    if x == y {
        assert(s.push(x)[s.len() as int] == y);
    }
    if s.push(x).contains(y) {
        let k = choose|k: int| 0 <= k < s.push(x).len() && s.push(x)[k] == y;
        if k < s.len() {
            assert(s[k] == y);
        }
    }
}

proof fn lemma_files_evidence(st: Inspection, files: Seq<ListedFile>)
    requires
        !st.1.contains(RootEvidence::StateDatabase),
        !st.1.contains(RootEvidence::RolloutLog),
    ensures
        files_step(st, files).1.contains(RootEvidence::StateDatabase) <==> exists|k: int|
            0 <= k < files.len() && names_state_database((#[trigger] files[k]).name@),
        files_step(st, files).1.contains(RootEvidence::RolloutLog) <==> exists|k: int|
            0 <= k < files.len() && names_rollout_log((#[trigger] files[k]).name@),
    decreases files.len(),
{
    if files.len() > 0 {
        let p = files.drop_last();
        lemma_files_evidence(st, p);
        let prev = files_step(st, p);
        let f = files.last();
        lemma_push_keeps_contains(prev.1, RootEvidence::StateDatabase, RootEvidence::RolloutLog);
        lemma_push_keeps_contains(prev.1, RootEvidence::StateDatabase, RootEvidence::StateDatabase);
        lemma_push_keeps_contains(prev.1, RootEvidence::RolloutLog, RootEvidence::StateDatabase);
        lemma_push_keeps_contains(prev.1, RootEvidence::RolloutLog, RootEvidence::RolloutLog);
        assert(files[files.len() - 1] == f);
        assert forall|k: int| 0 <= k < p.len() implies #[trigger] files[k] == p[k] by {}
        if (exists|k: int| 0 <= k < p.len() && names_state_database((#[trigger] p[k]).name@)) {
            let k = choose|k: int| 0 <= k < p.len() && names_state_database((#[trigger] p[k]).name@);
            assert(files[k] == p[k]);
        }
        if (exists|k: int| 0 <= k < p.len() && names_rollout_log((#[trigger] p[k]).name@)) {
            let k = choose|k: int| 0 <= k < p.len() && names_rollout_log((#[trigger] p[k]).name@);
            assert(files[k] == p[k]);
        }
        if (exists|k: int| 0 <= k < files.len() && names_state_database((#[trigger] files[k]).name@)) {
            let k = choose|k: int| 0 <= k < files.len() && names_state_database((#[trigger] files[k]).name@);
            if k < p.len() {
                assert(files[k] == p[k]);
            }
        }
        if (exists|k: int| 0 <= k < files.len() && names_rollout_log((#[trigger] files[k]).name@)) {
            let k = choose|k: int| 0 <= k < files.len() && names_rollout_log((#[trigger] files[k]).name@);
            if k < p.len() {
                assert(files[k] == p[k]);
            }
        }
    }
}

/// How a folder is scored: `sessions` counts 2, `models_cache.json` 2,
/// `auth.json` 1, a state database (`state_…` ending in `.sqlite` or `.db`, in
/// any case) 3 and a rollout log (`….jsonl`) 1, each kind once; the folder is
/// taken where the score is at least 3, with evidence of a state database
/// exactly where it holds one and of a rollout log exactly where it holds one.
pub proof fn lemma_inspection_scores_structure(l: RootListing, epoch: Timestamp)
    ensures
        ({
            let db = exists|k: int| 0 <= k < l.files@.len() && names_state_database((#[trigger] l.files@[k]).name@);
            let log = exists|k: int| 0 <= k < l.files@.len() && names_rollout_log((#[trigger] l.files@[k]).name@);
            let score = (if l.sessions is Some { 2int } else { 0int }) + (if l.models_cache is Some { 2int } else { 0int })
                + (if l.auth is Some { 1int } else { 0int }) + (if db { 3int } else { 0int }) + (if log { 1int } else { 0int });
            &&& spec_inspect(l, epoch) is Some <==> score >= 3
            &&& spec_inspect(l, epoch) matches Some(st) ==> {
                &&& st.0 == score
                &&& st.1.contains(RootEvidence::StateDatabase) == db
                &&& st.1.contains(RootEvidence::RolloutLog) == log
            }
        }),
{
    let f = fixed_step(l, epoch);
    let e0: Seq<RootEvidence> = Seq::empty();
    let e1 = match l.sessions {
        Some(_) => e0.push(RootEvidence::Sessions),
        None => e0,
    };
    let e2 = match l.models_cache {
        Some(_) => e1.push(RootEvidence::ModelsCache),
        None => e1,
    };
    lemma_push_keeps_contains(e0, RootEvidence::Sessions, RootEvidence::StateDatabase);
    lemma_push_keeps_contains(e0, RootEvidence::Sessions, RootEvidence::RolloutLog);
    lemma_push_keeps_contains(e1, RootEvidence::ModelsCache, RootEvidence::StateDatabase);
    lemma_push_keeps_contains(e1, RootEvidence::ModelsCache, RootEvidence::RolloutLog);
    lemma_push_keeps_contains(e2, RootEvidence::Auth, RootEvidence::StateDatabase);
    lemma_push_keeps_contains(e2, RootEvidence::Auth, RootEvidence::RolloutLog);
    assert(!f.1.contains(RootEvidence::StateDatabase));
    assert(!f.1.contains(RootEvidence::RolloutLog));
    assert(0 <= f.0 <= 5);
    lemma_files_evidence(f, l.files@);
    lemma_files_step_bounds(f, l.files@);
}

} // verus!
