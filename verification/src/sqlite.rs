//! The client's state databases: which files they are, which table and
//! columns to read, the read-only query, and what its rows tell.

use vstd::prelude::*;
use crate::candidate::{
    kept_or_stamped, lemma_kept_or_stamped_trans, lemma_offered_all_keeps_newest, offered_all, newest_of, offer, offer_text, seen_text,
    set_newest, AdapterResult, DiagnosticIssue, FieldCandidate, Seen,
};
use crate::diagnostics::{trim, trimmed};
use crate::discovery::ListedFile;
use crate::order::{lemma_sorted_desc_map, map_second, sort_desc, sorted_desc, SortKey};
use crate::text::{
    ascii_lower, ends_with, has_prefix, has_suffix, lower_chars, opt_view, owned, push_char,
    push_text, starts_with, str_eq, to_chars,
};
use crate::time::{utc_representable, Timestamp};

verus! {

broadcast use {Timestamp::lemma_at_parts, Timestamp::lemma_parts_of_at};

/// The newest model, reasoning effort and client version that the state
/// databases hold, and the rollout log paths that they name.
#[derive(Clone, Debug)]
pub struct ThreadCandidates {
    pub model: Option<FieldCandidate<String>>,
    pub reasoning_effort: Option<FieldCandidate<String>>,
    pub client_version: Option<FieldCandidate<String>>,
    pub rollout_paths: Vec<FieldCandidate<String>>,
}

impl ThreadCandidates {
    /// No value and no path.
    pub fn new() -> (r: Self)
        ensures
            r.model is None,
            r.reasoning_effort is None,
            r.client_version is None,
            r.rollout_paths@.len() == 0,
    {
        ThreadCandidates { model: None, reasoning_effort: None, client_version: None, rollout_paths: Vec::new() }
    }
}

/// Whether a file name (in any ASCII case) names a state database: `state_…`
/// ending in `.sqlite`, `.sqlite3` or `.db`.
pub open spec fn is_state_database_name(name: Seq<char>) -> bool {
    let n = ascii_lower(name);
    has_prefix(n, "state_"@) && (has_suffix(n, ".sqlite"@) || has_suffix(n, ".sqlite3"@)
        || has_suffix(n, ".db"@))
}

/// Whether a file name (in any ASCII case) names a state database.
pub fn is_state_database(name: &str) -> (r: bool)
    ensures
        r == is_state_database_name(name@),
{
    let n = lower_chars(&to_chars(name));
    starts_with(&n, "state_") && (ends_with(&n, ".sqlite") || ends_with(&n, ".sqlite3") || ends_with(&n, ".db"))
}

/// A directory entry: its path, its file name where that is valid text, and
/// its modification time (the Unix epoch where it cannot be read).
#[derive(Clone, Debug)]
pub struct DirEntry {
    pub path: String,
    pub name: Option<String>,
    pub modified: Timestamp,
}

/// The sort key of a modification time.
pub open spec fn time_key(t: Timestamp) -> SortKey {
    SortKey(t.spec_secs() as i64, t.spec_nanos() as i64, 0, 0)
}

/// Whether the entry names a state database.
pub open spec fn is_database_entry(e: DirEntry) -> bool {
    e.name matches Some(n) && is_state_database_name(n@)
}

/// The state databases among the entries, as (time key, path), in listing order.
pub open spec fn database_entries(entries: Seq<DirEntry>) -> Seq<(SortKey, Seq<char>)>
    decreases entries.len(),
{
    if entries.len() == 0 {
        Seq::empty()
    } else {
        let prev = database_entries(entries.drop_last());
        let e = entries.last();
        if is_database_entry(e) {
            prev.push((time_key(e.modified), e.path@))
        } else {
            prev
        }
    }
}

/// The paths of the state databases among a folder's entries, newest first
/// (entries with equal times in listing order).
pub fn state_databases(entries: Vec<DirEntry>) -> (r: Vec<String>)
    ensures
        r@.map_values(|p: String| p@) == sorted_desc(database_entries(entries@)).map_values(
            |p: (SortKey, Seq<char>)| p.1,
        ),
{
    let ghost all = entries@;
    let mut keyed: Vec<(SortKey, String)> = Vec::new();
    for e in it: entries
        invariant
            it.seq() == all,
            map_second(keyed@, |p: String| p@) == database_entries(all.take(it.index() as int)),
    {
        let ghost i = it.index() as int;
        assert(all.take(i + 1).drop_last() =~= all.take(i));
        assert(all.take(i + 1).last() == e);
        let is_db = match &e.name {
            Some(n) => is_state_database(n.as_str()),
            None => false,
        };
        if is_db {
            let k = SortKey(e.modified.secs(), e.modified.nanos() as i64, 0, 0);
            let ghost before = keyed@;
            let ghost pv = e.path@;
            let p = e.path;
            keyed.push((k, p));
            assert(map_second(keyed@, |p: String| p@) =~= map_second(before, |p: String| p@).push((k, pv)));
        }
    }
    assert(all.take(all.len() as int) =~= all);
    let sorted = sort_desc(keyed);
    proof {
        lemma_sorted_desc_map(keyed@, |p: String| p@);
    }
    let ghost ss = sorted@;
    let mut out: Vec<String> = Vec::new();
    for p in it: sorted
        invariant
            it.seq() == ss,
            out@ == ss.take(it.index() as int).map_values(|q: (SortKey, String)| q.1),
    {
        let ghost i = it.index() as int;
        assert(ss.take(i + 1) =~= ss.take(i).push(p));
        out.push(p.1);
        assert(out@ =~= ss.take(i + 1).map_values(|q: (SortKey, String)| q.1));
    }
    assert(ss.take(ss.len() as int) =~= ss);
    assert(out@.map_values(|p: String| p@) =~= map_second(ss, |p: String| p@).map_values(
        |p: (SortKey, Seq<char>)| p.1,
    ));
    out
}

/// The thread table among the tables: the last one named `threads` in any
/// ASCII case, else the last one named `thread`, else none.
pub open spec fn thread_table_of(names: Seq<String>) -> Option<Seq<char>>
    decreases names.len(),
{
    if names.len() == 0 {
        None
    } else {
        let n = names.last()@;
        let prev = thread_table_of(names.drop_last());
        if ascii_lower(n) == "threads"@ {
            Some(n)
        } else if ascii_lower(n) == "thread"@ {
            match prev {
                Some(p) => if ascii_lower(p) == "threads"@ {
                    prev
                } else {
                    Some(n)
                },
                None => Some(n),
            }
        } else {
            prev
        }
    }
}

/// Whether two character sequences are equal.
fn chars_equal(a: &Vec<char>, b: &str) -> (r: bool)
    ensures
        r == (a@ == b@),
{
    let bc = to_chars(b);
    if a.len() != bc.len() {
        return false;
    }
    let mut i: usize = 0;
    while i < a.len()
        invariant
            bc@ == b@,
            a.len() == bc.len(),
            i <= a.len(),
            forall|k: int| 0 <= k < i ==> a@[k] == bc@[k],
        decreases a.len() - i,
    {
        if a[i] != bc[i] {
            return false;
        }
        i = i + 1;
    }
    assert(a@ =~= bc@);
    true
}

/// Whether the text, in any ASCII case, is the given small-letter word.
fn lower_is(s: &str, word: &str) -> (r: bool)
    ensures
        r == (ascii_lower(s@) == word@),
{
    chars_equal(&lower_chars(&to_chars(s)), word)
}

/// Picks the thread table among the table names.
pub fn thread_table(names: &Vec<String>) -> (r: Option<String>)
    ensures
        opt_view(r) == thread_table_of(names@),
{
    let mut best: Option<String> = None;
    let mut best_is_threads = false;
    let mut i: usize = 0;
    while i < names.len()
        invariant
            i <= names.len(),
            opt_view(best) == thread_table_of(names@.take(i as int)),
            best_is_threads == (best matches Some(b) && ascii_lower(b@) == "threads"@),
        decreases names.len() - i,
    {
        assert(names@.take(i + 1).drop_last() =~= names@.take(i as int));
        let n = names[i].as_str();
        if lower_is(n, "threads") {
            best = Some(owned(n));
            best_is_threads = true;
        } else if lower_is(n, "thread") {
            if !best_is_threads {
                best = Some(owned(n));
            }
        }
        i = i + 1;
    }
    assert(names@.take(names.len() as int) =~= names@);
    best
}

/// The column whose name, in small ASCII letters, is `alias` (the last such
/// column where several are), with its name as the table spells it.
pub open spec fn column_named(columns: Seq<String>, alias: Seq<char>) -> Option<Seq<char>>
    decreases columns.len(),
{
    if columns.len() == 0 {
        None
    } else if ascii_lower(columns.last()@) == alias {
        Some(columns.last()@)
    } else {
        column_named(columns.drop_last(), alias)
    }
}

/// The column for the first alias that the table has.
pub open spec fn select_column_of(columns: Seq<String>, aliases: Seq<Seq<char>>) -> Option<Seq<char>>
    decreases aliases.len(),
{
    if aliases.len() == 0 {
        None
    } else if column_named(columns, aliases[0]) is Some {
        column_named(columns, aliases[0])
    } else {
        select_column_of(columns, aliases.drop_first())
    }
}

fn column_for(columns: &Vec<String>, alias: &str) -> (r: Option<String>)
    ensures
        opt_view(r) == column_named(columns@, alias@),
{
    let mut i = columns.len();
    assert(columns@.take(i as int) =~= columns@);
    while i > 0
        invariant
            i <= columns.len(),
            column_named(columns@, alias@) == column_named(columns@.take(i as int), alias@),
        decreases i,
    {
        assert(columns@.take(i as int).drop_last() =~= columns@.take(i - 1));
        assert(columns@.take(i as int).last() == columns@[i - 1]);
        if lower_is(columns[i - 1].as_str(), alias) {
            return Some(owned(columns[i - 1].as_str()));
        }
        i = i - 1;
    }
    None
}

/// Picks the column for the first alias (given in small letters) that the table has.
pub fn select_column(columns: &Vec<String>, aliases: &Vec<&str>) -> (r: Option<String>)
    ensures
        opt_view(r) == select_column_of(columns@, aliases@.map_values(|a: &str| a@)),
{
    let ghost al = aliases@.map_values(|a: &str| a@);
    let mut i: usize = 0;
    assert(al.skip(0) =~= al);
    while i < aliases.len()
        invariant
            i <= aliases.len(),
            al == aliases@.map_values(|a: &str| a@),
            select_column_of(columns@, al) == select_column_of(columns@, al.skip(i as int)),
        decreases aliases.len() - i,
    {
        let ghost rest = al.skip(i as int);
        assert(rest[0] == aliases@[i as int]@);
        assert(rest.drop_first() =~= al.skip(i + 1));
        let c = column_for(columns, aliases[i]);
        if c.is_some() {
            return c;
        }
        i = i + 1;
    }
    assert(al.skip(i as int).len() == 0);
    None
}

/// The identifier with every double quote doubled.
pub open spec fn doubled_quotes(s: Seq<char>) -> Seq<char>
    decreases s.len(),
{
    if s.len() == 0 {
        Seq::empty()
    } else if s.last() == '"' {
        doubled_quotes(s.drop_last()) + seq!['"', '"']
    } else {
        doubled_quotes(s.drop_last()).push(s.last())
    }
}

/// The identifier quoted for SQL: in double quotes, inner double quotes doubled.
pub open spec fn quoted(s: Seq<char>) -> Seq<char> {
    seq!['"'] + doubled_quotes(s) + seq!['"']
}

/// Quotes an identifier for SQL.
pub fn quote_identifier(value: &str) -> (r: String)
    ensures
        r@ == quoted(value@),
{
    let chars = to_chars(value);
    let mut out = String::new();
    push_char(&mut out, '"');
    let mut i: usize = 0;
    while i < chars.len()
        invariant
            i <= chars.len(),
            chars@ == value@,
            out@ == seq!['"'] + doubled_quotes(chars@.take(i as int)),
        decreases chars.len() - i,
    {
        assert(chars@.take(i + 1).drop_last() =~= chars@.take(i as int));
        assert(chars@.take(i + 1).last() == chars@[i as int]);
        let c = chars[i];
        if c == '"' {
            push_char(&mut out, '"');
            push_char(&mut out, '"');
            assert(out@ =~= seq!['"'] + doubled_quotes(chars@.take(i + 1)));
        } else {
            push_char(&mut out, c);
            assert(out@ =~= seq!['"'] + doubled_quotes(chars@.take(i + 1)));
        }
        i = i + 1;
    }
    assert(chars@.take(chars.len() as int) =~= chars@);
    push_char(&mut out, '"');
    assert(out@ =~= quoted(value@));
    out
}

/// What a query selects for a column: the quoted column, or NULL where the
/// table lacks it.
pub open spec fn column_expression(column: Option<Seq<char>>) -> Seq<char> {
    match column {
        Some(c) => quoted(c),
        None => "NULL"@,
    }
}

/// What the query selects for a column.
pub fn expression(column: &Option<String>) -> (r: String)
    ensures
        r@ == column_expression(opt_view(*column)),
{
    match column {
        Some(c) => quote_identifier(c.as_str()),
        None => owned("NULL"),
    }
}

/// The aliases of each column that is read, in order of preference.
pub open spec fn model_aliases() -> Seq<Seq<char>> {
    seq!["model"@, "model_slug"@]
}

pub open spec fn effort_aliases() -> Seq<Seq<char>> {
    seq!["reasoning_effort"@, "effort"@]
}

pub open spec fn version_aliases() -> Seq<Seq<char>> {
    seq!["cli_version"@, "app_version"@, "client_version"@]
}

pub open spec fn rollout_aliases() -> Seq<Seq<char>> {
    seq!["rollout_path"@, "log_path"@]
}

pub open spec fn updated_aliases() -> Seq<Seq<char>> {
    seq!["updated_at_ms"@, "updated_at"@, "modified_at_ms"@]
}

/// The read-only query for a thread table with the given columns: the model,
/// effort, version, rollout path and update time (NULL where missing), newest
/// first where there is an update time, at most 32 rows; or the issue code
/// where the table has none of the model, effort, version and rollout path.
pub open spec fn spec_thread_query(table: Seq<char>, columns: Seq<String>) -> Result<Seq<char>, Seq<char>> {
    let m = select_column_of(columns, model_aliases());
    let e = select_column_of(columns, effort_aliases());
    let v = select_column_of(columns, version_aliases());
    let r = select_column_of(columns, rollout_aliases());
    let u = select_column_of(columns, updated_aliases());
    if m is None && e is None && v is None && r is None {
        Err("sqlite-supported-columns-missing"@)
    } else {
        let order = match u {
            Some(c) => " ORDER BY "@ + quoted(c) + " DESC"@,
            None => Seq::empty(),
        };
        Ok("SELECT "@ + column_expression(m) + ", "@ + column_expression(e) + ", "@
            + column_expression(v) + ", "@ + column_expression(r) + ", "@ + column_expression(u)
            + " FROM "@ + quoted(table) + order + " LIMIT 32"@)
    }
}

/// Builds the read-only query for a thread table with the given columns.
pub fn thread_query(table: &str, columns: &Vec<String>) -> (r: Result<String, &'static str>)
    ensures
        match spec_thread_query(table@, columns@) {
            Ok(q) => r matches Ok(x) && x@ == q,
            Err(code) => r matches Err(x) && x@ == code,
        },
{
    let model = select_column(columns, &vec!["model", "model_slug"]);
    let effort = select_column(columns, &vec!["reasoning_effort", "effort"]);
    let version = select_column(columns, &vec!["cli_version", "app_version", "client_version"]);
    let rollout = select_column(columns, &vec!["rollout_path", "log_path"]);
    let updated = select_column(columns, &vec!["updated_at_ms", "updated_at", "modified_at_ms"]);
    proof {
        assert(seq!["model", "model_slug"].map_values(|a: &str| a@) =~= model_aliases());
        assert(seq!["reasoning_effort", "effort"].map_values(|a: &str| a@) =~= effort_aliases());
        assert(seq!["cli_version", "app_version", "client_version"].map_values(|a: &str| a@)
            =~= version_aliases());
        assert(seq!["rollout_path", "log_path"].map_values(|a: &str| a@) =~= rollout_aliases());
        assert(seq!["updated_at_ms", "updated_at", "modified_at_ms"].map_values(|a: &str| a@)
            =~= updated_aliases());
    }
    if model.is_none() && effort.is_none() && version.is_none() && rollout.is_none() {
        return Err("sqlite-supported-columns-missing");
    }
    let mut sql = owned("SELECT ");
    push_text(&mut sql, expression(&model).as_str());
    push_text(&mut sql, ", ");
    push_text(&mut sql, expression(&effort).as_str());
    push_text(&mut sql, ", ");
    push_text(&mut sql, expression(&version).as_str());
    push_text(&mut sql, ", ");
    push_text(&mut sql, expression(&rollout).as_str());
    push_text(&mut sql, ", ");
    push_text(&mut sql, expression(&updated).as_str());
    push_text(&mut sql, " FROM ");
    push_text(&mut sql, quote_identifier(table).as_str());
    let ghost before_order = sql@;
    match &updated {
        Some(c) => {
            push_text(&mut sql, " ORDER BY ");
            push_text(&mut sql, quote_identifier(c.as_str()).as_str());
            push_text(&mut sql, " DESC");
        },
        None => {},
    }
    push_text(&mut sql, " LIMIT 32");
    Ok(sql)
}

/// The instant that a stored time names: milliseconds where its size is at
/// least ten billion, else seconds; none where chrono cannot represent it.
pub open spec fn spec_epoch_time(value: int) -> Option<Timestamp> {
    if value <= -10_000_000_000 || value >= 10_000_000_000 {
        Timestamp::spec_from_unix_millis(value)
    } else if utc_representable(value, 0) {
        Some(Timestamp::spec_at(value, 0))
    } else {
        None
    }
}

/// The instant that a stored time names.
pub fn epoch_time(value: i64) -> (r: Option<Timestamp>)
    ensures
        r == spec_epoch_time(value as int),
{
    if value <= -10_000_000_000 || value >= 10_000_000_000 {
        Timestamp::from_unix_millis(value)
    } else {
        Timestamp::from_unix(value, 0)
    }
}

/// One row of the thread query: model, effort, version, rollout path and update time.
#[derive(Clone, Debug)]
pub struct ThreadRow {
    pub model: Option<String>,
    pub effort: Option<String>,
    pub version: Option<String>,
    pub rollout_path: Option<String>,
    pub updated: Option<i64>,
}

/// When a row was observed: its update time where it names an instant, else
/// the database file's time.
pub open spec fn row_time(row: ThreadRow, file_time: Timestamp) -> Timestamp {
    match row.updated {
        Some(v) => match spec_epoch_time(v as int) {
            Some(t) => t,
            None => file_time,
        },
        None => file_time,
    }
}

/// Whether a model name is the automatic review model, which is not shown.
pub open spec fn is_review_model(name: Seq<char>) -> bool {
    ascii_lower(trimmed(name)) == "codex-auto-review"@
}

/// What the rows have shown so far: model, effort, version, rollout paths.
pub struct ThreadSeen {
    pub model: Seen,
    pub effort: Seen,
    pub version: Seen,
    pub paths: Seq<(Seq<char>, Timestamp)>,
}

/// What one row changes: its model (unless it is the review model), effort
/// and version where newer, and its rollout path appended.
pub open spec fn row_step(s: ThreadSeen, row: ThreadRow, file_time: Timestamp) -> ThreadSeen {
    let t = row_time(row, file_time);
    ThreadSeen {
        model: match row.model {
            Some(m) => if is_review_model(m@) {
                s.model
            } else {
                offer(s.model, Some(m@), t)
            },
            None => s.model,
        },
        effort: offer(s.effort, opt_view(row.effort), t),
        version: offer(s.version, opt_view(row.version), t),
        paths: match row.rollout_path {
            Some(p) => s.paths.push((p@, t)),
            None => s.paths,
        },
    }
}

/// What the rows change, taken in order, from nothing.
pub open spec fn rows_seen(rows: Seq<ThreadRow>, file_time: Timestamp) -> ThreadSeen
    decreases rows.len(),
{
    if rows.len() == 0 {
        ThreadSeen { model: None, effort: None, version: None, paths: Seq::empty() }
    } else {
        row_step(rows_seen(rows.drop_last(), file_time), rows.last(), file_time)
    }
}

/// What the candidates show.
pub open spec fn thread_seen(c: ThreadCandidates) -> ThreadSeen {
    ThreadSeen {
        model: seen_text(c.model),
        effort: seen_text(c.reasoning_effort),
        version: seen_text(c.client_version),
        paths: c.rollout_paths@.map_values(|p: FieldCandidate<String>| (p.value@, p.observed_at)),
    }
}

/// Whether the candidates all come from the state database with its confidences.
pub open spec fn from_state_db(c: ThreadCandidates) -> bool {
    &&& kept_or_stamped(c.model, None, "sqlite"@, 860)
    &&& kept_or_stamped(c.reasoning_effort, None, "sqlite"@, 860)
    &&& kept_or_stamped(c.client_version, None, "sqlite"@, 860)
    &&& forall|i: int| 0 <= i < c.rollout_paths@.len() ==> (#[trigger] c.rollout_paths@[i]).source@
        == "sqlite"@ && c.rollout_paths@[i].confidence == 700
}

/// Whether a model name, without surrounding white space and in any ASCII
/// case, is the automatic review model.
fn review_model(name: &str) -> (r: bool)
    ensures
        r == is_review_model(name@),
{
    lower_is(trim(name).as_str(), "codex-auto-review")
}

/// What the rows of one state database tell, observed at their update time
/// or else at the file's time.
pub fn thread_candidates_from_rows(rows: Vec<ThreadRow>, file_time: Timestamp) -> (r: ThreadCandidates)
    ensures
        thread_seen(r) == rows_seen(rows@, file_time),
        from_state_db(r),
{
    let ghost all = rows@;
    let mut out = ThreadCandidates::new();
    assert(thread_seen(out).paths =~= Seq::<(Seq<char>, Timestamp)>::empty());
    for row in it: rows
        invariant
            it.seq() == all,
            thread_seen(out) == rows_seen(all.take(it.index() as int), file_time),
            from_state_db(out),
    {
        let ghost i = it.index() as int;
        assert(all.take(i + 1).drop_last() =~= all.take(i));
        assert(all.take(i + 1).last() == row);
        let ghost before = out;
        let observed_at = match row.updated {
            Some(v) => match epoch_time(v) {
                Some(t) => t,
                None => file_time,
            },
            None => file_time,
        };
        let ThreadRow { model, effort, version, rollout_path, updated: _ } = row;
        let model = match model {
            Some(m) => if review_model(m.as_str()) {
                None
            } else {
                Some(m)
            },
            None => None,
        };
        offer_text(&mut out.model, model, "sqlite", observed_at, 860);
        offer_text(&mut out.reasoning_effort, effort, "sqlite", observed_at, 860);
        offer_text(&mut out.client_version, version, "sqlite", observed_at, 860);
        proof {
            lemma_kept_or_stamped_trans(None, before.model, out.model, "sqlite"@, 860);
            lemma_kept_or_stamped_trans(None, before.reasoning_effort, out.reasoning_effort, "sqlite"@, 860);
            lemma_kept_or_stamped_trans(None, before.client_version, out.client_version, "sqlite"@, 860);
        }
        if let Some(p) = rollout_path {
            let ghost pv = p@;
            let c = FieldCandidate::new(p, "sqlite", observed_at, 700);
            proof {
                reveal_strlit("sqlite");
            }
            out.rollout_paths.push(c);
            assert(thread_seen(out).paths =~= thread_seen(before).paths.push((pv, observed_at)));
        }
        assert(thread_seen(out) == rows_seen(all.take(i + 1), file_time));
    }
    assert(all.take(all.len() as int) =~= all);
    out
}

/// Whether `new` is `old` with `source` merged in: each value where newer,
/// the rollout paths appended.
pub open spec fn merged_threads(new: ThreadCandidates, old: ThreadCandidates, source: ThreadCandidates) -> bool {
    &&& new.model == match source.model {
        Some(v) => newest_of(old.model, v),
        None => old.model,
    }
    &&& new.reasoning_effort == match source.reasoning_effort {
        Some(v) => newest_of(old.reasoning_effort, v),
        None => old.reasoning_effort,
    }
    &&& new.client_version == match source.client_version {
        Some(v) => newest_of(old.client_version, v),
        None => old.client_version,
    }
    &&& new.rollout_paths@ == old.rollout_paths@ + source.rollout_paths@
}

/// Merges what another state database tells into `target`.
pub fn merge_threads(target: &mut ThreadCandidates, source: ThreadCandidates)
    ensures
        merged_threads(*final(target), *old(target), source),
{
    let ghost src = source;
    let ThreadCandidates { model, reasoning_effort, client_version, rollout_paths } = source;
    if let Some(v) = model {
        set_newest(&mut target.model, v);
    }
    if let Some(v) = reasoning_effort {
        set_newest(&mut target.reasoning_effort, v);
    }
    if let Some(v) = client_version {
        set_newest(&mut target.client_version, v);
    }
    let mut paths = rollout_paths;
    target.rollout_paths.append(&mut paths);
}

/// How reading one state database went: its file name (where it is valid
/// text) and either what it told or the issue code that stopped it.
#[derive(Debug)]
pub struct DatabaseRead {
    pub file_name: Option<String>,
    pub outcome: Result<ThreadCandidates, &'static str>,
}

/// The name under which an issue of a database is reported.
pub open spec fn database_label(file_name: Option<String>) -> Seq<char> {
    match file_name {
        Some(n) => n@,
        None => "state-db"@,
    }
}

/// What a field becomes over the reads, in order: each successful read's
/// value taken where newer.
pub open spec fn reads_slot(
    reads: Seq<DatabaseRead>,
    field: spec_fn(ThreadCandidates) -> Option<FieldCandidate<String>>,
) -> Option<FieldCandidate<String>>
    decreases reads.len(),
{
    if reads.len() == 0 {
        None
    } else {
        let prev = reads_slot(reads.drop_last(), field);
        match reads.last().outcome {
            Ok(t) => match field(t) {
                Some(v) => newest_of(prev, v),
                None => prev,
            },
            Err(_) => prev,
        }
    }
}

/// The rollout paths of the successful reads, in order.
pub open spec fn reads_paths(reads: Seq<DatabaseRead>) -> Seq<FieldCandidate<String>>
    decreases reads.len(),
{
    if reads.len() == 0 {
        Seq::empty()
    } else {
        let prev = reads_paths(reads.drop_last());
        match reads.last().outcome {
            Ok(t) => prev + t.rollout_paths@,
            Err(_) => prev,
        }
    }
}

/// The issues of the failed reads, in order, as (code, file name).
pub open spec fn reads_issues(reads: Seq<DatabaseRead>) -> Seq<(Seq<char>, Seq<char>)>
    decreases reads.len(),
{
    if reads.len() == 0 {
        Seq::empty()
    } else {
        let prev = reads_issues(reads.drop_last());
        match reads.last().outcome {
            Ok(_) => prev,
            Err(code) => prev.push((code@, database_label(reads.last().file_name))),
        }
    }
}

/// The code and source of each issue.
pub open spec fn issue_views(issues: Seq<DiagnosticIssue>) -> Seq<(Seq<char>, Seq<char>)> {
    issues.map_values(|i: DiagnosticIssue| (i.code@, i.source@))
}

/// Whether `r` is what the reads of the state databases, in order, give: the
/// successful ones merged, one issue per failed one with its code and file name.
pub open spec fn threads_read(r: AdapterResult<ThreadCandidates>, reads: Seq<DatabaseRead>) -> bool {
    &&& r.value.model == reads_slot(reads, |t: ThreadCandidates| t.model)
    &&& r.value.reasoning_effort == reads_slot(reads, |t: ThreadCandidates| t.reasoning_effort)
    &&& r.value.client_version == reads_slot(reads, |t: ThreadCandidates| t.client_version)
    &&& r.value.rollout_paths@ == reads_paths(reads)
    &&& issue_views(r.issues@) == reads_issues(reads)
}

/// Gathers what the state databases told, in order, with an issue for each
/// one that could not be read.
pub fn read_thread_candidates(reads: Vec<DatabaseRead>) -> (r: AdapterResult<ThreadCandidates>)
    ensures
        threads_read(r, reads@),
{
    let ghost all = reads@;
    let mut result = AdapterResult::new(ThreadCandidates::new());
    assert(issue_views(result.issues@) =~= Seq::<(Seq<char>, Seq<char>)>::empty());
    assert(all.take(0) =~= Seq::<DatabaseRead>::empty());
    assert(result.value.rollout_paths@ =~= reads_paths(all.take(0)));
    for read in it: reads
        invariant
            it.seq() == all,
            threads_read(result, all.take(it.index() as int)),
    {
        let ghost i = it.index() as int;
        assert(all.take(i + 1).drop_last() =~= all.take(i));
        assert(all.take(i + 1).last() == read);
        let ghost prev = result;
        let ghost last = read;
        let DatabaseRead { file_name, outcome } = read;
        match outcome {
            Ok(t) => {
                merge_threads(&mut result.value, t);
                assert(last.outcome matches Ok(t2) && merged_threads(result.value, prev.value, t2));
            },
            Err(code) => {
                let issue = match &file_name {
                    Some(n) => DiagnosticIssue::new(code, n.as_str()),
                    None => DiagnosticIssue::new(code, "state-db"),
                };
                result.issues.push(issue);
                assert(result.issues@.drop_last() =~= prev.issues@);
                assert(issue_views(result.issues@) =~= issue_views(prev.issues@).push((result.issues@.last().code@, result.issues@.last().source@)));
                assert(result.issues@.last().source@ == database_label(last.file_name));
                assert(last.outcome matches Err(c2) && c2@ == result.issues@.last().code@);
            },
        }
        assert(issue_views(result.issues@) =~= reads_issues(all.take(i + 1)));
        assert(threads_read(result, all.take(i + 1)));
    }
    assert(all.take(all.len() as int) =~= all);
    result
}


proof fn lemma_doubled_quotes_len(s: Seq<char>)
    ensures
        doubled_quotes(s).len() >= s.len(),
        s.len() > 0 ==> doubled_quotes(s).len() > 0,
    decreases s.len(),
{
    if s.len() > 0 {
        lemma_doubled_quotes_len(s.drop_last());
    }
}

/// Quoting keeps identifiers apart: two identifiers that quote to the same
/// text are the same identifier (every inner quote is doubled, so the text
/// names exactly one identifier).
pub proof fn lemma_quoted_is_injective(a: Seq<char>, b: Seq<char>)
    requires
        quoted(a) == quoted(b),
    ensures
        a == b,
{
    assert(doubled_quotes(a) =~= quoted(a).subrange(1, quoted(a).len() - 1));
    assert(doubled_quotes(b) =~= quoted(b).subrange(1, quoted(b).len() - 1));
    lemma_doubled_quotes_injective(a, b);
}

proof fn lemma_doubled_quotes_injective(a: Seq<char>, b: Seq<char>)
    requires
        doubled_quotes(a) == doubled_quotes(b),
    ensures
        a == b,
    decreases a.len() + b.len(),
{
    lemma_doubled_quotes_len(a);
    lemma_doubled_quotes_len(b);
    if a.len() == 0 || b.len() == 0 {
        assert(a.len() == 0 && b.len() == 0);
        assert(a =~= b);
    } else {
        let da = doubled_quotes(a.drop_last());
        let db = doubled_quotes(b.drop_last());
        let d = doubled_quotes(a);
        if a.last() == '"' && b.last() == '"' {
            assert(da =~= d.subrange(0, d.len() - 2));
            assert(db =~= d.subrange(0, d.len() - 2));
            lemma_doubled_quotes_injective(a.drop_last(), b.drop_last());
            assert(a =~= a.drop_last().push('"'));
            assert(b =~= b.drop_last().push('"'));
        } else if a.last() != '"' && b.last() != '"' {
            assert(d.last() == a.last());
            assert(d.last() == b.last());
            assert(da =~= d.drop_last());
            assert(db =~= d.drop_last());
            lemma_doubled_quotes_injective(a.drop_last(), b.drop_last());
            assert(a =~= a.drop_last().push(a.last()));
            assert(b =~= b.drop_last().push(b.last()));
        } else if a.last() == '"' {
            assert(d.last() == '"');
            assert(doubled_quotes(b).last() == b.last());
        } else {
            assert(doubled_quotes(b).last() == '"');
            assert(d.last() == a.last());
        }
    }
}


/// The models that the rows name, other than the review model, each with its
/// row's time, in order.
pub open spec fn model_rows(rows: Seq<ThreadRow>, file_time: Timestamp) -> Seq<(Seq<char>, Timestamp)>
    decreases rows.len(),
{
    if rows.len() == 0 {
        Seq::empty()
    } else {
        let prev = model_rows(rows.drop_last(), file_time);
        match rows.last().model {
            Some(m) => if is_review_model(m@) {
                prev
            } else {
                prev.push((m@, row_time(rows.last(), file_time)))
            },
            None => prev,
        }
    }
}

proof fn lemma_rows_model(rows: Seq<ThreadRow>, file_time: Timestamp)
    ensures
        rows_seen(rows, file_time).model == offered_all(None, model_rows(rows, file_time)),
    decreases rows.len(),
{
    if rows.len() > 0 {
        lemma_rows_model(rows.drop_last(), file_time);
        let prev = model_rows(rows.drop_last(), file_time);
        match rows.last().model {
            Some(m) => if !is_review_model(m@) {
                assert(model_rows(rows, file_time).drop_last() =~= prev);
            },
            None => {},
        }
    }
}

/// The model shown from a state database is the one of its newest row that
/// names a model other than the review model (of equally new rows, the first).
pub proof fn lemma_newest_model_row_wins(rows: Seq<ThreadRow>, file_time: Timestamp)
    ensures
        model_rows(rows, file_time).len() > 0 ==> rows_seen(rows, file_time).model is Some,
        model_rows(rows, file_time).len() == 0 ==> rows_seen(rows, file_time).model is None,
        rows_seen(rows, file_time).model matches Some(n) ==> {
            &&& model_rows(rows, file_time).contains(n)
            &&& forall|k: int|
                0 <= k < model_rows(rows, file_time).len() ==> !(#[trigger] model_rows(
                    rows,
                    file_time,
                )[k]).1.spec_is_after(n.1)
        },
{
    lemma_rows_model(rows, file_time);
    lemma_offered_all_keeps_newest(None, model_rows(rows, file_time));
}


/// The reasoning efforts that the rows name, each with its row's time, in order.
pub open spec fn effort_rows(rows: Seq<ThreadRow>, file_time: Timestamp) -> Seq<(Seq<char>, Timestamp)>
    decreases rows.len(),
{
    if rows.len() == 0 {
        Seq::empty()
    } else {
        let prev = effort_rows(rows.drop_last(), file_time);
        match rows.last().effort {
            Some(e) => prev.push((e@, row_time(rows.last(), file_time))),
            None => prev,
        }
    }
}

/// The client versions that the rows name, each with its row's time, in order.
pub open spec fn version_rows(rows: Seq<ThreadRow>, file_time: Timestamp) -> Seq<(Seq<char>, Timestamp)>
    decreases rows.len(),
{
    if rows.len() == 0 {
        Seq::empty()
    } else {
        let prev = version_rows(rows.drop_last(), file_time);
        match rows.last().version {
            Some(v) => prev.push((v@, row_time(rows.last(), file_time))),
            None => prev,
        }
    }
}

proof fn lemma_rows_effort_version(rows: Seq<ThreadRow>, file_time: Timestamp)
    ensures
        rows_seen(rows, file_time).effort == offered_all(None, effort_rows(rows, file_time)),
        rows_seen(rows, file_time).version == offered_all(None, version_rows(rows, file_time)),
    decreases rows.len(),
{
    if rows.len() > 0 {
        lemma_rows_effort_version(rows.drop_last(), file_time);
        let last = rows.last();
        match last.effort {
            Some(e) => {
                assert(effort_rows(rows, file_time).drop_last() =~= effort_rows(rows.drop_last(), file_time));
            },
            None => {},
        }
        match last.version {
            Some(v) => {
                assert(version_rows(rows, file_time).drop_last() =~= version_rows(rows.drop_last(), file_time));
            },
            None => {},
        }
    }
}

/// The reasoning effort and the client version shown from a state database
/// are each those of its newest row that names one (of equally new rows, the
/// first), observed at that row's time; none where no row names one.
pub proof fn lemma_newest_effort_and_version_rows_win(rows: Seq<ThreadRow>, file_time: Timestamp)
    ensures
        effort_rows(rows, file_time).len() > 0 <==> rows_seen(rows, file_time).effort is Some,
        rows_seen(rows, file_time).effort matches Some(n) ==> {
            &&& effort_rows(rows, file_time).contains(n)
            &&& forall|k: int|
                0 <= k < effort_rows(rows, file_time).len() ==> !(#[trigger] effort_rows(
                    rows,
                    file_time,
                )[k]).1.spec_is_after(n.1)
        },
        version_rows(rows, file_time).len() > 0 <==> rows_seen(rows, file_time).version is Some,
        rows_seen(rows, file_time).version matches Some(n) ==> {
            &&& version_rows(rows, file_time).contains(n)
            &&& forall|k: int|
                0 <= k < version_rows(rows, file_time).len() ==> !(#[trigger] version_rows(
                    rows,
                    file_time,
                )[k]).1.spec_is_after(n.1)
        },
{
    lemma_rows_effort_version(rows, file_time);
    lemma_offered_all_keeps_newest(None, effort_rows(rows, file_time));
    lemma_offered_all_keeps_newest(None, version_rows(rows, file_time));
    if effort_rows(rows, file_time).len() == 0 {
        assert(offered_all(None, effort_rows(rows, file_time)) is None);
    }
    if version_rows(rows, file_time).len() == 0 {
        assert(offered_all(None, version_rows(rows, file_time)) is None);
    }
}

} // verus!
