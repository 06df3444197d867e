//! Reconnaissance: a bounded, read-only look over the user's folders and
//! processes for likely data sources, reported with secrets masked.

use vstd::prelude::*;
use crate::discovery::{DataRootCandidate, DiscoveryInputs};
use crate::paths::{dedup_paths, deduped_paths, no_neighbour_repeats, extension_of, path_eq, path_extension, path_same, sort_paths, sorted_paths};
use crate::pattern::{compile_reporting, regex_compiles, regex_replaced, replace_every, Pattern};
use crate::rollout::{lossy_text, utf8_lossy};
use crate::order::{count_parts, keyed_by, lemma_keyed_pairs, sort_desc, sorted_desc, SortKey};
use crate::text::{ascii_lower, contains_chars, decimal, decimal_text, join_strings, joined, push_text, contains_text, first_chars, from_chars, lower_chars, owned, split_lines, str_eq, text_lines, to_chars};
use crate::time::{utc_display_text, utc_representable, Timestamp};

verus! {

/// The most candidate files that one reconnaissance inspects.
pub const MAX_FILES: usize = 240;

/// The most bytes sampled from one candidate file.
pub const MAX_SAMPLE: u64 = 65536;

/// How deep below each root the walk goes.
pub const MAX_DEPTH: usize = 4;

/// The most candidate processes that a report keeps.
pub const MAX_PROCESSES: usize = 24;

/// A file that mentions some of the keywords: where it is, its size and
/// modification time, how many keywords it mentions, which, and up to three
/// masked lines that mention them.
#[derive(Clone, Debug)]
pub struct CandidateFile {
    pub path: String,
    pub size: u64,
    pub modified_at: Option<Timestamp>,
    pub score: usize,
    pub hits: Vec<String>,
    pub snippets: Vec<String>,
}

/// A running process whose name or command line mentions some of the keywords.
#[derive(Clone, Debug)]
pub struct CandidateProcess {
    pub name: String,
    pub executable: Option<String>,
    pub score: usize,
}

/// Whether a local port accepted a connection.
#[derive(Clone, Copy, Debug)]
pub struct LoopbackResult {
    pub port: u16,
    pub reachable: bool,
}

/// What a reconnaissance found.
#[derive(Clone, Debug)]
pub struct ReconReport {
    pub generated_at: Timestamp,
    pub roots: Vec<String>,
    pub files: Vec<CandidateFile>,
    pub processes: Vec<CandidateProcess>,
    pub loopback: Vec<LoopbackResult>,
    pub recommendation: String,
}

/// The identifiers of the tray menu's entries: show or hide, keep on top, quit.
pub fn tray_menu_ids() -> (r: [&'static str; 3])
    ensures
        r[0]@ == "show"@,
        r[1]@ == "top"@,
        r[2]@ == "quit"@,
{
    ["show", "top", "quit"]
}

/// An IP address, as its octets or its 16-bit groups.
#[derive(Clone, Copy, Debug, PartialEq, Eq, Structural)]
pub enum HostAddress {
    V4(u8, u8, u8, u8),
    V6(u16, u16, u16, u16, u16, u16, u16, u16),
}

/// Whether the address is the IPv4 loopback address 127.0.0.1, the only one
/// that reconnaissance may connect to.
pub fn validate_loopback(host: HostAddress) -> (r: bool)
    ensures
        r == (host == HostAddress::V4(127, 0, 0, 1)),
{
    match host {
        HostAddress::V4(a, b, c, d) => a == 127 && b == 0 && c == 0 && d == 1,
        HostAddress::V6(..) => false,
    }
}

/// The local ports that reconnaissance probes, in order.
pub fn loopback_ports() -> (r: Vec<u16>)
    ensures
        r@ == seq![3000u16, 8000, 8080, 8787, 1420],
{
    vec![3000, 8000, 8080, 8787, 1420]
}

/// The file extensions (in any ASCII case) that reconnaissance samples.
pub open spec fn is_candidate_extension(e: Seq<char>) -> bool {
    let l = ascii_lower(e);
    l == "json"@ || l == "log"@ || l == "db"@ || l == "sqlite"@ || l == "sqlite3"@ || l == "ldb"@
}

/// Whether reconnaissance samples the file: its extension is one of json,
/// log, db, sqlite, sqlite3, ldb in any ASCII case.
pub fn candidate_extension(path: &str) -> (r: bool)
    ensures
        r == match path_extension(path@) {
            Some(e) => is_candidate_extension(e),
            None => false,
        },
{
    match extension_of(path) {
        Some(e) => {
            let l = lower_chars(&to_chars(e.as_str()));
            let s = crate::text::from_chars(&l);
            str_eq(s.as_str(), "json") || str_eq(s.as_str(), "log") || str_eq(s.as_str(), "db")
                || str_eq(s.as_str(), "sqlite") || str_eq(s.as_str(), "sqlite3") || str_eq(
                s.as_str(),
                "ldb",
            )
        },
        None => false,
    }
}

/// The advice a report ends with: where no file was found, that `auto` will
/// show `--`; else to map fields from the best files first.
pub open spec fn spec_recommendation(found_files: bool) -> Seq<char> {
    if found_files {
        "优先根据高分文件生成 field-mapping.json，再启用 file/log provider"@
    } else {
        "未发现可靠来源；auto 模式将显示 --"@
    }
}

/// The advice a report ends with.
pub fn recommendation(found_files: bool) -> (r: String)
    ensures
        r@ == spec_recommendation(found_files),
{
    if found_files {
        owned("优先根据高分文件生成 field-mapping.json，再启用 file/log provider")
    } else {
        owned("未发现可靠来源；auto 模式将显示 --")
    }
}

/// The paths of the system roots followed by those of the discovered data roots.
pub open spec fn root_paths(inputs: DiscoveryInputs, discovered: Seq<DataRootCandidate>) -> Seq<Seq<char>> {
    inputs.system_roots@.map_values(|p: String| p@) + discovered.map_values(|c: DataRootCandidate| c.path@)
}

/// The folders that reconnaissance walks: the system roots and the discovered
/// data roots, in `Path` order without repeats. (Which of them exist is for
/// the caller to check.)
pub fn system_roots_for(inputs: &DiscoveryInputs, discovered: &Vec<DataRootCandidate>) -> (r: Vec<String>)
    ensures
        r@.map_values(|p: String| p@) == deduped_paths(sorted_paths(root_paths(*inputs, discovered@))),
        no_neighbour_repeats(r@.map_values(|p: String| p@)),
{
    let mut roots: Vec<String> = Vec::new();
    let mut i: usize = 0;
    while i < inputs.system_roots.len()
        invariant
            i <= inputs.system_roots.len(),
            roots@.map_values(|p: String| p@) == inputs.system_roots@.take(i as int).map_values(|p: String| p@),
        decreases inputs.system_roots.len() - i,
    {
        let ghost before = roots@.map_values(|p: String| p@);
        roots.push(owned(inputs.system_roots[i].as_str()));
        assert(roots@.map_values(|p: String| p@) =~= before.push(inputs.system_roots@[i as int]@));
        assert(inputs.system_roots@.take(i + 1).map_values(|p: String| p@) =~= inputs.system_roots@.take(i as int).map_values(|p: String| p@).push(inputs.system_roots@[i as int]@));
        i = i + 1;
    }
    assert(inputs.system_roots@.take(inputs.system_roots@.len() as int) =~= inputs.system_roots@);
    let ghost base = roots@.map_values(|p: String| p@);
    let mut j: usize = 0;
    while j < discovered.len()
        invariant
            j <= discovered.len(),
            roots@.map_values(|p: String| p@) == base + discovered@.take(j as int).map_values(|c: DataRootCandidate| c.path@),
        decreases discovered.len() - j,
    {
        let ghost before = roots@.map_values(|p: String| p@);
        roots.push(owned(discovered[j].path.as_str()));
        assert(roots@.map_values(|p: String| p@) =~= before.push(discovered@[j as int].path@));
        assert(discovered@.take(j + 1).map_values(|c: DataRootCandidate| c.path@) =~= discovered@.take(j as int).map_values(|c: DataRootCandidate| c.path@).push(discovered@[j as int].path@));
        j = j + 1;
    }
    assert(discovered@.take(discovered@.len() as int) =~= discovered@);
    assert(roots@.map_values(|p: String| p@) =~= root_paths(*inputs, discovered@));
    dedup_paths(sort_paths(roots))
}


/// The pattern of an e-mail address: its first character is kept in group 1,
/// the domain in group 2.
pub open spec fn spec_email_pattern() -> Seq<char> {
    r"(?i)([a-z0-9._%+-])[^@\s]*@([^\s.]+(?:\.[^\s.]+)+)"@
}

/// The pattern of a secret: a bearer token, a `token` field or an `sk-` key
/// (its lead kept in group 1) followed by at least eight token characters.
pub open spec fn spec_token_pattern() -> Seq<char> {
    r#"(?i)(bearer\s+|token["'\s:=]+|sk-)[a-z0-9._-]{8,}"#@
}

/// The e-mail pattern.
pub fn email_pattern() -> (r: &'static str)
    ensures
        r@ == spec_email_pattern(),
{
    r"(?i)([a-z0-9._%+-])[^@\s]*@([^\s.]+(?:\.[^\s.]+)+)"
}

/// The secret pattern.
pub fn token_pattern() -> (r: &'static str)
    ensures
        r@ == spec_token_pattern(),
{
    r#"(?i)(bearer\s+|token["'\s:=]+|sk-)[a-z0-9._-]{8,}"#
}

/// Whether both masking patterns compile.
pub open spec fn redaction_ready() -> bool {
    regex_compiles(spec_email_pattern()) && regex_compiles(spec_token_pattern())
}

/// The text with every e-mail address cut to its first character and its
/// domain (`a***@example.com`), and then every secret cut to its lead
/// (`bearer ***`).
pub open spec fn sanitized(input: Seq<char>) -> Seq<char> {
    regex_replaced(
        spec_token_pattern(),
        regex_replaced(spec_email_pattern(), input, "$1***@$2"@),
        "$1***"@,
    )
}

/// The two compiled masking patterns.
pub struct Redactor {
    email: Pattern,
    token: Pattern,
}

impl Redactor {
    #[verifier::type_invariant]
    spec fn holds_masking_patterns(self) -> bool {
        self.email.source() == spec_email_pattern() && self.token.source() == spec_token_pattern()
    }

    /// Compiles both masking patterns; `None` where either is refused.
    pub fn new() -> (r: Option<Redactor>)
        ensures
            r is Some <==> redaction_ready(),
    {
        let email = compile_reporting(email_pattern());
        let token = compile_reporting(token_pattern());
        match (email, token) {
            (Ok(email), Ok(token)) => Some(Redactor { email, token }),
            _ => None,
        }
    }

    /// The text with e-mail addresses and secrets masked.
    pub fn sanitize(&self, input: &str) -> (r: String)
        ensures
            r@ == sanitized(input@),
    {
        proof {
            use_type_invariant(self);
        }
        let cleaned = replace_every(&self.email, input, "$1***@$2");
        replace_every(&self.token, cleaned.as_str(), "$1***")
    }
}

/// The text with e-mail addresses and secrets masked.
pub fn sanitize(input: &str) -> (r: String)
    requires
        redaction_ready(),
    ensures
        r@ == sanitized(input@),
{
    let redactor = Redactor::new().unwrap();
    redactor.sanitize(input)
}

/// The masked text, or `None` where the masking patterns do not compile.
pub fn try_sanitize(input: &str) -> (r: Option<String>)
    ensures
        r is Some <==> redaction_ready(),
        r matches Some(s) ==> s@ == sanitized(input@),
{
    if Redactor::new().is_some() {
        Some(sanitize(input))
    } else {
        None
    }
}


/// The keywords that reconnaissance looks for, in order.
pub open spec fn keywords() -> Seq<Seq<char>> {
    seq![
        "quota"@,
        "usage"@,
        "used"@,
        "remain"@,
        "percent"@,
        "reset"@,
        "resetat"@,
        "model"@,
        "plan"@,
        "subscription"@,
        "token"@,
        "tokens_per_second"@,
        "reasoning"@,
        "effort"@,
        "version"@,
        "user"@,
        "email"@,
    ]
}

/// The keywords, in order.
pub fn keyword_list() -> (r: Vec<&'static str>)
    ensures
        r@.map_values(|k: &'static str| k@) == keywords(),
{
    let r = vec![
        "quota",
        "usage",
        "used",
        "remain",
        "percent",
        "reset",
        "resetat",
        "model",
        "plan",
        "subscription",
        "token",
        "tokens_per_second",
        "reasoning",
        "effort",
        "version",
        "user",
        "email",
    ];
    assert(r@.map_values(|k: &'static str| k@) =~= keywords());
    r
}

/// The words of `ks` that occur in `text`, in their order.
pub open spec fn hits_among(ks: Seq<Seq<char>>, text: Seq<char>) -> Seq<Seq<char>>
    decreases ks.len(),
{
    if ks.len() == 0 {
        Seq::empty()
    } else if contains_text(text, ks.last()) {
        hits_among(ks.drop_last(), text).push(ks.last())
    } else {
        hits_among(ks.drop_last(), text)
    }
}

/// The keywords that occur in `text`, in keyword order.
pub open spec fn keyword_hits(text: Seq<char>) -> Seq<Seq<char>> {
    hits_among(keywords(), text)
}

/// Whether the line mentions one of the words.
pub open spec fn mentions_any(line: Seq<char>, words: Seq<Seq<char>>) -> bool {
    exists|k: int| 0 <= k < words.len() && contains_text(line, #[trigger] words[k])
}

/// The lines that mention one of the words, in order.
pub open spec fn lines_mentioning(lines: Seq<Seq<char>>, words: Seq<Seq<char>>) -> Seq<Seq<char>>
    decreases lines.len(),
{
    if lines.len() == 0 {
        Seq::empty()
    } else if mentions_any(lines.last(), words) {
        lines_mentioning(lines.drop_last(), words).push(lines.last())
    } else {
        lines_mentioning(lines.drop_last(), words)
    }
}

/// The first three of the lines, or all of them where there are fewer.
pub open spec fn first_three(s: Seq<Seq<char>>) -> Seq<Seq<char>> {
    if s.len() <= 3 {
        s
    } else {
        s.take(3)
    }
}

/// A line as a report shows it: its first 240 characters, masked.
pub open spec fn snippet_of(line: Seq<char>) -> Seq<char> {
    sanitized(first_chars(line, 240))
}

/// The report lines of a lowercased sample: the first three lines that
/// mention a keyword found in it, each cut and masked.
pub open spec fn sample_snippets(text: Seq<char>, hits: Seq<Seq<char>>) -> Seq<Seq<char>> {
    first_three(lines_mentioning(text_lines(text), hits)).map_values(|l: Seq<char>| snippet_of(l))
}

/// The lowercased text of a sample, as reconnaissance searches it.
pub open spec fn sample_text(sample: Seq<u8>) -> Seq<char> {
    ascii_lower(utf8_lossy(sample))
}

/// The views of a list of strings.
pub open spec fn string_views(v: Seq<String>) -> Seq<Seq<char>> {
    v.map_values(|s: String| s@)
}

/// Whether `f` is what reconnaissance reports of a file at `path` of the given
/// size and modification time whose first bytes are `sample`.
pub open spec fn sampled_file(
    f: CandidateFile,
    path: String,
    size: u64,
    modified_at: Option<Timestamp>,
    sample: Seq<u8>,
) -> bool {
    let hits = keyword_hits(sample_text(sample));
    &&& f.path == path
    &&& f.size == size
    &&& f.modified_at == modified_at
    &&& f.score == hits.len()
    &&& string_views(f.hits@) == hits
    &&& string_views(f.snippets@) == sample_snippets(sample_text(sample), hits)
}

/// Whether the line mentions one of the words.
fn mentions_one(line: &Vec<char>, words: &Vec<Vec<char>>) -> (r: bool)
    ensures
        r == mentions_any(line@, words@.map_values(|w: Vec<char>| w@)),
{
    let ghost ws = words@.map_values(|w: Vec<char>| w@);
    let mut k: usize = 0;
    while k < words.len()
        invariant
            k <= words.len(),
            ws == words@.map_values(|w: Vec<char>| w@),
            forall|j: int| 0 <= j < k ==> !contains_text(line@, #[trigger] ws[j]),
        decreases words.len() - k,
    {
        if contains_chars(line, &words[k]) {
            assert(contains_text(line@, ws[k as int]));
            return true;
        }
        k = k + 1;
    }
    false
}

/// What reconnaissance makes of the first bytes of a file: `None` where the
/// lowercased text mentions no keyword; else the file with its score (how many
/// keywords it mentions), those keywords in keyword order, and the first three
/// lines that mention one of them, each cut to 240 characters and masked.
pub fn inspect_sample(
    redactor: &Redactor,
    path: String,
    size: u64,
    modified_at: Option<Timestamp>,
    sample: &[u8],
) -> (r: Option<CandidateFile>)
    ensures
        keyword_hits(sample_text(sample@)).len() == 0 ==> r is None,
        keyword_hits(sample_text(sample@)).len() > 0 ==> (r matches Some(f) && sampled_file(
            f,
            path,
            size,
            modified_at,
            sample@,
        )),
{
    let raw = lossy_text(sample);
    let text = lower_chars(&to_chars(raw.as_str()));
    let ghost t = text@;
    let keys = keyword_list();
    let mut hits: Vec<String> = Vec::new();
    let mut hit_chars: Vec<Vec<char>> = Vec::new();
    let mut i: usize = 0;
    while i < keys.len()
        invariant
            i <= keys.len(),
            t == text@,
            keys@.map_values(|k: &'static str| k@) == keywords(),
            string_views(hits@) == hits_among(keywords().take(i as int), t),
            hit_chars@.map_values(|w: Vec<char>| w@) == string_views(hits@),
        decreases keys.len() - i,
    {
        let ghost before = keywords().take(i as int);
        let ghost after = keywords().take(i + 1);
        assert(after.drop_last() =~= before);
        assert(after.last() == keys@[i as int]@);
        let k = to_chars(keys[i]);
        if contains_chars(&text, &k) {
            let ghost hv = string_views(hits@);
            let ghost cv = hit_chars@.map_values(|w: Vec<char>| w@);
            hits.push(owned(keys[i]));
            hit_chars.push(k);
            assert(string_views(hits@) =~= hv.push(keys@[i as int]@));
            assert(hit_chars@.map_values(|w: Vec<char>| w@) =~= cv.push(keys@[i as int]@));
        }
        i = i + 1;
    }
    assert(keywords().take(keys.len() as int) =~= keywords());
    if hits.len() == 0 {
        return None;
    }
    let ghost hv = string_views(hits@);
    let lines = split_lines(&text);
    let ghost ls = lines@.map_values(|l: Vec<char>| l@);
    let mut snippets: Vec<String> = Vec::new();
    let mut j: usize = 0;
    while j < lines.len()
        invariant
            j <= lines.len(),
            ls == lines@.map_values(|l: Vec<char>| l@),
            ls == text_lines(t),
            hv == string_views(hits@),
            hit_chars@.map_values(|w: Vec<char>| w@) == hv,
            string_views(snippets@) == first_three(lines_mentioning(ls.take(j as int), hv)).map_values(
                |l: Seq<char>| snippet_of(l),
            ),
        decreases lines.len() - j,
    {
        let ghost before = ls.take(j as int);
        let ghost after = ls.take(j + 1);
        assert(after.drop_last() =~= before);
        assert(after.last() == lines@[j as int]@);
        let ghost chosen = lines_mentioning(before, hv);
        assert(string_views(snippets@).len() == snippets@.len());
        assert(snippets@.len() == first_three(chosen).len());
        assert(snippets@.len() < 3 ==> chosen.len() < 3);
        assert(snippets@.len() >= 3 ==> chosen.len() >= 3);
        if mentions_one(&lines[j], &hit_chars) {
            assert(lines_mentioning(after, hv) == chosen.push(lines@[j as int]@));
            if snippets.len() < 3 {
                let ghost sv = string_views(snippets@);
                let line = &lines[j];
                let mut cut: Vec<char> = Vec::new();
                let mut c: usize = 0;
                while c < line.len() && c < 240
                    invariant
                        c <= line.len(),
                        c <= 240,
                        cut@ == line@.take(c as int),
                    decreases line.len() - c,
                {
                    cut.push(line[c]);
                    assert(line@.take(c + 1) =~= line@.take(c as int).push(line@[c as int]));
                    c = c + 1;
                }
                assert(cut@ =~= first_chars(line@, 240));
                let s = redactor.sanitize(from_chars(&cut).as_str());
                snippets.push(s);
                assert(first_three(chosen.push(lines@[j as int]@)) =~= chosen.push(lines@[j as int]@));
                assert(string_views(snippets@) =~= sv.push(snippet_of(lines@[j as int]@)));
            } else {
                assert(first_three(chosen.push(lines@[j as int]@)) =~= first_three(chosen));
            }
        } else {
            assert(lines_mentioning(after, hv) == chosen);
        }
        j = j + 1;
    }
    assert(ls.take(lines.len() as int) =~= ls);
    let score = hits.len();
    Some(CandidateFile { path, size, modified_at, score, hits, snippets })
}


/// A modification time as two key parts: seconds and nanoseconds, an unknown
/// time below every known one.
pub open spec fn time_parts(t: Option<Timestamp>) -> (i64, i64) {
    match t {
        Some(x) => (x.spec_secs() as i64, x.spec_nanos() as i64),
        None => (i64::MIN, 0),
    }
}

/// The key by which candidate files are ranked: the score, then the
/// modification time.
pub open spec fn file_key(f: CandidateFile) -> SortKey {
    SortKey(
        (f.score as int / 4294967296) as i64,
        (f.score as int % 4294967296) as i64,
        time_parts(f.modified_at).0,
        time_parts(f.modified_at).1,
    )
}

/// The files ranked from the highest score down, among equal scores the most
/// recently modified first, otherwise in the order given (`sort_by` is stable).
pub open spec fn ranked_files(files: Seq<CandidateFile>) -> Seq<CandidateFile> {
    sorted_desc(files.map_values(|f: CandidateFile| (file_key(f), f))).map_values(
        |p: (SortKey, CandidateFile)| p.1,
    )
}

fn time_key(t: Option<Timestamp>) -> (r: (i64, i64))
    ensures
        r == time_parts(t),
{
    match t {
        Some(x) => (x.secs(), x.nanos() as i64),
        None => (i64::MIN, 0),
    }
}

/// The attached values of key-value pairs, in order.
fn seconds<T>(v: Vec<(SortKey, T)>) -> (r: Vec<T>)
    ensures
        r@ == v@.map_values(|p: (SortKey, T)| p.1),
{
    let ghost all = v@;
    let mut out: Vec<T> = Vec::new();
    for x in it: v
        invariant
            it.seq() == all,
            out@ == all.take(it.index() as int).map_values(|p: (SortKey, T)| p.1),
    {
        let ghost i = it.index() as int;
        assert(all.take(i + 1) =~= all.take(i).push(x));
        out.push(x.1);
        assert(out@ =~= all.take(i + 1).map_values(|p: (SortKey, T)| p.1));
    }
    assert(all.take(all.len() as int) =~= all);
    out
}

/// Ranks candidate files: highest score first, then most recently modified.
pub fn rank_files(files: Vec<CandidateFile>) -> (r: Vec<CandidateFile>)
    ensures
        r@ == ranked_files(files@),
{
    let ghost all = files@;
    let mut keyed: Vec<(SortKey, CandidateFile)> = Vec::new();
    for f in it: files
        invariant
            it.seq() == all,
            keyed@ == all.take(it.index() as int).map_values(|f: CandidateFile| (file_key(f), f)),
    {
        let ghost i = it.index() as int;
        assert(all.take(i + 1) =~= all.take(i).push(f));
        let (hi, lo) = count_parts(f.score);
        let (secs, nanos) = time_key(f.modified_at);
        keyed.push((SortKey(hi, lo, secs, nanos), f));
        assert(keyed@ =~= all.take(i + 1).map_values(|f: CandidateFile| (file_key(f), f)));
    }
    assert(all.take(all.len() as int) =~= all);
    seconds(sort_desc(keyed))
}

/// How many of the words occur in the name or in the command line.
pub open spec fn process_hit_count(ks: Seq<Seq<char>>, name: Seq<char>, command: Seq<char>) -> nat
    decreases ks.len(),
{
    if ks.len() == 0 {
        0
    } else {
        process_hit_count(ks.drop_last(), name, command) + if contains_text(name, ks.last())
            || contains_text(command, ks.last()) {
            1nat
        } else {
            0nat
        }
    }
}

/// How many keywords a process mentions: in its lowercased name, or in its
/// lowercased command line (the arguments joined by spaces).
pub open spec fn process_score(name: Seq<char>, command: Seq<Seq<char>>) -> nat {
    process_hit_count(keywords(), ascii_lower(name), ascii_lower(joined(command, " "@)))
}

/// What reconnaissance makes of a running process: `None` where it mentions
/// no keyword, else the process with its score.
pub fn process_candidate(name: String, command: &Vec<String>, executable: Option<String>) -> (r: Option<CandidateProcess>)
    ensures
        process_score(name@, string_views(command@)) == 0 ==> r is None,
        process_score(name@, string_views(command@)) > 0 ==> (r matches Some(p) && p.name == name
            && p.executable == executable && p.score == process_score(name@, string_views(command@))),
{
    let lname = lower_chars(&to_chars(name.as_str()));
    let line = join_strings(command, " ");
    let lcmd = lower_chars(&to_chars(line.as_str()));
    let keys = keyword_list();
    let mut score: usize = 0;
    let mut i: usize = 0;
    while i < keys.len()
        invariant
            i <= keys.len(),
            keys@.map_values(|k: &'static str| k@) == keywords(),
            score == process_hit_count(keywords().take(i as int), lname@, lcmd@),
            score <= i,
        decreases keys.len() - i,
    {
        let ghost before = keywords().take(i as int);
        let ghost after = keywords().take(i + 1);
        assert(after.drop_last() =~= before);
        assert(after.last() == keys@[i as int]@);
        let k = to_chars(keys[i]);
        if contains_chars(&lname, &k) || contains_chars(&lcmd, &k) {
            score = score + 1;
        }
        i = i + 1;
    }
    assert(keywords().take(keys.len() as int) =~= keywords());
    if score == 0 {
        None
    } else {
        Some(CandidateProcess { name, executable, score })
    }
}

/// The key by which candidate processes are ranked: the score.
pub open spec fn process_key(p: CandidateProcess) -> SortKey {
    SortKey((p.score as int / 4294967296) as i64, (p.score as int % 4294967296) as i64, 0, 0)
}

/// The processes from the highest score down (equal scores in the order
/// given), cut to the first `MAX_PROCESSES`.
pub open spec fn ranked_processes(ps: Seq<CandidateProcess>) -> Seq<CandidateProcess> {
    let all = sorted_desc(ps.map_values(|p: CandidateProcess| (process_key(p), p))).map_values(
        |q: (SortKey, CandidateProcess)| q.1,
    );
    if all.len() <= MAX_PROCESSES {
        all
    } else {
        all.take(MAX_PROCESSES as int)
    }
}

/// Ranks candidate processes by score and keeps the first `MAX_PROCESSES`.
pub fn rank_processes(ps: Vec<CandidateProcess>) -> (r: Vec<CandidateProcess>)
    ensures
        r@ == ranked_processes(ps@),
{
    let ghost all = ps@;
    let mut keyed: Vec<(SortKey, CandidateProcess)> = Vec::new();
    for p in it: ps
        invariant
            it.seq() == all,
            keyed@ == all.take(it.index() as int).map_values(|p: CandidateProcess| (process_key(p), p)),
    {
        let ghost i = it.index() as int;
        assert(all.take(i + 1) =~= all.take(i).push(p));
        let (hi, lo) = count_parts(p.score);
        keyed.push((SortKey(hi, lo, 0, 0), p));
        assert(keyed@ =~= all.take(i + 1).map_values(|p: CandidateProcess| (process_key(p), p)));
    }
    assert(all.take(all.len() as int) =~= all);
    let mut out = seconds(sort_desc(keyed));
    if out.len() > MAX_PROCESSES {
        out.truncate(MAX_PROCESSES);
    }
    out
}


/// Whether reconnaissance samples a file at this path, by its extension.
pub open spec fn has_candidate_extension(path: Seq<char>) -> bool {
    match path_extension(path) {
        Some(e) => is_candidate_extension(e),
        None => false,
    }
}

/// One entry met while walking a root: its path, whether it is a regular
/// file, and when it was last modified, where that is known.
#[derive(Clone, Debug)]
pub struct WalkEntry {
    pub path: String,
    pub is_file: bool,
    pub modified_at: Option<Timestamp>,
}

/// Whether the path is, by `Path` equality, one of those already considered.
pub open spec fn already_seen(seen: Seq<Seq<char>>, path: Seq<char>) -> bool {
    exists|i: int| 0 <= i < seen.len() && path_same(#[trigger] seen[i], path)
}

/// Whether the entry is a sampled kind of file not considered before.
pub open spec fn fresh_entry(seen: Seq<Seq<char>>, entry: WalkEntry) -> bool {
    entry.is_file && has_candidate_extension(entry.path@) && !already_seen(seen, entry.path@)
}

/// Whether the entry was last modified before `recent`.
pub open spec fn modified_before(entry: WalkEntry, recent: Timestamp) -> bool {
    match entry.modified_at {
        Some(m) => recent.spec_is_after(m),
        None => false,
    }
}

/// The progress of the walk over the roots: the paths considered so far and
/// the candidate files found, never more than `MAX_FILES` of them.
pub struct FileScan {
    seen: Vec<String>,
    files: Vec<CandidateFile>,
}

impl FileScan {
    #[verifier::type_invariant]
    spec fn within_cap(self) -> bool {
        self.files@.len() <= MAX_FILES
    }

    /// The paths considered so far, in order.
    pub closed spec fn seen_paths(&self) -> Seq<Seq<char>> {
        string_views(self.seen@)
    }

    /// The candidate files found so far, in order.
    pub closed spec fn found(&self) -> Seq<CandidateFile> {
        self.files@
    }

    /// A walk that has considered nothing yet.
    pub fn new() -> (r: Self)
        ensures
            r.seen_paths().len() == 0,
            r.found().len() == 0,
    {
        FileScan { seen: Vec::new(), files: Vec::new() }
    }

    /// The paths considered so far.
    pub fn seen(&self) -> (r: &Vec<String>)
        ensures
            string_views(r@) == self.seen_paths(),
    {
        &self.seen
    }

    /// The candidate files found so far (at most `MAX_FILES`).
    pub fn files(&self) -> (r: &Vec<CandidateFile>)
        ensures
            r@ == self.found(),
            r@.len() <= MAX_FILES,
    {
        proof {
            use_type_invariant(self);
        }
        &self.files
    }

    /// Whether the walk has found as many files as it may.
    pub fn is_full(&self) -> (r: bool)
        ensures
            r == (self.found().len() >= MAX_FILES),
    {
        self.files.len() >= MAX_FILES
    }

    /// Considers one entry of the walk: a regular file with a sampled
    /// extension and a path not considered before is remembered, and is to be
    /// sampled unless it was last modified before `recent`.
    pub fn consider(&mut self, entry: &WalkEntry, recent: Timestamp) -> (r: bool)
        ensures
            final(self).found() == old(self).found(),
            fresh_entry(old(self).seen_paths(), *entry) ==> final(self).seen_paths() == old(
                self,
            ).seen_paths().push(entry.path@),
            !fresh_entry(old(self).seen_paths(), *entry) ==> final(self).seen_paths() == old(
                self,
            ).seen_paths(),
            r == (fresh_entry(old(self).seen_paths(), *entry) && !modified_before(*entry, recent)),
    {
        proof {
            use_type_invariant(&*self);
        }
        if !entry.is_file || !candidate_extension(entry.path.as_str()) {
            return false;
        }
        let ghost sv = string_views(self.seen@);
        let mut i: usize = 0;
        while i < self.seen.len()
            invariant
                i <= self.seen.len(),
                sv == string_views(self.seen@),
                forall|j: int| 0 <= j < i ==> !path_same(#[trigger] sv[j], entry.path@),
            decreases self.seen.len() - i,
        {
            if path_eq(self.seen[i].as_str(), entry.path.as_str()) {
                assert(path_same(sv[i as int], entry.path@));
                return false;
            }
            i = i + 1;
        }
        let mut seen: Vec<String> = Vec::new();
        std::mem::swap(&mut seen, &mut self.seen);
        seen.push(owned(entry.path.as_str()));
        self.seen = seen;
        assert(string_views(self.seen@) =~= sv.push(entry.path@));
        match entry.modified_at {
            Some(m) => !recent.is_after(&m),
            None => true,
        }
    }

    /// Keeps what sampling a file found, if anything, while the walk is not
    /// full (a full walk samples nothing more).
    pub fn record(&mut self, found: Option<CandidateFile>)
        ensures
            final(self).seen_paths() == old(self).seen_paths(),
            final(self).found() == match found {
                Some(f) => if old(self).found().len() < MAX_FILES {
                    old(self).found().push(f)
                } else {
                    old(self).found()
                },
                None => old(self).found(),
            },
    {
        proof {
            use_type_invariant(&*self);
        }
        match found {
            Some(f) => if self.files.len() < MAX_FILES {
                let mut files: Vec<CandidateFile> = Vec::new();
                std::mem::swap(&mut files, &mut self.files);
                files.push(f);
                self.files = files;
            },
            None => {},
        }
    }

    /// The candidate files found (at most `MAX_FILES`), ending the walk.
    pub fn into_files(self) -> (r: Vec<CandidateFile>)
        ensures
            r@ == self.found(),
            r@.len() <= MAX_FILES,
    {
        proof {
            use_type_invariant(&self);
        }
        let mut scan = self;
        let mut files: Vec<CandidateFile> = Vec::new();
        std::mem::swap(&mut files, &mut scan.files);
        files
    }
}

/// Whether modification time `a` is no earlier than `b`, an unknown time
/// counting as earlier than every known one.
pub open spec fn no_earlier(a: Option<Timestamp>, b: Option<Timestamp>) -> bool {
    match (a, b) {
        (_, None) => true,
        (None, Some(_)) => false,
        (Some(x), Some(y)) => !y.spec_is_after(x),
    }
}

/// Whether file `a` may stand before file `b` in a report: a higher score, or
/// the same score and a modification time no earlier.
pub open spec fn ranks_no_lower(a: CandidateFile, b: CandidateFile) -> bool {
    a.score > b.score || (a.score == b.score && no_earlier(a.modified_at, b.modified_at))
}

/// Whether the modification time, where known, is an instant `chrono` can hold.
pub open spec fn valid_time(t: Option<Timestamp>) -> bool {
    match t {
        Some(x) => utc_representable(x.spec_secs(), x.spec_nanos()),
        None => true,
    }
}

/// A report lists its files from the highest score down, among equal scores
/// the most recently modified first (a file of unknown time after those with
/// one), and drops none and adds none.
pub proof fn lemma_ranked_files_in_order(files: Seq<CandidateFile>)
    requires
        forall|k: int| 0 <= k < files.len() ==> valid_time(#[trigger] files[k].modified_at),
    ensures
        ranked_files(files).len() == files.len(),
        forall|k: int| 0 <= k < files.len() ==> files.contains(#[trigger] ranked_files(files)[k]),
        forall|i: int, j: int|
            0 <= i < j < files.len() ==> ranks_no_lower(
                #[trigger] ranked_files(files)[i],
                #[trigger] ranked_files(files)[j],
            ),
{
    let key = |f: CandidateFile| file_key(f);
    let keyed = files.map_values(|f: CandidateFile| (file_key(f), f));
    assert(keyed =~= keyed_by(files, key));
    lemma_keyed_pairs(files, key);
    let sorted = sorted_desc(keyed);
    let r = ranked_files(files);
    assert forall|i: int, j: int| 0 <= i < j < files.len() implies ranks_no_lower(
        #[trigger] r[i],
        #[trigger] r[j],
    ) by {
        let a = sorted[i];
        let b = sorted[j];
        assert(r[i] == a.1 && r[j] == b.1);
        assert(!crate::order::key_lt(a.0, b.0));
        assert(a.0 == file_key(a.1) && b.0 == file_key(b.1));
        assert(files.contains(a.1) && files.contains(b.1));
        let ia = choose|m: int| 0 <= m < files.len() && files[m] == a.1;
        let ib = choose|m: int| 0 <= m < files.len() && files[m] == b.1;
        assert(valid_time(files[ia].modified_at) && valid_time(files[ib].modified_at));
        crate::order::lemma_count_parts_order(a.1.score as nat, b.1.score as nat);
    }
}

/// A report keeps at most `MAX_PROCESSES` processes, listed from the highest
/// score down, each one of those it was given.
pub proof fn lemma_ranked_processes_in_order(ps: Seq<CandidateProcess>)
    ensures
        ranked_processes(ps).len() == if ps.len() <= MAX_PROCESSES {
            ps.len()
        } else {
            MAX_PROCESSES as nat
        },
        forall|k: int| 0 <= k < ranked_processes(ps).len() ==> ps.contains(#[trigger] ranked_processes(ps)[k]),
        forall|i: int, j: int|
            0 <= i < j < ranked_processes(ps).len() ==> #[trigger] ranked_processes(ps)[i].score
                >= #[trigger] ranked_processes(ps)[j].score,
{
    let key = |p: CandidateProcess| process_key(p);
    let keyed = ps.map_values(|p: CandidateProcess| (process_key(p), p));
    assert(keyed =~= keyed_by(ps, key));
    lemma_keyed_pairs(ps, key);
    let sorted = sorted_desc(keyed);
    let r = ranked_processes(ps);
    assert forall|i: int, j: int| 0 <= i < j < r.len() implies #[trigger] r[i].score >= #[trigger] r[j].score by {
        let a = sorted[i];
        let b = sorted[j];
        assert(r[i] == a.1 && r[j] == b.1);
        assert(!crate::order::key_lt(a.0, b.0));
        assert(a.0 == process_key(a.1) && b.0 == process_key(b.1));
        crate::order::lemma_count_parts_order(a.1.score as nat, b.1.score as nat);
    }
    assert forall|k: int| 0 <= k < r.len() implies ps.contains(#[trigger] r[k]) by {
        assert(r[k] == sorted[k].1);
    }
}


proof fn lemma_ranked_files_len(files: Seq<CandidateFile>)
    ensures
        ranked_files(files).len() == files.len(),
{
    let key = |f: CandidateFile| file_key(f);
    assert(files.map_values(|f: CandidateFile| (file_key(f), f)) =~= keyed_by(files, key));
    lemma_keyed_pairs(files, key);
}

/// The report of a reconnaissance: the files ranked, the processes ranked and
/// cut, and the advice that depends on whether any file was found.
pub fn assemble_report(
    generated_at: Timestamp,
    roots: Vec<String>,
    scan: FileScan,
    processes: Vec<CandidateProcess>,
    loopback: Vec<LoopbackResult>,
) -> (r: ReconReport)
    ensures
        r.generated_at == generated_at,
        r.roots == roots,
        r.files@ == ranked_files(scan.found()),
        r.files@.len() <= MAX_FILES,
        r.processes@ == ranked_processes(processes@),
        r.processes@.len() <= MAX_PROCESSES,
        r.loopback == loopback,
        r.recommendation@ == spec_recommendation(scan.found().len() > 0),
{
    let files = scan.into_files();
    proof {
        lemma_ranked_files_len(files@);
        lemma_ranked_processes_in_order(processes@);
    }
    let found = files.len() > 0;
    let files = rank_files(files);
    let processes = rank_processes(processes);
    ReconReport { generated_at, roots, files, processes, loopback, recommendation: recommendation(found) }
}

/// The report line of a candidate file.
pub open spec fn file_line(f: CandidateFile) -> Seq<char> {
    "- `"@ + f.path@ + "` — score "@ + decimal_text(f.score as nat) + ", "@ + decimal_text(f.size as nat)
        + " bytes, hits: "@ + joined(string_views(f.hits@), ", "@) + "\n"@
}

/// The report line of a candidate process.
pub open spec fn process_line(p: CandidateProcess) -> Seq<char> {
    "- `"@ + p.name@ + "` — score "@ + decimal_text(p.score as nat) + "\n"@
}

/// The report line of a probed port.
pub open spec fn port_line(l: LoopbackResult) -> Seq<char> {
    "- 127.0.0.1:"@ + decimal_text(l.port as nat) + " — "@ + (if l.reachable {
        "reachable"@
    } else {
        "closed"@
    }) + "\n"@
}

/// The lines of the items, one after the other.
pub open spec fn lines_of<T>(items: Seq<T>, line: spec_fn(T) -> Seq<char>) -> Seq<char>
    decreases items.len(),
{
    if items.len() == 0 {
        Seq::empty()
    } else {
        lines_of(items.drop_last(), line) + line(items.last())
    }
}

/// The Markdown text of a report: its time, the files, the processes, the
/// ports and the advice.
pub open spec fn report_markdown_text(r: ReconReport) -> Seq<char> {
    "# Codex Monitor Recon Report\n\n生成时间："@ + utc_display_text(
        r.generated_at.spec_secs(),
        r.generated_at.spec_nanos(),
    ) + "\n\n> 报告仅来自本机只读抽样，敏感信息已脱敏。\n\n"@ + lines_of(r.files@, |f: CandidateFile| file_line(f))
        + "\n## 候选进程\n\n"@ + lines_of(r.processes@, |p: CandidateProcess| process_line(p))
        + "\n## 本机回环端口\n\n"@ + lines_of(r.loopback@, |l: LoopbackResult| port_line(l))
        + "\n## 建议\n\n"@ + r.recommendation@ + "\n"@
}

/// The report line of a candidate file.
fn file_line_text(f: &CandidateFile) -> (r: String)
    ensures
        r@ == file_line(*f),
{
    let mut line = owned("- `");
    push_text(&mut line, f.path.as_str());
    push_text(&mut line, "` — score ");
    push_text(&mut line, decimal(f.score as u64).as_str());
    push_text(&mut line, ", ");
    push_text(&mut line, decimal(f.size).as_str());
    push_text(&mut line, " bytes, hits: ");
    push_text(&mut line, join_strings(&f.hits, ", ").as_str());
    push_text(&mut line, "\n");
    line
}

/// The report line of a candidate process.
fn process_line_text(p: &CandidateProcess) -> (r: String)
    ensures
        r@ == process_line(*p),
{
    let mut line = owned("- `");
    push_text(&mut line, p.name.as_str());
    push_text(&mut line, "` — score ");
    push_text(&mut line, decimal(p.score as u64).as_str());
    push_text(&mut line, "\n");
    line
}

/// The report line of a probed port.
fn port_line_text(l: &LoopbackResult) -> (r: String)
    ensures
        r@ == port_line(*l),
{
    let mut line = owned("- 127.0.0.1:");
    push_text(&mut line, decimal(l.port as u64).as_str());
    push_text(&mut line, " — ");
    if l.reachable {
        push_text(&mut line, "reachable");
    } else {
        push_text(&mut line, "closed");
    }
    push_text(&mut line, "\n");
    line
}

/// The Markdown text of a report.
pub fn report_markdown(r: &ReconReport) -> (md: String)
    ensures
        md@ == report_markdown_text(*r),
{
    let mut md = owned("# Codex Monitor Recon Report\n\n生成时间：");
    push_text(&mut md, r.generated_at.to_display().as_str());
    push_text(&mut md, "\n\n> 报告仅来自本机只读抽样，敏感信息已脱敏。\n\n");
    let ghost head = md@;
    let mut i: usize = 0;
    while i < r.files.len()
        invariant
            i <= r.files.len(),
            md@ == head + lines_of(r.files@.take(i as int), |f: CandidateFile| file_line(f)),
        decreases r.files.len() - i,
    {
        push_text(&mut md, file_line_text(&r.files[i]).as_str());
        assert(r.files@.take(i + 1).drop_last() =~= r.files@.take(i as int));
        assert(md@ =~= head + lines_of(r.files@.take(i + 1), |f: CandidateFile| file_line(f)));
        i = i + 1;
    }
    assert(r.files@.take(r.files.len() as int) =~= r.files@);
    push_text(&mut md, "\n## 候选进程\n\n");
    let ghost head2 = md@;
    let mut j: usize = 0;
    while j < r.processes.len()
        invariant
            j <= r.processes.len(),
            md@ == head2 + lines_of(r.processes@.take(j as int), |p: CandidateProcess| process_line(p)),
        decreases r.processes.len() - j,
    {
        push_text(&mut md, process_line_text(&r.processes[j]).as_str());
        assert(r.processes@.take(j + 1).drop_last() =~= r.processes@.take(j as int));
        assert(md@ =~= head2 + lines_of(r.processes@.take(j + 1), |p: CandidateProcess| process_line(p)));
        j = j + 1;
    }
    assert(r.processes@.take(r.processes.len() as int) =~= r.processes@);
    push_text(&mut md, "\n## 本机回环端口\n\n");
    let ghost head3 = md@;
    let mut k: usize = 0;
    while k < r.loopback.len()
        invariant
            k <= r.loopback.len(),
            md@ == head3 + lines_of(r.loopback@.take(k as int), |l: LoopbackResult| port_line(l)),
        decreases r.loopback.len() - k,
    {
        push_text(&mut md, port_line_text(&r.loopback[k]).as_str());
        assert(r.loopback@.take(k + 1).drop_last() =~= r.loopback@.take(k as int));
        assert(md@ =~= head3 + lines_of(r.loopback@.take(k + 1), |l: LoopbackResult| port_line(l)));
        k = k + 1;
    }
    assert(r.loopback@.take(r.loopback.len() as int) =~= r.loopback@);
    push_text(&mut md, "\n## 建议\n\n");
    push_text(&mut md, r.recommendation.as_str());
    push_text(&mut md, "\n");
    assert(md@ =~= report_markdown_text(*r));
    md
}

} // verus!
