//! The redacted diagnostic report: structure names and issue codes only,
//! with the user's home hidden.

use vstd::prelude::*;
use crate::candidate::DiagnosticIssue;
use crate::paths::{join_path, path_joined, path_relative_to, strip_path_prefix};
use crate::text::{from_chars, owned, to_chars};

verus! {

/// Whether `c` has the Unicode `White_Space` property, which `char::is_whitespace`
/// and `str::trim` go by.
pub open spec fn is_unicode_space(c: char) -> bool {
    ||| '\u{9}' <= c <= '\u{d}'
    ||| c == ' '
    ||| c == '\u{85}'
    ||| c == '\u{a0}'
    ||| c == '\u{1680}'
    ||| '\u{2000}' <= c <= '\u{200a}'
    ||| c == '\u{2028}'
    ||| c == '\u{2029}'
    ||| c == '\u{202f}'
    ||| c == '\u{205f}'
    ||| c == '\u{3000}'
}

/// `s` without its leading white space.
pub open spec fn trim_start(s: Seq<char>) -> Seq<char>
    decreases s.len(),
{
    if s.len() > 0 && is_unicode_space(s[0]) {
        trim_start(s.drop_first())
    } else {
        s
    }
}

/// `s` without its trailing white space.
pub open spec fn trim_end(s: Seq<char>) -> Seq<char>
    decreases s.len(),
{
    if s.len() > 0 && is_unicode_space(s.last()) {
        trim_end(s.drop_last())
    } else {
        s
    }
}

/// `s` without leading and trailing white space.
pub open spec fn trimmed(s: Seq<char>) -> Seq<char> {
    trim_end(trim_start(s))
}

/// Whether `c` has the Unicode `White_Space` property.
fn is_space(c: char) -> (r: bool)
    ensures
        r == is_unicode_space(c),
{
    ('\u{9}' <= c && c <= '\u{d}') || c == ' ' || c == '\u{85}' || c == '\u{a0}' || c == '\u{1680}'
        || ('\u{2000}' <= c && c <= '\u{200a}') || c == '\u{2028}' || c == '\u{2029}' || c
        == '\u{202f}' || c == '\u{205f}' || c == '\u{3000}'
}

proof fn lemma_trim_start_skip(s: Seq<char>, i: int)
    requires
        0 <= i <= s.len(),
        forall|k: int| 0 <= k < i ==> is_unicode_space(#[trigger] s[k]),
        i < s.len() ==> !is_unicode_space(s[i]),
    ensures
        trim_start(s) == s.skip(i),
    decreases i,
{
    if i == 0 {
        assert(s.skip(0) =~= s);
    } else {
        let t = s.drop_first();
        assert forall|k: int| 0 <= k < i - 1 implies is_unicode_space(#[trigger] t[k]) by {
            assert(t[k] == s[k + 1]);
        }
        if i - 1 < t.len() {
            assert(t[i - 1] == s[i]);
        }
        lemma_trim_start_skip(t, i - 1);
        assert(t.skip(i - 1) =~= s.skip(i));
    }
}

proof fn lemma_trim_end_take(s: Seq<char>, j: int)
    requires
        0 <= j <= s.len(),
        forall|k: int| j <= k < s.len() ==> is_unicode_space(#[trigger] s[k]),
        j > 0 ==> !is_unicode_space(s[j - 1]),
    ensures
        trim_end(s) == s.take(j),
    decreases s.len() - j,
{
    if j == s.len() {
        assert(s.take(j) =~= s);
    } else {
        let t = s.drop_last();
        assert forall|k: int| j <= k < t.len() implies is_unicode_space(#[trigger] t[k]) by {
            assert(t[k] == s[k]);
        }
        if j > 0 {
            assert(t[j - 1] == s[j - 1]);
        }
        lemma_trim_end_take(t, j);
        assert(t.take(j) =~= s.take(j));
    }
}

/// The text without leading and trailing `White_Space` characters (what
/// `str::trim` leaves).
pub(crate) fn trim(s: &str) -> (r: String)
    ensures
        r@ == trimmed(s@),
{
    let chars = to_chars(s);
    let mut i: usize = 0;
    while i < chars.len() && is_space(chars[i])
        invariant
            i <= chars.len(),
            forall|k: int| 0 <= k < i ==> is_unicode_space(#[trigger] chars@[k]),
        decreases chars.len() - i,
    {
        i = i + 1;
    }
    proof {
        lemma_trim_start_skip(chars@, i as int);
    }
    let ghost rest = chars@.skip(i as int);
    let mut j: usize = chars.len();
    while j > i && is_space(chars[j - 1])
        invariant
            i <= j <= chars.len(),
            rest == chars@.skip(i as int),
            forall|k: int| j <= k < chars.len() ==> is_unicode_space(#[trigger] chars@[k]),
        decreases j - i,
    {
        j = j - 1;
    }
    proof {
        assert forall|k: int| j - i <= k < rest.len() implies is_unicode_space(#[trigger] rest[k]) by {
            assert(rest[k] == chars@[k + i]);
        }
        if j > i {
            assert(rest[j - i - 1] == chars@[j - 1]);
        }
        lemma_trim_end_take(rest, j - i);
    }
    let mut out: Vec<char> = Vec::new();
    let mut k: usize = i;
    while k < j
        invariant
            i <= k <= j <= chars.len(),
            out@ == chars@.subrange(i as int, k as int),
        decreases j - k,
    {
        out.push(chars[k]);
        assert(chars@.subrange(i as int, k + 1) =~= chars@.subrange(i as int, k as int).push(chars@[k as int]));
        k = k + 1;
    }
    assert(out@ =~= rest.take(j - i));
    from_chars(&out)
}

/// Whether `c` may stand in a name that the report keeps: an ASCII letter or
/// digit, a dot, an underscore or a hyphen.
pub open spec fn is_safe_char(c: char) -> bool {
    ||| 'a' <= c <= 'z'
    ||| 'A' <= c <= 'Z'
    ||| '0' <= c <= '9'
    ||| c == '.'
    ||| c == '_'
    ||| c == '-'
}

/// Whether a name may be kept in the report: one to 80 safe characters.
pub open spec fn is_safe_name(s: Seq<char>) -> bool {
    &&& 0 < s.len() <= 80
    &&& forall|i: int| 0 <= i < s.len() ==> is_safe_char(#[trigger] s[i])
}

/// What the report keeps of a name: the name without surrounding white space
/// where that is safe, else "redacted". (Safe characters are ASCII, so the
/// limit of 80 holds of characters and bytes alike.)
pub open spec fn spec_safe_name(value: Seq<char>) -> Seq<char> {
    let t = trimmed(value);
    if is_safe_name(t) {
        t
    } else {
        "redacted"@
    }
}

fn is_safe_character(c: char) -> (r: bool)
    ensures
        r == is_safe_char(c),
{
    ('a' <= c && c <= 'z') || ('A' <= c && c <= 'Z') || ('0' <= c && c <= '9') || c == '.' || c
        == '_' || c == '-'
}

/// What the report keeps of a name.
pub fn safe_name(value: &str) -> (r: String)
    ensures
        r@ == spec_safe_name(value@),
{
    let t = trim(value);
    let chars = to_chars(t.as_str());
    let mut all_safe = true;
    let mut i: usize = 0;
    while i < chars.len()
        invariant
            i <= chars.len(),
            chars@ == trimmed(value@),
            all_safe == forall|k: int| 0 <= k < i ==> is_safe_char(#[trigger] chars@[k]),
        decreases chars.len() - i,
    {
        let ok = is_safe_character(chars[i]);
        proof {
            if !ok {
                assert(!is_safe_char(chars@[i as int]));
            }
        }
        all_safe = all_safe && ok;
        i = i + 1;
    }
    if chars.len() > 0 && chars.len() <= 80 && all_safe {
        t
    } else {
        proof {
            if chars@.len() > 0 && chars@.len() <= 80 {
                assert(!all_safe);
            }
        }
        owned("redacted")
    }
}

/// The text that stands for the user's home in a masked path.
pub open spec fn home_marker() -> Seq<char> {
    "%USER_HOME%"@
}

/// How the report shows a path: below the home, as the marker joined with the
/// relative rest; elsewhere, as a safe name (which hides any path with a separator).
pub open spec fn spec_mask_home(path: Seq<char>, home: Seq<char>) -> Seq<char> {
    match path_relative_to(path, home) {
        Some(rel) => path_joined(home_marker(), rel),
        None => spec_safe_name(path),
    }
}

/// How the report shows `path`, given the user's `home`.
pub fn mask_home(path: &str, home: &str) -> (r: String)
    ensures
        r@ == spec_mask_home(path@, home@),
{
    match strip_path_prefix(path, home) {
        Some(rel) => join_path("%USER_HOME%", rel.as_str()),
        None => safe_name(path),
    }
}

/// What the report keeps of each name, in order.
pub fn sanitize_names(values: &Vec<String>) -> (r: Vec<String>)
    ensures
        r@.len() == values@.len(),
        forall|i: int| 0 <= i < values@.len() ==> #[trigger] r@[i]@ == spec_safe_name(values@[i]@),
{
    let mut out: Vec<String> = Vec::new();
    let mut i: usize = 0;
    while i < values.len()
        invariant
            i <= values.len(),
            out@.len() == i,
            forall|k: int| 0 <= k < i ==> #[trigger] out@[k]@ == spec_safe_name(values@[k]@),
        decreases values.len() - i,
    {
        out.push(safe_name(values[i].as_str()));
        i = i + 1;
    }
    out
}

/// A data root as the report describes it: its path and the names of what
/// was found there.
#[derive(Clone, Debug)]
pub struct DiagnosticRoot {
    pub path: String,
    pub evidence: Vec<String>,
    pub tables: Vec<String>,
    pub columns: Vec<String>,
    pub event_types: Vec<String>,
}

/// The diagnostic report: the data roots looked at and the issues met.
#[derive(Clone, Debug)]
pub struct DiagnosticReport {
    pub roots: Vec<DiagnosticRoot>,
    pub issues: Vec<DiagnosticIssue>,
}

impl Default for DiagnosticReport {
    fn default() -> (r: Self)
        ensures
            r.roots@.len() == 0,
            r.issues@.len() == 0,
    {
        DiagnosticReport { roots: Vec::new(), issues: Vec::new() }
    }
}

/// Whether each name of `r` is what the report keeps of the name of `s` at the same place.
pub open spec fn names_redacted(r: Seq<String>, s: Seq<String>) -> bool {
    &&& r.len() == s.len()
    &&& forall|i: int| 0 <= i < s.len() ==> #[trigger] r[i]@ == spec_safe_name(s[i]@)
}

/// Whether `r` is the root `s` as the report shows it, given the user's `home`.
pub open spec fn root_redacted(r: DiagnosticRoot, s: DiagnosticRoot, home: Seq<char>) -> bool {
    &&& r.path@ == spec_mask_home(s.path@, home)
    &&& names_redacted(r.evidence@, s.evidence@)
    &&& names_redacted(r.tables@, s.tables@)
    &&& names_redacted(r.columns@, s.columns@)
    &&& names_redacted(r.event_types@, s.event_types@)
}

/// Whether `r` is the issue `s` with its code and source redacted.
pub open spec fn issue_redacted(r: DiagnosticIssue, s: DiagnosticIssue) -> bool {
    &&& r.code@ == spec_safe_name(s.code@)
    &&& r.source@ == spec_safe_name(s.source@)
}

/// Whether report `r` is report `s` redacted for the user's `home`.
pub open spec fn report_redacted(r: DiagnosticReport, s: DiagnosticReport, home: Seq<char>) -> bool {
    &&& r.roots@.len() == s.roots@.len()
    &&& forall|i: int| 0 <= i < s.roots@.len() ==> root_redacted(#[trigger] r.roots@[i], s.roots@[i], home)
    &&& r.issues@.len() == s.issues@.len()
    &&& forall|i: int| 0 <= i < s.issues@.len() ==> issue_redacted(#[trigger] r.issues@[i], s.issues@[i])
}

fn redact_root(root: &DiagnosticRoot, home: &str) -> (r: DiagnosticRoot)
    ensures
        root_redacted(r, *root, home@),
{
    DiagnosticRoot {
        path: mask_home(root.path.as_str(), home),
        evidence: sanitize_names(&root.evidence),
        tables: sanitize_names(&root.tables),
        columns: sanitize_names(&root.columns),
        event_types: sanitize_names(&root.event_types),
    }
}

impl DiagnosticReport {
    /// The report as it may be stored: paths with the home masked, and every
    /// name, code and issue source kept only where it is safe.
    pub fn redacted_for(&self, home: &str) -> (r: Self)
        ensures
            report_redacted(r, *self, home@),
    {
        let mut roots: Vec<DiagnosticRoot> = Vec::new();
        let mut i: usize = 0;
        while i < self.roots.len()
            invariant
                i <= self.roots.len(),
                roots@.len() == i,
                forall|k: int| 0 <= k < i ==> root_redacted(#[trigger] roots@[k], self.roots@[k], home@),
            decreases self.roots.len() - i,
        {
            roots.push(redact_root(&self.roots[i], home));
            i = i + 1;
        }
        let mut issues: Vec<DiagnosticIssue> = Vec::new();
        let mut j: usize = 0;
        while j < self.issues.len()
            invariant
                j <= self.issues.len(),
                issues@.len() == j,
                forall|k: int| 0 <= k < j ==> issue_redacted(#[trigger] issues@[k], self.issues@[k]),
            decreases self.issues.len() - j,
        {
            let issue = &self.issues[j];
            issues.push(DiagnosticIssue {
                code: safe_name(issue.code.as_str()),
                source: safe_name(issue.source.as_str()),
            });
            j = j + 1;
        }
        DiagnosticReport { roots, issues }
    }
}

/// A safe name has no white space at either end, so trimming keeps it.
proof fn lemma_trim_keeps_safe_name(s: Seq<char>)
    requires
        is_safe_name(s),
    ensures
        trimmed(s) == s,
{
    assert(!is_unicode_space(s[0]));
    assert(trim_start(s) == s);
    assert(!is_unicode_space(s.last()));
}

/// Whatever the name, what the report keeps of it is a safe name: one to 80
/// ASCII letters, digits, dots, underscores or hyphens.
pub proof fn lemma_kept_name_is_safe(value: Seq<char>)
    ensures
        is_safe_name(spec_safe_name(value)),
{
    reveal_strlit("redacted");
}

/// Redacting a kept name again keeps it as it is.
pub proof fn lemma_safe_name_idempotent(value: Seq<char>)
    ensures
        spec_safe_name(spec_safe_name(value)) == spec_safe_name(value),
{
    lemma_kept_name_is_safe(value);
    lemma_trim_keeps_safe_name(spec_safe_name(value));
}

/// A redacted report holds no name, code or issue source that is not a safe
/// name: whatever text the adapters met (tokens, e-mail addresses, paths with
/// separators), only safe names reach the stored report.
pub proof fn lemma_redacted_report_holds_only_safe_names(
    r: DiagnosticReport,
    s: DiagnosticReport,
    home: Seq<char>,
)
    requires
        report_redacted(r, s, home),
    ensures
        forall|i: int, k: int| 0 <= i < r.roots@.len() && 0 <= k < r.roots@[i].evidence@.len()
            ==> is_safe_name(#[trigger] r.roots@[i].evidence@[k]@),
        forall|i: int, k: int| 0 <= i < r.roots@.len() && 0 <= k < r.roots@[i].tables@.len()
            ==> is_safe_name(#[trigger] r.roots@[i].tables@[k]@),
        forall|i: int, k: int| 0 <= i < r.roots@.len() && 0 <= k < r.roots@[i].columns@.len()
            ==> is_safe_name(#[trigger] r.roots@[i].columns@[k]@),
        forall|i: int, k: int| 0 <= i < r.roots@.len() && 0 <= k < r.roots@[i].event_types@.len()
            ==> is_safe_name(#[trigger] r.roots@[i].event_types@[k]@),
        forall|i: int| 0 <= i < r.issues@.len() ==> is_safe_name(#[trigger] r.issues@[i].code@),
        forall|i: int| 0 <= i < r.issues@.len() ==> is_safe_name(#[trigger] r.issues@[i].source@),
{
    assert forall|i: int, k: int| 0 <= i < r.roots@.len() && 0 <= k < r.roots@[i].evidence@.len()
        implies is_safe_name(#[trigger] r.roots@[i].evidence@[k]@) by {
        assert(root_redacted(r.roots@[i], s.roots@[i], home));
        lemma_kept_name_is_safe(s.roots@[i].evidence@[k]@);
    }
    assert forall|i: int, k: int| 0 <= i < r.roots@.len() && 0 <= k < r.roots@[i].tables@.len()
        implies is_safe_name(#[trigger] r.roots@[i].tables@[k]@) by {
        assert(root_redacted(r.roots@[i], s.roots@[i], home));
        lemma_kept_name_is_safe(s.roots@[i].tables@[k]@);
    }
    assert forall|i: int, k: int| 0 <= i < r.roots@.len() && 0 <= k < r.roots@[i].columns@.len()
        implies is_safe_name(#[trigger] r.roots@[i].columns@[k]@) by {
        assert(root_redacted(r.roots@[i], s.roots@[i], home));
        lemma_kept_name_is_safe(s.roots@[i].columns@[k]@);
    }
    assert forall|i: int, k: int|
        0 <= i < r.roots@.len() && 0 <= k < r.roots@[i].event_types@.len() implies is_safe_name(
        #[trigger] r.roots@[i].event_types@[k]@,
    ) by {
        assert(root_redacted(r.roots@[i], s.roots@[i], home));
        lemma_kept_name_is_safe(s.roots@[i].event_types@[k]@);
    }
    assert forall|i: int| 0 <= i < r.issues@.len() implies is_safe_name(#[trigger] r.issues@[i].code@) by {
        assert(issue_redacted(r.issues@[i], s.issues@[i]));
        lemma_kept_name_is_safe(s.issues@[i].code@);
    }
    assert forall|i: int| 0 <= i < r.issues@.len() implies is_safe_name(
        #[trigger] r.issues@[i].source@,
    ) by {
        assert(issue_redacted(r.issues@[i], s.issues@[i]));
        lemma_kept_name_is_safe(s.issues@[i].source@);
    }
}

} // verus!
