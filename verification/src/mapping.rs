//! Field mappings: rules that say where in a data directory a status field
//! can be read, checked to stay inside that directory.

use vstd::prelude::*;
use crate::json::{json_member, json_member_at, json_node_item, json_parses, json_error_text, json_root, parse_json_reporting, JsonItem, JsonModel};
use crate::paths::{has_parent_component, is_absolute_path, join_path, path_absolute, path_climbs, path_joined};
use crate::text::{has_prefix, owned, pieces, push_text, split_pieces, starts_with, to_chars, from_chars};

verus! {

/// Where one status field is read: its name, the provider (`file` or `log`),
/// the path relative to the data directory, the selector inside it, and a
/// factor for numbers.
#[derive(Clone, Debug)]
pub struct FieldRule<S> {
    pub field: String,
    pub provider: String,
    pub relative_path: String,
    pub selector: String,
    pub scale: Option<S>,
}

/// The rules for all fields, with the data directory they are relative to.
#[derive(Clone, Debug)]
pub struct FieldMapping<S> {
    pub base_directory: Option<String>,
    pub rules: Vec<FieldRule<S>>,
}

/// Whether a relative path stays inside the directory it is joined to: it is
/// not absolute and has no `..` component.
pub open spec fn safe_relative(path: Seq<char>) -> bool {
    !path_absolute(path) && !path_climbs(path)
}

/// Whether every rule's path is safe.
pub open spec fn all_rules_safe<S>(rules: Seq<FieldRule<S>>) -> bool {
    forall|i: int| 0 <= i < rules.len() ==> safe_relative(#[trigger] rules[i].relative_path@)
}

/// The message for a mapping with an unsafe path.
pub open spec fn unsafe_path_message() -> Seq<char> {
    "relativePath 只能是安全的相对路径"@
}

impl<S> FieldMapping<S> {
    /// The mapping itself where every rule's path is safe; else the error
    /// that a relative path must be safe.
    pub fn validated(self) -> (r: Result<Self, String>)
        ensures
            all_rules_safe(self.rules@) ==> r == Ok::<Self, String>(self),
            !all_rules_safe(self.rules@) ==> (r matches Err(m) && m@ == unsafe_path_message()),
    {
        let mut i: usize = 0;
        while i < self.rules.len()
            invariant
                i <= self.rules.len(),
                forall|j: int| 0 <= j < i ==> safe_relative(#[trigger] self.rules@[j].relative_path@),
            decreases self.rules.len() - i,
        {
            let p = self.rules[i].relative_path.as_str();
            if is_absolute_path(p) || has_parent_component(p) {
                return Err(owned("relativePath 只能是安全的相对路径"));
            }
            i = i + 1;
        }
        Ok(self)
    }
}

/// The file that a rule reads: its relative path joined to the data directory.
pub fn rule_file<S>(base: &str, rule: &FieldRule<S>) -> (r: String)
    ensures
        r@ == path_joined(base@, rule.relative_path@),
{
    join_path(base, rule.relative_path.as_str())
}

/// `s` without every leading copy of `p` (`str::trim_start_matches`).
pub open spec fn without_leading(s: Seq<char>, p: Seq<char>) -> Seq<char>
    decreases s.len(),
{
    if p.len() > 0 && has_prefix(s, p) {
        without_leading(s.skip(p.len() as int), p)
    } else {
        s
    }
}

/// The keys of a selector: without its leading `$.`, split at dots.
pub open spec fn selector_keys(selector: Seq<char>) -> Seq<Seq<char>> {
    pieces(without_leading(selector, "$."@), '.')
}

/// The keys of a selector.
pub fn selector_parts(selector: &str) -> (r: Vec<String>)
    ensures
        r@.map_values(|k: String| k@) == selector_keys(selector@),
{
    proof {
        reveal_strlit("$.");
    }
    let mut rest = to_chars(selector);
    while starts_with(&rest, "$.")
        invariant
            without_leading(rest@, "$."@) == without_leading(selector@, "$."@),
            "$."@ == seq!['$', '.'],
        decreases rest.len(),
    {
        let mut next: Vec<char> = Vec::new();
        let mut k: usize = 2;
        while k < rest.len()
            invariant
                2 <= rest.len(),
                2 <= k <= rest.len(),
                next@ == rest@.subrange(2, k as int),
            decreases rest.len() - k,
        {
            next.push(rest[k]);
            assert(rest@.subrange(2, k + 1) =~= rest@.subrange(2, k as int).push(rest@[k as int]));
            k = k + 1;
        }
        assert(next@ =~= rest@.skip(2));
        rest = next;
    }
    let parts = split_pieces(&rest, '.');
    let mut out: Vec<String> = Vec::new();
    let mut i: usize = 0;
    while i < parts.len()
        invariant
            i <= parts.len(),
            out@.map_values(|k: String| k@) == parts@.take(i as int).map_values(|l: Vec<char>| l@),
        decreases parts.len() - i,
    {
        out.push(from_chars(&parts[i]));
        assert(parts@.take(i + 1).map_values(|l: Vec<char>| l@) =~= parts@.take(i as int).map_values(
            |l: Vec<char>| l@,
        ).push(parts@[i as int]@));
        assert(out@.map_values(|k: String| k@) =~= parts@.take(i as int).map_values(|l: Vec<char>| l@).push(
            parts@[i as int]@,
        ));
        i = i + 1;
    }
    assert(parts@.take(parts.len() as int) =~= parts@);
    out
}

/// The message for a selector that reaches nothing.
pub open spec fn missing_path_message(selector: Seq<char>) -> Seq<char> {
    "字段路径不存在: "@ + selector
}

/// What a `file` rule reads from the content of its file: the parse error
/// where the content is not JSON; else the value its selector's keys reach
/// one member at a time, or the error that the path does not exist.
pub open spec fn json_selection(content: Seq<u8>, selector: Seq<char>) -> Result<JsonModel, Seq<char>> {
    if !json_parses(content) {
        Err(json_error_text(content))
    } else {
        match json_member_at(content, selector_keys(selector)) {
            Some(m) => Ok(m),
            None => Err(missing_path_message(selector)),
        }
    }
}

/// The value that a `file` rule selects from the content of its file.
pub fn read_json_value<S>(content: &[u8], rule: &FieldRule<S>) -> (r: Result<JsonItem, String>)
    ensures
        match json_selection(content@, rule.selector@) {
            Ok(m) => r matches Ok(item) && item@ == m,
            Err(e) => r matches Err(x) && x@ == e,
        },
{
    let doc = match parse_json_reporting(content) {
        Ok(d) => d,
        Err(e) => return Err(e),
    };
    let keys = selector_parts(rule.selector.as_str());
    let ghost ks = keys@.map_values(|k: String| k@);
    let mut node = json_root(&doc);
    assert(ks.take(0) =~= Seq::<Seq<char>>::empty());
    let mut i: usize = 0;
    while i < keys.len()
        invariant
            i <= keys.len(),
            ks == keys@.map_values(|k: String| k@),
            ks == selector_keys(rule.selector@),
            node.source() == content@,
            node.keys() == ks.take(i as int),
            json_member_at(content@, ks.take(i as int)) is Some,
            json_parses(content@),
        decreases keys.len() - i,
    {
        assert(ks.take(i + 1) =~= ks.take(i as int).push(keys@[i as int]@));
        match json_member(&node, keys[i].as_str()) {
            Some(n) => {
                node = n;
            },
            None => {
                assert(ks =~= ks.take(i + 1) + ks.skip(i + 1));
                assert(json_member_at(content@, node.keys().push(keys@[i as int]@) + ks.skip(i + 1)) is None);
                let mut msg = owned("字段路径不存在: ");
                push_text(&mut msg, rule.selector.as_str());
                return Err(msg);
            },
        }
        i = i + 1;
    }
    assert(ks.take(keys.len() as int) =~= ks);
    Ok(json_node_item(&node))
}

} // verus!
