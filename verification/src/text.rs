//! Character-level helpers over `str` and `String`.

use vstd::prelude::*;
use vstd::string::StringExecFns;

verus! {

/// Whether two string slices hold the same characters (what `str`'s `==` tells).
pub(crate) fn str_eq(a: &str, b: &str) -> (r: bool)
    ensures
        r == (a@ == b@),
{
    let x = to_chars(a);
    let y = to_chars(b);
    if x.len() != y.len() {
        return false;
    }
    let mut i: usize = 0;
    while i < x.len()
        invariant
            x@ == a@,
            y@ == b@,
            x.len() == y.len(),
            i <= x.len(),
            forall|k: int| 0 <= k < i ==> x@[k] == y@[k],
        decreases x.len() - i,
    {
        if x[i] != y[i] {
            assert(x@[i as int] != y@[i as int]);
            return false;
        }
        i = i + 1;
    }
    assert(x@ =~= y@);
    true
}

/// Appends one character to a `String` with `String::push`.
#[verifier::external_body]
pub(crate) fn push_char(s: &mut String, c: char)
    ensures
        final(s)@ == old(s)@.push(c),
{
    s.push(c)
}

/// The characters of a string slice, in order.
pub fn to_chars(s: &str) -> (r: Vec<char>)
    ensures
        r@ == s@,
{
    let mut out: Vec<char> = Vec::new();
    for c in it: s.chars()
        invariant
            out@ == it.seq().take(it.index() as int),
            it.seq() == s@,
    {
        out.push(c);
    }
    out
}

/// The string made of the given characters, in order.
pub fn from_chars(chars: &Vec<char>) -> (r: String)
    ensures
        r@ == chars@,
{
    let mut out = String::new();
    let mut i: usize = 0;
    while i < chars.len()
        invariant
            i <= chars.len(),
            out@ == chars@.take(i as int),
        decreases chars.len() - i,
    {
        push_char(&mut out, chars[i]);
        assert(chars@.take(i as int).push(chars@[i as int]) =~= chars@.take(i + 1));
        i = i + 1;
    }
    assert(chars@.take(chars.len() as int) =~= chars@);
    out
}

/// A copy of a string slice as an owned `String`.
pub fn owned(s: &str) -> (r: String)
    ensures
        r@ == s@,
{
    s.to_owned()
}

/// The pieces of `s` between occurrences of `sep`, in order, as `str::split`
/// gives them: one more piece than there are separators.
pub open spec fn pieces(s: Seq<char>, sep: char) -> Seq<Seq<char>>
    decreases s.len(),
{
    if s.len() == 0 {
        seq![Seq::<char>::empty()]
    } else {
        let p = pieces(s.drop_last(), sep);
        if s.last() == sep {
            p.push(Seq::<char>::empty())
        } else {
            p.update(p.len() - 1, p.last().push(s.last()))
        }
    }
}

proof fn lemma_pieces_not_empty(s: Seq<char>, sep: char)
    ensures
        pieces(s, sep).len() >= 1,
    decreases s.len(),
{
    if s.len() > 0 {
        lemma_pieces_not_empty(s.drop_last(), sep);
    }
}

/// A line ended by a newline, without a carriage return just before that newline.
pub open spec fn without_cr(line: Seq<char>) -> Seq<char> {
    if line.len() > 0 && line.last() == '\r' {
        line.drop_last()
    } else {
        line
    }
}

/// The lines of `s`, as `str::lines` gives them: split at each newline, a
/// carriage return before a newline dropped, and the last piece kept only
/// where it is not empty.
pub open spec fn text_lines(s: Seq<char>) -> Seq<Seq<char>> {
    let p = pieces(s, '\n');
    let ended = p.drop_last().map_values(|l: Seq<char>| without_cr(l));
    if p.last().len() > 0 {
        ended.push(p.last())
    } else {
        ended
    }
}

fn strip_cr(line: Vec<char>) -> (r: Vec<char>)
    ensures
        r@ == without_cr(line@),
{
    let mut line = line;
    if line.len() > 0 && line[line.len() - 1] == '\r' {
        line.pop();
    }
    line
}

/// The lines of `s`, as `str::lines` gives them.
pub fn split_lines(s: &Vec<char>) -> (r: Vec<Vec<char>>)
    ensures
        r@.map_values(|l: Vec<char>| l@) == text_lines(s@),
{
    let mut done: Vec<Vec<char>> = Vec::new();
    let mut cur: Vec<char> = Vec::new();
    let mut i: usize = 0;
    while i < s.len()
        invariant
            i <= s.len(),
            pieces(s@.take(i as int), '\n').len() >= 1,
            done@.map_values(|l: Vec<char>| l@) == pieces(s@.take(i as int), '\n').drop_last().map_values(
                |l: Seq<char>| without_cr(l),
            ),
            cur@ == pieces(s@.take(i as int), '\n').last(),
        decreases s.len() - i,
    {
        let ghost before = s@.take(i as int);
        let ghost after = s@.take(i + 1);
        assert(after.drop_last() =~= before);
        assert(after.last() == s@[i as int]);
        proof {
            lemma_pieces_not_empty(before, '\n');
            lemma_pieces_not_empty(after, '\n');
        }
        let c = s[i];
        if c == '\n' {
            let mut line: Vec<char> = Vec::new();
            std::mem::swap(&mut line, &mut cur);
            let ghost old_done = done@;
            done.push(strip_cr(line));
            assert(pieces(after, '\n').drop_last() =~= pieces(before, '\n'));
            let ghost pb = pieces(before, '\n');
            assert(pb =~= pb.drop_last().push(pb.last()));
            assert(pb.map_values(|l: Seq<char>| without_cr(l)) =~= pb.drop_last().map_values(
                |l: Seq<char>| without_cr(l),
            ).push(without_cr(pb.last())));
            assert(done@.map_values(|l: Vec<char>| l@) =~= old_done.map_values(|l: Vec<char>| l@).push(
                without_cr(pb.last()),
            ));
            assert(done@.map_values(|l: Vec<char>| l@) =~= pieces(after, '\n').drop_last().map_values(
                |l: Seq<char>| without_cr(l),
            ));
        } else {
            cur.push(c);
            assert(pieces(after, '\n').drop_last() =~= pieces(before, '\n').drop_last());
        }
        i = i + 1;
    }
    assert(s@.take(s.len() as int) =~= s@);
    proof {
        lemma_pieces_not_empty(s@, '\n');
    }
    if cur.len() > 0 {
        let ghost old_done = done@;
        done.push(cur);
        assert(done@.map_values(|l: Vec<char>| l@) =~= old_done.map_values(|l: Vec<char>| l@).push(
            pieces(s@, '\n').last(),
        ));
    }
    done
}

/// `c` with an ASCII capital letter turned into its small letter (`char::to_ascii_lowercase`).
pub open spec fn lower_char(c: char) -> char {
    if 'A' <= c <= 'Z' {
        ((c as u32) + 32) as char
    } else {
        c
    }
}

/// `s` with its ASCII capital letters turned small (`str::to_ascii_lowercase`).
pub open spec fn ascii_lower(s: Seq<char>) -> Seq<char> {
    s.map_values(|c: char| lower_char(c))
}

/// `c` with an ASCII capital letter turned into its small letter.
fn lower_one(c: char) -> (r: char)
    ensures
        r == lower_char(c),
{
    if 'A' <= c && c <= 'Z' {
        let small = ((c as u8) + 32) as char;
        assert(small == ((c as u32) + 32) as char);
        small
    } else {
        c
    }
}

/// The characters of `s` with ASCII capitals turned small.
pub fn lower_chars(s: &Vec<char>) -> (r: Vec<char>)
    ensures
        r@ == ascii_lower(s@),
{
    let mut out: Vec<char> = Vec::new();
    let mut i: usize = 0;
    while i < s.len()
        invariant
            i <= s.len(),
            out@ == ascii_lower(s@.take(i as int)),
        decreases s.len() - i,
    {
        out.push(lower_one(s[i]));
        assert(ascii_lower(s@.take(i + 1)) =~= ascii_lower(s@.take(i as int)).push(lower_char(s@[i as int])));
        i = i + 1;
    }
    assert(s@.take(s.len() as int) =~= s@);
    out
}

/// Whether `s` begins with `p`.
pub open spec fn has_prefix(s: Seq<char>, p: Seq<char>) -> bool {
    p.len() <= s.len() && s.take(p.len() as int) == p
}

/// Whether `s` ends with `p`.
pub open spec fn has_suffix(s: Seq<char>, p: Seq<char>) -> bool {
    p.len() <= s.len() && s.skip(s.len() - p.len()) == p
}

/// Whether `s` begins with `p`.
pub fn starts_with(s: &Vec<char>, p: &str) -> (r: bool)
    ensures
        r == has_prefix(s@, p@),
{
    let pc = to_chars(p);
    if pc.len() > s.len() {
        return false;
    }
    let mut i: usize = 0;
    while i < pc.len()
        invariant
            pc@ == p@,
            pc.len() <= s.len(),
            i <= pc.len(),
            forall|k: int| 0 <= k < i ==> s@[k] == pc@[k],
        decreases pc.len() - i,
    {
        if s[i] != pc[i] {
            assert(s@.take(pc@.len() as int)[i as int] != pc@[i as int]);
            return false;
        }
        i = i + 1;
    }
    assert(s@.take(pc@.len() as int) =~= pc@);
    true
}

/// Whether `s` ends with `p`.
pub fn ends_with(s: &Vec<char>, p: &str) -> (r: bool)
    ensures
        r == has_suffix(s@, p@),
{
    let pc = to_chars(p);
    if pc.len() > s.len() {
        return false;
    }
    let off = s.len() - pc.len();
    let mut i: usize = 0;
    while i < pc.len()
        invariant
            pc@ == p@,
            off == s.len() - pc.len(),
            i <= pc.len(),
            forall|k: int| 0 <= k < i ==> s@[off + k] == pc@[k],
        decreases pc.len() - i,
    {
        if s[off + i] != pc[i] {
            assert(s@.skip(off as int)[i as int] != pc@[i as int]);
            return false;
        }
        i = i + 1;
    }
    assert(s@.skip(off as int) =~= pc@);
    true
}

/// The characters of an optional string.
pub open spec fn opt_view(o: Option<String>) -> Option<Seq<char>> {
    match o {
        Some(s) => Some(s@),
        None => None,
    }
}

/// Appends a string slice to a `String`.
pub fn push_text(s: &mut String, t: &str)
    ensures
        final(s)@ == old(s)@ + t@,
{
    s.append(t);
}

/// The pieces of `s` between occurrences of `sep`, in order (`str::split`).
pub fn split_pieces(s: &Vec<char>, sep: char) -> (r: Vec<Vec<char>>)
    ensures
        r@.map_values(|l: Vec<char>| l@) == pieces(s@, sep),
{
    let mut done: Vec<Vec<char>> = Vec::new();
    let mut cur: Vec<char> = Vec::new();
    let mut i: usize = 0;
    while i < s.len()
        invariant
            i <= s.len(),
            pieces(s@.take(i as int), sep).len() >= 1,
            done@.map_values(|l: Vec<char>| l@) == pieces(s@.take(i as int), sep).drop_last(),
            cur@ == pieces(s@.take(i as int), sep).last(),
        decreases s.len() - i,
    {
        let ghost before = s@.take(i as int);
        let ghost after = s@.take(i + 1);
        assert(after.drop_last() =~= before);
        assert(after.last() == s@[i as int]);
        proof {
            lemma_pieces_not_empty(before, sep);
            lemma_pieces_not_empty(after, sep);
        }
        let c = s[i];
        if c == sep {
            let mut piece: Vec<char> = Vec::new();
            std::mem::swap(&mut piece, &mut cur);
            let ghost old_done = done@;
            done.push(piece);
            let ghost pb = pieces(before, sep);
            assert(pieces(after, sep).drop_last() =~= pb);
            assert(pb =~= pb.drop_last().push(pb.last()));
            assert(done@.map_values(|l: Vec<char>| l@) =~= old_done.map_values(|l: Vec<char>| l@).push(pb.last()));
        } else {
            cur.push(c);
            assert(pieces(after, sep).drop_last() =~= pieces(before, sep).drop_last());
        }
        i = i + 1;
    }
    assert(s@.take(s.len() as int) =~= s@);
    proof {
        lemma_pieces_not_empty(s@, sep);
    }
    let ghost old_done = done@;
    done.push(cur);
    let ghost p = pieces(s@, sep);
    assert(p =~= p.drop_last().push(p.last()));
    assert(done@.map_values(|l: Vec<char>| l@) =~= old_done.map_values(|l: Vec<char>| l@).push(p.last()));
    done
}


/// Whether `needle` occurs in `hay` as a run of consecutive characters
/// (`str::contains` with a string pattern).
pub open spec fn contains_text(hay: Seq<char>, needle: Seq<char>) -> bool {
    exists|i: int| 0 <= i && i + needle.len() <= hay.len() && #[trigger] hay.subrange(i, i + needle.len()) == needle
}

/// Whether `needle` occurs in `hay` at place `at`, compared character by character.
fn occurs_at(hay: &Vec<char>, needle: &Vec<char>, at: usize) -> (r: bool)
    requires
        at + needle.len() <= hay.len(),
    ensures
        r == (hay@.subrange(at as int, at + needle.len()) == needle@),
{
    let mut k: usize = 0;
    while k < needle.len()
        invariant
            at + needle.len() <= hay.len(),
            k <= needle.len(),
            forall|j: int| 0 <= j < k ==> hay@[at + j] == needle@[j],
        decreases needle.len() - k,
    {
        if hay[at + k] != needle[k] {
            assert(hay@.subrange(at as int, at + needle.len())[k as int] != needle@[k as int]);
            return false;
        }
        k = k + 1;
    }
    assert(hay@.subrange(at as int, at + needle.len()) =~= needle@);
    true
}

/// Whether `needle` occurs in `hay`.
pub fn contains_chars(hay: &Vec<char>, needle: &Vec<char>) -> (r: bool)
    ensures
        r == contains_text(hay@, needle@),
{
    if needle.len() > hay.len() {
        return false;
    }
    let last = hay.len() - needle.len();
    let mut i: usize = 0;
    loop
        invariant
            last == hay.len() - needle.len(),
            i <= last,
            forall|j: int| 0 <= j < i ==> #[trigger] hay@.subrange(j, j + needle.len()) != needle@,
        decreases last - i,
    {
        if occurs_at(hay, needle, i) {
            return true;
        }
        if i == last {
            return false;
        }
        i = i + 1;
    }
}

/// `s` cut to its first `n` characters, or all of it where it is shorter
/// (`s.chars().take(n)`).
pub open spec fn first_chars(s: Seq<char>, n: nat) -> Seq<char> {
    if s.len() <= n {
        s
    } else {
        s.take(n as int)
    }
}

/// The pieces joined into one text with `sep` between neighbours (`join`).
pub open spec fn joined(parts: Seq<Seq<char>>, sep: Seq<char>) -> Seq<char>
    decreases parts.len(),
{
    if parts.len() == 0 {
        Seq::empty()
    } else if parts.len() == 1 {
        parts[0]
    } else {
        joined(parts.drop_last(), sep) + sep + parts.last()
    }
}

/// The strings joined into one with `sep` between neighbours (`[String]::join`).
pub fn join_strings(parts: &Vec<String>, sep: &str) -> (r: String)
    ensures
        r@ == joined(parts@.map_values(|p: String| p@), sep@),
{
    let mut out = String::new();
    let mut i: usize = 0;
    while i < parts.len()
        invariant
            i <= parts.len(),
            out@ == joined(parts@.take(i as int).map_values(|p: String| p@), sep@),
        decreases parts.len() - i,
    {
        let ghost before = parts@.take(i as int).map_values(|p: String| p@);
        let ghost after = parts@.take(i + 1).map_values(|p: String| p@);
        assert(after.drop_last() =~= before);
        assert(after.last() == parts@[i as int]@);
        if i > 0 {
            push_text(&mut out, sep);
        }
        push_text(&mut out, parts[i].as_str());
        proof {
            if i == 0 {
                assert(out@ =~= after[0]);
            } else {
                assert(out@ =~= joined(before, sep@) + sep@ + after.last());
            }
        }
        i = i + 1;
    }
    assert(parts@.take(parts.len() as int) =~= parts@);
    out
}


/// The decimal digit for `d` (below ten).
pub open spec fn digit_char(d: nat) -> char {
    if d == 0 { '0' } else if d == 1 { '1' } else if d == 2 { '2' } else if d == 3 { '3' } else if d
        == 4 { '4' } else if d == 5 { '5' } else if d == 6 { '6' } else if d == 7 { '7' } else if d
        == 8 { '8' } else { '9' }
}

/// The decimal numeral of `n`, without leading zeros (what `Display` writes
/// for an unsigned integer).
pub open spec fn decimal_text(n: nat) -> Seq<char>
    decreases n,
{
    if n < 10 {
        seq![digit_char(n)]
    } else {
        decimal_text(n / 10).push(digit_char(n % 10))
    }
}

/// The decimal numeral of `n`.
pub fn decimal(n: u64) -> (r: String)
    ensures
        r@ == decimal_text(n as nat),
    decreases n,
{
    let digits = ['0', '1', '2', '3', '4', '5', '6', '7', '8', '9'];
    if n < 10 {
        let mut s = String::new();
        push_char(&mut s, digits[n as usize]);
        assert(s@ =~= seq![digit_char(n as nat)]);
        s
    } else {
        let mut s = decimal(n / 10);
        push_char(&mut s, digits[(n % 10) as usize]);
        s
    }
}

} // verus!
