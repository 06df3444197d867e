//! Candidate values that the adapters offer for a status field, and the
//! redacted issue codes that they report.

use vstd::prelude::*;
use crate::text::owned;
use crate::time::Timestamp;

verus! {

/// One value for a status field, with where it came from, when it was
/// observed, and how much it is trusted (in thousandths: 900 stands for 0.90).
#[derive(Clone, Debug)]
pub struct FieldCandidate<T> {
    pub value: T,
    pub source: &'static str,
    pub observed_at: Timestamp,
    pub confidence: u16,
}

impl<T> FieldCandidate<T> {
    pub fn new(value: T, source: &'static str, observed_at: Timestamp, confidence: u16) -> (r: Self)
        ensures
            r.value == value,
            r.source == source,
            r.observed_at == observed_at,
            r.confidence == confidence,
    {
        FieldCandidate { value, source, observed_at, confidence }
    }
}

/// What a slot holds after `set_newest` offers it `candidate`: the candidate
/// where the slot is empty or the candidate was observed strictly later, else
/// the slot unchanged (the earlier of two equally new candidates stays).
pub open spec fn newest_of<T>(
    slot: Option<FieldCandidate<T>>,
    candidate: FieldCandidate<T>,
) -> Option<FieldCandidate<T>> {
    match slot {
        None => Some(candidate),
        Some(current) => if candidate.observed_at.spec_is_after(current.observed_at) {
            Some(candidate)
        } else {
            Some(current)
        },
    }
}

/// Keeps in `slot` the newer of its candidate and `candidate`.
pub fn set_newest<T>(slot: &mut Option<FieldCandidate<T>>, candidate: FieldCandidate<T>)
    ensures
        *final(slot) == newest_of(*old(slot), candidate),
{
    let replace = match slot {
        None => true,
        Some(current) => candidate.observed_at.is_after(&current.observed_at),
    };
    if replace {
        *slot = Some(candidate);
    }
}

/// Appends the candidate, if there is one, to the list.
pub fn push_option<T>(target: &mut Vec<FieldCandidate<T>>, value: Option<FieldCandidate<T>>)
    ensures
        final(target)@ == match value {
            Some(v) => old(target)@.push(v),
            None => old(target)@,
        },
{
    if let Some(v) = value {
        target.push(v);
    }
}

/// A problem that an adapter met: a fixed code and the name of what it read.
#[derive(Clone, Debug)]
pub struct DiagnosticIssue {
    pub code: String,
    pub source: String,
}

impl DiagnosticIssue {
    pub fn new(code: &str, source: &str) -> (r: Self)
        ensures
            r.code@ == code@,
            r.source@ == source@,
    {
        DiagnosticIssue { code: owned(code), source: owned(source) }
    }
}

/// What an adapter found, with the issues it met on the way.
#[derive(Clone, Debug)]
pub struct AdapterResult<T> {
    pub value: T,
    pub issues: Vec<DiagnosticIssue>,
}

impl<T> AdapterResult<T> {
    /// A result that holds `value` and no issue.
    pub fn new(value: T) -> (r: Self)
        ensures
            r.value == value,
            r.issues@.len() == 0,
    {
        AdapterResult { value, issues: Vec::new() }
    }
}

/// A value seen for a field and when it was observed.
pub type Seen = Option<(Seq<char>, Timestamp)>;

/// The value and time of a text slot.
pub open spec fn seen_text(slot: Option<FieldCandidate<String>>) -> Seen {
    match slot {
        Some(c) => Some((c.value@, c.observed_at)),
        None => None,
    }
}

/// A slot after a value observed at `at` was offered to it: the value is
/// taken where the slot is empty or the value is strictly newer.
pub open spec fn offer(seen: Seen, value: Option<Seq<char>>, at: Timestamp) -> Seen {
    match value {
        None => seen,
        Some(v) => match seen {
            None => Some((v, at)),
            Some(old) => if at.spec_is_after(old.1) {
                Some((v, at))
            } else {
                seen
            },
        },
    }
}

/// Whether the slot is either kept as it was, or now holds a candidate from
/// `source` with the given confidence that was observed strictly later than
/// the one it held (if it held one).
pub open spec fn kept_or_stamped<T>(
    new: Option<FieldCandidate<T>>,
    old: Option<FieldCandidate<T>>,
    source: Seq<char>,
    confidence: u16,
) -> bool {
    ||| new == old
    ||| new matches Some(c) && c.source@ == source && c.confidence == confidence && (old matches Some(
        o,
    ) ==> c.observed_at.spec_is_after(o.observed_at))
}

/// A slot that was kept or stamped and shows the same time as before (or
/// still nothing) is the slot it was.
pub proof fn lemma_kept_when_time_same<T>(
    new: Option<FieldCandidate<T>>,
    old: Option<FieldCandidate<T>>,
    source: Seq<char>,
    confidence: u16,
)
    requires
        kept_or_stamped(new, old, source, confidence),
        new is Some <==> old is Some,
        new matches Some(n) ==> (old matches Some(o) && n.observed_at == o.observed_at),
    ensures
        new == old,
{
}

/// Keeping or stamping twice is keeping or stamping.
pub proof fn lemma_kept_or_stamped_trans<T>(
    a: Option<FieldCandidate<T>>,
    b: Option<FieldCandidate<T>>,
    c: Option<FieldCandidate<T>>,
    source: Seq<char>,
    confidence: u16,
)
    requires
        kept_or_stamped(b, a, source, confidence),
        kept_or_stamped(c, b, source, confidence),
    ensures
        kept_or_stamped(c, a, source, confidence),
{
}

/// Offers a text value, if any, observed at `at`, as a candidate from
/// `source` with the given confidence.
pub fn offer_text(
    slot: &mut Option<FieldCandidate<String>>,
    value: Option<String>,
    source: &'static str,
    at: Timestamp,
    confidence: u16,
)
    ensures
        seen_text(*final(slot)) == offer(
            seen_text(*old(slot)),
            match value {
                Some(v) => Some(v@),
                None => None,
            },
            at,
        ),
        kept_or_stamped(*final(slot), *old(slot), source@, confidence),
{
    if let Some(v) = value {
        let c = FieldCandidate::new(v, source, at, confidence);
        set_newest(slot, c);
    }
}


/// A slot after the values, each with its observation time, were offered to
/// it in order.
pub open spec fn offered_all(seen: Seen, values: Seq<(Seq<char>, Timestamp)>) -> Seen
    decreases values.len(),
{
    if values.len() == 0 {
        seen
    } else {
        offer(offered_all(seen, values.drop_last()), Some(values.last().0), values.last().1)
    }
}

/// The newest value wins whatever the order of reading: after values are
/// offered to a slot, it holds one of them or what it held, observed no
/// earlier than any of them and than what it held; of equally new values
/// the first one offered stays.
pub proof fn lemma_offered_all_keeps_newest(seen: Seen, values: Seq<(Seq<char>, Timestamp)>)
    ensures
        values.len() > 0 ==> offered_all(seen, values) is Some,
        offered_all(seen, values) matches Some(n) ==> (forall|k: int|
            0 <= k < values.len() ==> !(#[trigger] values[k]).1.spec_is_after(n.1)),
        offered_all(seen, values) matches Some(n) ==> (seen matches Some(o) ==> !o.1.spec_is_after(n.1)),
        offered_all(seen, values) matches Some(n) ==> (seen == Some(n) || exists|k: int|
            0 <= k < values.len() && #[trigger] values[k] == n),
    decreases values.len(),
{
    if values.len() > 0 {
        let p = values.drop_last();
        lemma_offered_all_keeps_newest(seen, p);
        let prev = offered_all(seen, p);
        let n = offered_all(seen, values);
        assert forall|k: int| 0 <= k < values.len() - 1 implies values[k] == p[k] by {}
        match prev {
            Some(pv) => {
                if values.last().1.spec_is_after(pv.1) {
                    assert(n == Some(values.last()));
                    assert(values[values.len() - 1] == values.last());
                } else {
                    assert(n == prev);
                }
            },
            None => {
                assert(n == Some(values.last()));
                assert(values[values.len() - 1] == values.last());
            },
        }
    }
}

} // verus!
