//! Mapping between the short reference id of a reply and its full locator.
//!
//! A locator is read as segments separated by `/`. The reference id is the
//! segment before the last one, so `.../<id>/?context=3` carries `<id>`.
use vstd::prelude::*;

verus! {

/// The character that separates the segments of a locator.
pub const SEPARATOR: char = '/';

/// The locator of a reply, with the segment that holds its reference id left empty.
pub const URL_TEMPLATE: &'static str = "https://old.reddit.com/r/StarVStheForcesofEvil/comments/cll9u5/star_vs_the_forces_of_evil_ask_me_anything//?context=3";

/// Position of the last separator in `s`, or -1 when `s` holds none.
pub open spec fn last_separator(s: Seq<char>) -> int
    decreases s.len(),
{
    if s.len() == 0 {
        -1
    } else if s.last() == SEPARATOR {
        s.len() - 1
    } else {
        last_separator(s.drop_last())
    }
}

/// `s` has at least two segments, so the segment before the last exists.
pub open spec fn has_reference_segment(s: Seq<char>) -> bool {
    last_separator(s) >= 0
}

/// Where the segment before the last begins: just after the separator that
/// precedes the last one, or at the start.
pub open spec fn reference_start(s: Seq<char>) -> int {
    last_separator(s.take(last_separator(s))) + 1
}

/// The segment before the last one.
pub open spec fn reference_segment(s: Seq<char>) -> Seq<char> {
    s.subrange(reference_start(s), last_separator(s))
}

/// `s` with its segment before the last replaced by `id`.
pub open spec fn with_reference_segment(s: Seq<char>, id: Seq<char>) -> Seq<char> {
    s.take(reference_start(s)) + id + s.skip(last_separator(s))
}

/// The locator of the reply with reference id `id`.
pub open spec fn locator_of(id: Seq<char>) -> Seq<char> {
    with_reference_segment(URL_TEMPLATE@, id)
}

/// What `last_separator` finds: a separator with none after it, or -1 where
/// there is none at all.
pub proof fn lemma_last_separator(s: Seq<char>)
    ensures
        -1 <= last_separator(s) < s.len(),
        last_separator(s) >= 0 ==> s[last_separator(s)] == SEPARATOR,
        forall|j: int| last_separator(s) < j < s.len() ==> s[j] != SEPARATOR,
    decreases s.len(),
{
    if s.len() > 0 && s.last() != SEPARATOR {
        let d = s.drop_last();
        lemma_last_separator(d);
        assert forall|j: int| last_separator(s) < j < s.len() implies s[j] != SEPARATOR by {
            if j < d.len() {
                assert(s[j] == d[j]);
            }
        }
    }
}

/// A position that holds a separator with none after it (or -1, with none at
/// all) is the last separator.
pub proof fn lemma_last_separator_at(s: Seq<char>, i: int)
    requires
        i == -1 || (0 <= i < s.len() && s[i] == SEPARATOR),
        forall|j: int| i < j < s.len() ==> s[j] != SEPARATOR,
    ensures
        last_separator(s) == i,
    decreases s.len(),
{
    if s.len() > 0 && s.len() - 1 != i {
        assert(s.last() != SEPARATOR);
        lemma_last_separator_at(s.drop_last(), i);
    }
}

/// The reply locator template has a segment for the reference id.
pub proof fn lemma_template_has_reference_segment()
    ensures
        has_reference_segment(URL_TEMPLATE@),
{
    reveal_strlit(
        "https://old.reddit.com/r/StarVStheForcesofEvil/comments/cll9u5/star_vs_the_forces_of_evil_ask_me_anything//?context=3",
    );
    let t = URL_TEMPLATE@;
    lemma_last_separator(t);
    let k = t.len() - 11;
    assert(t[k] == SEPARATOR);
    if last_separator(t) < 0 {
        assert(last_separator(t) < k);
    }
}

/// Putting an id without separators into a locator and reading it back gives
/// the id: `reference_segment(with_reference_segment(s, id)) == id`.
pub proof fn lemma_reference_round_trip(s: Seq<char>, id: Seq<char>)
    requires
        has_reference_segment(s),
        !id.contains(SEPARATOR),
    ensures
        has_reference_segment(with_reference_segment(s, id)),
        reference_segment(with_reference_segment(s, id)) == id,
{
    let e = last_separator(s);
    lemma_last_separator(s);
    lemma_last_separator(s.take(e));
    let a = reference_start(s);
    let p = s.take(a);
    let w = with_reference_segment(s, id);
    let m = (p.len() + id.len()) as int;
    assert(w[m] == SEPARATOR);
    assert forall|j: int| m < j < w.len() implies w[j] != SEPARATOR by {
        assert(w[j] == s[e + (j - m)]);
    }
    lemma_last_separator_at(w, m);
    let q = w.take(m);
    assert(q =~= p + id);
    if a > 0 {
        assert(q[a - 1] == SEPARATOR);
    }
    assert forall|j: int| a - 1 < j < q.len() implies q[j] != SEPARATOR by {
        assert(q[j] == id[j - a]);
    }
    lemma_last_separator_at(q, a - 1);
    assert(reference_segment(w) =~= id);
}

/// Reading the reference id back from the locator of an id without separators
/// gives that id.
pub proof fn lemma_locator_round_trip(id: Seq<char>)
    requires
        !id.contains(SEPARATOR),
    ensures
        has_reference_segment(locator_of(id)),
        reference_segment(locator_of(id)) == id,
{
    lemma_template_has_reference_segment();
    lemma_reference_round_trip(URL_TEMPLATE@, id);
}

/// Position of the last separator among the first `end` characters of `s`.
fn find_last_separator(s: &str, end: usize) -> (r: Option<usize>)
    requires
        end <= s@.len(),
    ensures
        match r {
            Some(i) => i as int == last_separator(s@.take(end as int)),
            None => last_separator(s@.take(end as int)) == -1,
        },
{
    let mut i: usize = end;
    while i > 0
        invariant
            i <= end <= s@.len(),
            last_separator(s@.take(end as int)) == last_separator(s@.take(i as int)),
        decreases i,
    {
        if s.get_char(i - 1) == SEPARATOR {
            return Some(i - 1);
        }
        assert(s@.take(i as int).drop_last() =~= s@.take(i - 1));
        i = i - 1;
    }
    None
}

/// Whether `s` holds a separator, so that its reference segment exists.
pub fn holds_separator(s: &str) -> (r: bool)
    ensures
        r == has_reference_segment(s@),
{
    let n = s.unicode_len();
    assert(s@.take(n as int) =~= s@);
    find_last_separator(s, n).is_some()
}

/// The locator that `template` gives for `url_id`: `template` with its segment
/// before the last replaced by `url_id`.
pub fn locator_from_template(template: &str, url_id: &str) -> (r: String)
    requires
        has_reference_segment(template@),
    ensures
        r@ == with_reference_segment(template@, url_id@),
{
    let n = template.unicode_len();
    assert(template@.take(n as int) =~= template@);
    let end = match find_last_separator(template, n) {
        Some(e) => e,
        None => 0,
    };
    proof {
        lemma_last_separator(template@);
        lemma_last_separator(template@.take(end as int));
    }
    let start = match find_last_separator(template, end) {
        Some(i) => i + 1,
        None => 0,
    };
    let head = template.substring_char(0, start);
    let tail = template.substring_char(end, n);
    let mut r = String::from_str(head);
    r.append(url_id);
    r.append(tail);
    assert(template@.subrange(0, start as int) =~= template@.take(start as int));
    assert(template@.subrange(end as int, n as int) =~= template@.skip(end as int));
    r
}

/// Forms the full locator of the reply whose reference id is `url_id`.
pub fn get_url(url_id: String) -> (r: String)
    ensures
        r@ == locator_of(url_id@),
{
    proof {
        lemma_template_has_reference_segment();
    }
    locator_from_template(URL_TEMPLATE, url_id.as_str())
}

/// Reads the reference id out of a locator: its segment before the last one.
pub fn get_urlid(url: String) -> (r: String)
    requires
        has_reference_segment(url@),
    ensures
        r@ == reference_segment(url@),
{
    let s = url.as_str();
    let n = s.unicode_len();
    assert(s@.take(n as int) =~= s@);
    let end = match find_last_separator(s, n) {
        Some(e) => e,
        None => 0,
    };
    proof {
        lemma_last_separator(s@);
        lemma_last_separator(s@.take(end as int));
    }
    let start = match find_last_separator(s, end) {
        Some(i) => i + 1,
        None => 0,
    };
    s.substring_char(start, end).to_owned()
}

} // verus!
