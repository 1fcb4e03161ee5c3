//! Merging adjacent jamo into compound vowels and compound trailing
//! consonants, and collapsing a short run of clusters into one syllable.

use vstd::prelude::*;
use crate::codec::{compose, compose_spec};

verus! {

/// The compound vowel that two simple vowels form, if any.
pub open spec fn vowel_pair(a: char, b: char) -> Option<char> {
    if a == 'ㅗ' && b == 'ㅏ' {
        Some('ㅘ')
    } else if a == 'ㅗ' && b == 'ㅐ' {
        Some('ㅙ')
    } else if a == 'ㅗ' && b == 'ㅣ' {
        Some('ㅚ')
    } else if a == 'ㅜ' && b == 'ㅓ' {
        Some('ㅝ')
    } else if a == 'ㅜ' && b == 'ㅔ' {
        Some('ㅞ')
    } else if a == 'ㅜ' && b == 'ㅣ' {
        Some('ㅟ')
    } else if a == 'ㅡ' && b == 'ㅣ' {
        Some('ㅢ')
    } else {
        None
    }
}

/// The compound trailing consonant that two simple consonants form, if any.
pub open spec fn trailing_pair(a: char, b: char) -> Option<char> {
    if a == 'ㄱ' && b == 'ㅅ' {
        Some('ㄳ')
    } else if a == 'ㄴ' && b == 'ㅈ' {
        Some('ㄵ')
    } else if a == 'ㄴ' && b == 'ㅎ' {
        Some('ㄶ')
    } else if a == 'ㄹ' && b == 'ㄱ' {
        Some('ㄺ')
    } else if a == 'ㄹ' && b == 'ㅁ' {
        Some('ㄻ')
    } else if a == 'ㄹ' && b == 'ㅂ' {
        Some('ㄼ')
    } else if a == 'ㄹ' && b == 'ㅅ' {
        Some('ㄽ')
    } else if a == 'ㄹ' && b == 'ㅌ' {
        Some('ㄾ')
    } else if a == 'ㄹ' && b == 'ㅍ' {
        Some('ㄿ')
    } else if a == 'ㄹ' && b == 'ㅎ' {
        Some('ㅀ')
    } else if a == 'ㅂ' && b == 'ㅅ' {
        Some('ㅄ')
    } else {
        None
    }
}

/// A trailing consonant as (first, second): the two members of a compound,
/// or (none, itself) for any other character.
pub open spec fn split_spec(t: char) -> (Option<char>, char) {
    if t == 'ㄳ' {
        (Some('ㄱ'), 'ㅅ')
    } else if t == 'ㄵ' {
        (Some('ㄴ'), 'ㅈ')
    } else if t == 'ㄶ' {
        (Some('ㄴ'), 'ㅎ')
    } else if t == 'ㄺ' {
        (Some('ㄹ'), 'ㄱ')
    } else if t == 'ㄻ' {
        (Some('ㄹ'), 'ㅁ')
    } else if t == 'ㄼ' {
        (Some('ㄹ'), 'ㅂ')
    } else if t == 'ㄽ' {
        (Some('ㄹ'), 'ㅅ')
    } else if t == 'ㄾ' {
        (Some('ㄹ'), 'ㅌ')
    } else if t == 'ㄿ' {
        (Some('ㄹ'), 'ㅍ')
    } else if t == 'ㅀ' {
        (Some('ㄹ'), 'ㅎ')
    } else if t == 'ㅄ' {
        (Some('ㅂ'), 'ㅅ')
    } else {
        (None, t)
    }
}

/// The compound that starts at position `i` of `raw`: a vowel pair is tried
/// before a trailing pair.
pub open spec fn pair_at(raw: Seq<char>, i: int) -> Option<char> {
    if 0 <= i && i + 1 < raw.len() {
        match vowel_pair(raw[i], raw[i + 1]) {
            Some(v) => Some(v),
            None => trailing_pair(raw[i], raw[i + 1]),
        }
    } else {
        None
    }
}

/// The clusters of `raw` from position `i` on, merged greedily left to right.
pub open spec fn clusters_from(raw: Seq<char>, i: int) -> Seq<char>
    decreases raw.len() - i,
{
    if i < 0 || i >= raw.len() {
        Seq::empty()
    } else {
        match pair_at(raw, i) {
            Some(c) => seq![c] + clusters_from(raw, i + 2),
            None => seq![raw[i]] + clusters_from(raw, i + 1),
        }
    }
}

/// How many raw jamo each cluster of `clusters_from(raw, i)` consumed.
pub open spec fn spans_from(raw: Seq<char>, i: int) -> Seq<usize>
    decreases raw.len() - i,
{
    if i < 0 || i >= raw.len() {
        Seq::empty()
    } else {
        match pair_at(raw, i) {
            Some(c) => seq![2usize] + spans_from(raw, i + 2),
            None => seq![1usize] + spans_from(raw, i + 1),
        }
    }
}

/// The clusters of a whole raw sequence.
pub open spec fn clusters_of(raw: Seq<char>) -> Seq<char> {
    clusters_from(raw, 0)
}

/// The spans of the clusters of a whole raw sequence.
pub open spec fn spans_of(raw: Seq<char>) -> Seq<usize> {
    spans_from(raw, 0)
}

/// The one character that a run of clusters stands for: a single cluster
/// as it is, two or three as a syllable block, anything else nothing.
pub open spec fn collapse_spec(cl: Seq<char>) -> Option<char> {
    if cl.len() == 1 {
        Some(cl[0])
    } else if cl.len() == 2 {
        compose_spec(cl[0], cl[1], None)
    } else if cl.len() == 3 {
        compose_spec(cl[0], cl[1], Some(cl[2]))
    } else {
        None
    }
}

/// The sum of the first `n` spans.
pub open spec fn span_total(sp: Seq<usize>, n: int) -> int
    decreases n,
{
    if n <= 0 {
        0
    } else {
        span_total(sp, n - 1) + sp[n - 1]
    }
}

pub(crate) proof fn lemma_span_total_cons(x: usize, s: Seq<usize>, n: int)
    requires
        0 <= n <= s.len(),
    ensures
        span_total(seq![x] + s, n + 1) == x + span_total(s, n),
    decreases n,
{
    if n > 0 {
        lemma_span_total_cons(x, s, n - 1);
        assert((seq![x] + s)[n] == s[n - 1]);
    } else {
        assert((seq![x] + s)[0] == x);
        assert(span_total(seq![x] + s, 0) == 0);
        assert(span_total(s, 0) == 0);
    }
}

/// Prefix sums of spans grow by at least 1 per span.
pub(crate) proof fn lemma_span_total_grows(sp: Seq<usize>, n: int, m: int)
    requires
        0 <= n <= m <= sp.len(),
        forall|k: int| 0 <= k < sp.len() ==> 1 <= #[trigger] sp[k] <= 2,
    ensures
        span_total(sp, n) + (m - n) <= span_total(sp, m),
        span_total(sp, m) <= 2 * m,
        span_total(sp, n) >= n,
    decreases m,
{
    if m > 0 {
        if n < m {
            lemma_span_total_grows(sp, n, m - 1);
        } else {
            lemma_span_total_grows(sp, n - 1, m - 1);
        }
    }
}

/// A cluster scan has one span per cluster, each of them 1 or 2, adding up
/// to the number of raw jamo scanned.
pub(crate) proof fn lemma_spans(raw: Seq<char>, i: int)
    requires
        0 <= i <= raw.len(),
    ensures
        spans_from(raw, i).len() == clusters_from(raw, i).len(),
        span_total(spans_from(raw, i), spans_from(raw, i).len() as int) == raw.len() - i,
        forall|k: int|
            0 <= k < spans_from(raw, i).len() ==> 1 <= #[trigger] spans_from(raw, i)[k] <= 2,
    decreases raw.len() - i,
{
    if i < raw.len() {
        let j = if pair_at(raw, i) is Some {
            i + 2
        } else {
            i + 1
        };
        lemma_spans(raw, j);
        let sp = spans_from(raw, i);
        let rest = spans_from(raw, j);
        let x: usize = if pair_at(raw, i) is Some {
            2
        } else {
            1
        };
        assert(sp == seq![x] + rest);
        lemma_span_total_cons(x, rest, rest.len() as int);
        assert forall|k: int| 0 <= k < sp.len() implies 1 <= #[trigger] sp[k] <= 2 by {
            if k > 0 {
                assert(sp[k] == rest[k - 1]);
            }
        }
    }
}

/// Fuses two simple vowels into a compound vowel, if they form one.
pub fn combine_vowels(a: char, b: char) -> (r: Option<char>)
    ensures
        r == vowel_pair(a, b),
{
    match (a, b) {
        ('ㅗ', 'ㅏ') => Some('ㅘ'),
        ('ㅗ', 'ㅐ') => Some('ㅙ'),
        ('ㅗ', 'ㅣ') => Some('ㅚ'),
        ('ㅜ', 'ㅓ') => Some('ㅝ'),
        ('ㅜ', 'ㅔ') => Some('ㅞ'),
        ('ㅜ', 'ㅣ') => Some('ㅟ'),
        ('ㅡ', 'ㅣ') => Some('ㅢ'),
        _ => None,
    }
}

/// Fuses two simple trailing consonants into a compound, if they form one.
pub fn combine_trailing(a: char, b: char) -> (r: Option<char>)
    ensures
        r == trailing_pair(a, b),
{
    match (a, b) {
        ('ㄱ', 'ㅅ') => Some('ㄳ'),
        ('ㄴ', 'ㅈ') => Some('ㄵ'),
        ('ㄴ', 'ㅎ') => Some('ㄶ'),
        ('ㄹ', 'ㄱ') => Some('ㄺ'),
        ('ㄹ', 'ㅁ') => Some('ㄻ'),
        ('ㄹ', 'ㅂ') => Some('ㄼ'),
        ('ㄹ', 'ㅅ') => Some('ㄽ'),
        ('ㄹ', 'ㅌ') => Some('ㄾ'),
        ('ㄹ', 'ㅍ') => Some('ㄿ'),
        ('ㄹ', 'ㅎ') => Some('ㅀ'),
        ('ㅂ', 'ㅅ') => Some('ㅄ'),
        _ => None,
    }
}

/// Splits a trailing consonant into (first, second): a compound into its
/// two members, anything else into (none, itself).
pub fn split_trailing(t: char) -> (r: (Option<char>, char))
    ensures
        r == split_spec(t),
{
    match t {
        'ㄳ' => (Some('ㄱ'), 'ㅅ'),
        'ㄵ' => (Some('ㄴ'), 'ㅈ'),
        'ㄶ' => (Some('ㄴ'), 'ㅎ'),
        'ㄺ' => (Some('ㄹ'), 'ㄱ'),
        'ㄻ' => (Some('ㄹ'), 'ㅁ'),
        'ㄼ' => (Some('ㄹ'), 'ㅂ'),
        'ㄽ' => (Some('ㄹ'), 'ㅅ'),
        'ㄾ' => (Some('ㄹ'), 'ㅌ'),
        'ㄿ' => (Some('ㄹ'), 'ㅍ'),
        'ㅀ' => (Some('ㄹ'), 'ㅎ'),
        'ㅄ' => (Some('ㅂ'), 'ㅅ'),
        _ => (None, t),
    }
}

/// Scans `raw` left to right, merging each adjacent pair that forms a
/// compound vowel or compound trailing consonant; returns the clusters and
/// how many raw jamo each consumed.
pub fn cluster(raw: &[char]) -> (r: (Vec<char>, Vec<usize>))
    ensures
        r.0@ == clusters_of(raw@),
        r.1@ == spans_of(raw@),
{
    let mut clusters: Vec<char> = Vec::new();
    let mut spans: Vec<usize> = Vec::new();
    let mut i: usize = 0;
    while i < raw.len()
        invariant
            i <= raw@.len(),
            clusters@ + clusters_from(raw@, i as int) == clusters_of(raw@),
            spans@ + spans_from(raw@, i as int) == spans_of(raw@),
        decreases raw@.len() - i,
    {
        let mut merged: Option<char> = None;
        if i + 1 < raw.len() {
            merged = combine_vowels(raw[i], raw[i + 1]);
            if merged.is_none() {
                merged = combine_trailing(raw[i], raw[i + 1]);
            }
        }
        assert(merged == pair_at(raw@, i as int));
        match merged {
            Some(c) => {
                proof {
                    assert(clusters_from(raw@, i as int) == seq![c] + clusters_from(raw@, i + 2));
                    assert(spans_from(raw@, i as int) == seq![2usize] + spans_from(raw@, i + 2));
                    assert(clusters@.push(c) + clusters_from(raw@, i + 2) =~= clusters@ + (seq![c]
                        + clusters_from(raw@, i + 2)));
                    assert(spans@.push(2usize) + spans_from(raw@, i + 2) =~= spans@ + (seq![2usize]
                        + spans_from(raw@, i + 2)));
                }
                clusters.push(c);
                spans.push(2);
                i = i + 2;
            },
            None => {
                proof {
                    assert(clusters_from(raw@, i as int) == seq![raw@[i as int]] + clusters_from(
                        raw@,
                        i + 1,
                    ));
                    assert(spans_from(raw@, i as int) == seq![1usize] + spans_from(raw@, i + 1));
                    assert(clusters@.push(raw@[i as int]) + clusters_from(raw@, i + 1) =~= clusters@
                        + (seq![raw@[i as int]] + clusters_from(raw@, i + 1)));
                    assert(spans@.push(1usize) + spans_from(raw@, i + 1) =~= spans@ + (seq![1usize]
                        + spans_from(raw@, i + 1)));
                }
                clusters.push(raw[i]);
                spans.push(1);
                i = i + 1;
            },
        }
    }
    proof {
        assert(clusters@ =~= clusters@ + clusters_from(raw@, i as int));
        assert(spans@ =~= spans@ + spans_from(raw@, i as int));
    }
    (clusters, spans)
}

/// The first `n` clusters as one character, as `collapse_spec` says.
pub(crate) fn collapse_prefix(cl: &[char], n: usize) -> (r: Option<char>)
    requires
        n <= cl@.len(),
    ensures
        r == collapse_spec(cl@.take(n as int)),
{
    if n == 1 {
        Some(cl[0])
    } else if n == 2 {
        match compose(cl[0], cl[1], None) {
            Ok(s) => Some(s),
            Err(_) => None,
        }
    } else if n == 3 {
        match compose(cl[0], cl[1], Some(cl[2])) {
            Ok(s) => Some(s),
            Err(_) => None,
        }
    } else {
        None
    }
}

/// Collapses one to three clusters into a single character: one cluster as
/// it is, two or three as a syllable block when they compose; otherwise
/// nothing.
pub fn collapse(clusters: &[char]) -> (r: Option<char>)
    ensures
        r == collapse_spec(clusters@),
{
    proof {
        assert(clusters@.take(clusters@.len() as int) =~= clusters@);
    }
    collapse_prefix(clusters, clusters.len())
}

} // verus!
