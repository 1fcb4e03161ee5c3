//! Backspace undoes typing: every state reached by typing `n` keys from an
//! empty session is emptied again by `n` backspaces.
//!
//! The argument counts jamo: a syllable block with a trailing consonant
//! weighs 3, one without weighs 2, any other character 1, and a raw
//! composing jamo 1. A key adds at most 1 to that count, and a backspace
//! takes exactly 1 from it until both buffers are empty.

use vstd::prelude::*;
use crate::cluster::{
    clusters_from, clusters_of, collapse_spec, lemma_span_total_cons, lemma_span_total_grows,
    pair_at, span_total, spans_from, spans_of, split_spec, trailing_pair, vowel_pair,
};
use crate::codec::{compose_spec, has_trailing, lemma_round_trip, syllable_parts, trailing_char};
use crate::jamo::{lead_index, syllable_code, trailing_code, trailing_index, vowel_index, SYLLABLE_BASE};
use crate::session::{
    append_spec, backspace_spec, empty_buffers, finalize_spec, longest_prefix, push_jamo_spec,
    lemma_longest_prefix, resyllabify_spec, settle_spec, trailing_syllable, Buffers,
};

verus! {

/// How many jamo a character stands for.
pub open spec fn weight(c: char) -> nat {
    if has_trailing(c) {
        3
    } else if syllable_code(c) {
        2
    } else {
        1
    }
}

/// The summed weight of a sequence of characters.
pub open spec fn weight_sum(s: Seq<char>) -> nat
    decreases s.len(),
{
    if s.len() == 0 {
        0
    } else {
        weight_sum(s.drop_last()) + weight(s.last())
    }
}

/// How many backspaces empty the buffers.
pub open spec fn measure(b: Buffers) -> nat {
    weight_sum(b.committed) + b.composing.len()
}

/// A compound trailing consonant jamo, of either block.
pub open spec fn compound_trailing(c: char) -> bool {
    match trailing_index(c) {
        Some(i) => split_spec(trailing_char(i)).0 is Some,
        None => false,
    }
}

/// A key that typing takes back one backspace at a time: neither a
/// precomposed syllable block nor a compound trailing consonant.
pub open spec fn plain_key(c: char) -> bool {
    !syllable_code(c) && !compound_trailing(c)
}

/// The buffers after typing `keys`, in order, from `b`.
pub open spec fn type_keys(b: Buffers, keys: Seq<char>) -> Buffers
    decreases keys.len(),
{
    if keys.len() == 0 {
        b
    } else {
        append_spec(type_keys(b, keys.drop_last()), keys.last())
    }
}

/// The buffers after `n` backspaces from `b`.
pub open spec fn backspaces(b: Buffers, n: nat) -> Buffers
    decreases n,
{
    if n == 0 {
        b
    } else {
        backspaces(backspace_spec(b), (n - 1) as nat)
    }
}

/// What typing plain keys from an empty session keeps true: the composing
/// buffer holds plain jamo, and while it is empty the committed text does
/// not end in a syllable block.
pub open spec fn typed(b: Buffers) -> bool {
    &&& forall|j: int| 0 <= j < b.composing.len() ==> plain_key(#[trigger] b.composing[j])
    &&& b.composing.len() == 0 ==> (b.committed.len() == 0 || !syllable_code(b.committed.last()))
}

proof fn lemma_weight_sum_push(s: Seq<char>, c: char)
    ensures
        weight_sum(s.push(c)) == weight_sum(s) + weight(c),
{
    assert(s.push(c).drop_last() =~= s);
}

proof fn lemma_weight_sum_concat(s: Seq<char>, t: Seq<char>)
    ensures
        weight_sum(s + t) == weight_sum(s) + weight_sum(t),
    decreases t.len(),
{
    if t.len() == 0 {
        assert(s + t =~= s);
    } else {
        assert((s + t).drop_last() =~= s + t.drop_last());
        lemma_weight_sum_concat(s, t.drop_last());
    }
}

proof fn lemma_weight_sum_len(s: Seq<char>)
    ensures
        weight_sum(s) >= s.len(),
        (forall|j: int| 0 <= j < s.len() ==> !syllable_code(#[trigger] s[j])) ==> weight_sum(s)
            == s.len(),
    decreases s.len(),
{
    if s.len() > 0 {
        lemma_weight_sum_len(s.drop_last());
        if forall|j: int| 0 <= j < s.len() ==> !syllable_code(#[trigger] s[j]) {
            assert forall|j: int| 0 <= j < s.drop_last().len() implies !syllable_code(
                #[trigger] s.drop_last()[j],
            ) by {
                assert(s.drop_last()[j] == s[j]);
            }
            assert(!syllable_code(s[s.len() - 1]));
        }
    }
}

/// A composed syllable block carries the trailing consonant it was
/// composed with, as its compatibility jamo.
proof fn lemma_compose_parts(l: char, v: char, t: Option<char>)
    requires
        compose_spec(l, v, t) is Some,
    ensures
        syllable_code(compose_spec(l, v, t)->Some_0),
        syllable_parts(compose_spec(l, v, t)->Some_0).2 == match t {
            Some(tc) => Some(trailing_char(trailing_index(tc)->Some_0)),
            None => None,
        },
{
    let li = lead_index(l)->Some_0;
    let vi = vowel_index(v)->Some_0;
    let ti: u32 = match t {
        Some(tc) => trailing_index(tc)->Some_0,
        None => 0,
    };
    assert(li < 19);
    assert(vi < 21);
    assert(ti < 28);
    assert(t is Some ==> ti >= 1);
    let code = SYLLABLE_BASE + li * 588 + vi * 28 + ti;
    assert(code <= 0xD7A3);
    let s = compose_spec(l, v, t)->Some_0;
    assert(s == code as char);
    assert((code as char) as u32 == code);
    let o = (li * 588 + vi * 28 + ti) as u32;
    assert(o % 28 == ti) by (nonlinear_arith)
        requires
            o == li * 588 + vi * 28 + ti,
            ti < 28,
    ;
}

/// A cluster scan from position `i`: one span per cluster, each 1 or 2,
/// adding up to the jamo left; over plain jamo no cluster is a syllable
/// block, and a compound trailing cluster spans two jamo.
proof fn lemma_cluster_facts(raw: Seq<char>, i: int)
    requires
        0 <= i <= raw.len(),
    ensures
        spans_from(raw, i).len() == clusters_from(raw, i).len(),
        span_total(spans_from(raw, i), spans_from(raw, i).len() as int) == raw.len() - i,
        forall|k: int|
            0 <= k < spans_from(raw, i).len() ==> 1 <= #[trigger] spans_from(raw, i)[k] <= 2,
        (forall|j: int| i <= j < raw.len() ==> plain_key(#[trigger] raw[j])) ==> forall|k: int|
            0 <= k < clusters_from(raw, i).len() ==> !syllable_code(
                #[trigger] clusters_from(raw, i)[k],
            ) && (compound_trailing(clusters_from(raw, i)[k]) ==> spans_from(raw, i)[k] == 2),
    decreases raw.len() - i,
{
    if i < raw.len() {
        let j = if pair_at(raw, i) is Some {
            i + 2
        } else {
            i + 1
        };
        lemma_cluster_facts(raw, j);
        let sp = spans_from(raw, i);
        let cl = clusters_from(raw, i);
        let rest_sp = spans_from(raw, j);
        let rest_cl = clusters_from(raw, j);
        let x: usize = if pair_at(raw, i) is Some {
            2
        } else {
            1
        };
        let c = if pair_at(raw, i) is Some {
            pair_at(raw, i)->Some_0
        } else {
            raw[i]
        };
        assert(sp == seq![x] + rest_sp);
        assert(cl == seq![c] + rest_cl);
        lemma_span_total_cons(x, rest_sp, rest_sp.len() as int);
        assert forall|k: int| 0 <= k < sp.len() implies 1 <= #[trigger] sp[k] <= 2 by {
            if k > 0 {
                assert(sp[k] == rest_sp[k - 1]);
            }
        }
        if forall|j2: int| i <= j2 < raw.len() ==> plain_key(#[trigger] raw[j2]) {
            assert(forall|j2: int| j <= j2 < raw.len() ==> plain_key(#[trigger] raw[j2]));
            assert(plain_key(raw[i]));
            if pair_at(raw, i) is Some {
                let a = raw[i];
                let b = raw[i + 1];
                assert(!syllable_code(c) && (compound_trailing(c) ==> x == 2)) by {
                    if vowel_pair(a, b) is None {
                        assert(c == trailing_pair(a, b)->Some_0);
                    }
                }
            }
            assert forall|k: int| 0 <= k < cl.len() implies !syllable_code(#[trigger] cl[k]) && (
            compound_trailing(cl[k]) ==> sp[k] == 2) by {
                if k > 0 {
                    assert(cl[k] == rest_cl[k - 1]);
                    assert(sp[k] == rest_sp[k - 1]);
                }
            }
        }
    }
}

/// The character that a collapsing run of plain clusters stands for weighs
/// no more than the run's length.
proof fn lemma_collapse_weight(cl: Seq<char>)
    requires
        collapse_spec(cl) is Some,
        forall|k: int| 0 <= k < cl.len() ==> !syllable_code(#[trigger] cl[k]),
    ensures
        weight(collapse_spec(cl)->Some_0) <= cl.len(),
        cl.len() <= 2 ==> !has_trailing(collapse_spec(cl)->Some_0),
{
    if cl.len() == 1 {
        assert(!syllable_code(cl[0]));
    } else if cl.len() == 2 {
        lemma_compose_parts(cl[0], cl[1], None);
    }
}

/// Settling keeps the composing jamo plain, keeps a non-empty composing
/// buffer non-empty, and does not add to the count.
proof fn lemma_settle_typed(b: Buffers)
    requires
        forall|j: int| 0 <= j < b.composing.len() ==> plain_key(#[trigger] b.composing[j]),
    ensures
        forall|j: int|
            0 <= j < settle_spec(b).composing.len() ==> plain_key(
                #[trigger] settle_spec(b).composing[j],
            ),
        b.composing.len() > 0 ==> settle_spec(b).composing.len() > 0,
        measure(settle_spec(b)) <= measure(b),
    decreases b.composing.len(),
{
    let c = b.composing;
    let cl = clusters_of(c);
    let sp = spans_of(c);
    lemma_cluster_facts(c, 0);
    if collapse_spec(cl) is None {
        let i = longest_prefix(cl, cl.len() - 1);
        let k = span_total(sp, i);
        lemma_longest_prefix(cl, cl.len() - 1);
        if i > 0 {
            lemma_span_total_grows(sp, i, cl.len() as int);
            let s = collapse_spec(cl.take(i))->Some_0;
            assert forall|q: int| 0 <= q < cl.take(i).len() implies !syllable_code(
                #[trigger] cl.take(i)[q],
            ) by {
                assert(cl.take(i)[q] == cl[q]);
            }
            lemma_collapse_weight(cl.take(i));
            let next = Buffers { committed: b.committed.push(s), composing: c.skip(k) };
            assert forall|j: int| 0 <= j < next.composing.len() implies plain_key(
                #[trigger] next.composing[j],
            ) by {
                assert(next.composing[j] == c[j + k]);
            }
            lemma_weight_sum_push(b.committed, s);
            lemma_settle_typed(next);
        }
    }
}

/// Finalizing plain jamo does not add to the count.
proof fn lemma_finalize_typed(b: Buffers)
    requires
        forall|j: int| 0 <= j < b.composing.len() ==> plain_key(#[trigger] b.composing[j]),
    ensures
        measure(finalize_spec(b)) <= measure(b),
{
    let c = b.composing;
    let cl = clusters_of(c);
    let sp = spans_of(c);
    lemma_cluster_facts(c, 0);
    lemma_span_total_grows(sp, 0, sp.len() as int);
    match collapse_spec(cl) {
        Some(s) => {
            lemma_collapse_weight(cl);
            lemma_weight_sum_push(b.committed, s);
        },
        None => {
            lemma_weight_sum_concat(b.committed, cl);
            lemma_weight_sum_len(cl);
        },
    }
}

/// The members of a split trailing consonant: a first member is itself a
/// trailing consonant, and the second is a plain jamo.
proof fn lemma_split_members(i: u32)
    requires
        1 <= i < 28,
    ensures
        split_spec(trailing_char(i)).0 matches Some(f) ==> trailing_code(f),
        plain_key(split_spec(trailing_char(i)).1),
{
}

/// Typing one plain key keeps the buffers `typed` and adds at most 1 to
/// the count.
proof fn lemma_append_typed(b: Buffers, ch: char)
    requires
        typed(b),
        plain_key(ch),
    ensures
        typed(append_spec(b, ch)),
        measure(append_spec(b, ch)) <= measure(b) + 1,
{
    let c = b.composing;
    if crate::jamo::punctuation_code(ch) || !crate::jamo::jamo_code(ch) {
        lemma_finalize_typed(b);
        lemma_weight_sum_push(finalize_spec(b).committed, ch);
    } else if crate::jamo::vowel_code(ch) && trailing_syllable(b) is Some {
        let s = trailing_syllable(b)->Some_0;
        assert(c.len() > 0);
        let cl = clusters_of(c);
        let sp = spans_of(c);
        lemma_cluster_facts(c, 0);
        lemma_collapse_weight(cl);
        assert(cl.len() == 3);
        lemma_compose_parts(cl[0], cl[1], Some(cl[2]));
        lemma_round_trip(s);
        let parts = syllable_parts(s);
        let ti = trailing_index(cl[2])->Some_0;
        lemma_split_members(ti);
        let split = split_spec(parts.2->Some_0);
        lemma_compose_parts(parts.0, parts.1, split.0);
        let base = compose_spec(parts.0, parts.1, split.0)->Some_0;
        lemma_weight_sum_push(b.committed, base);
        lemma_span_total_grows(sp, 2, 3);
        lemma_span_total_grows(sp, 3, sp.len() as int);
        if split.0 is Some {
            assert(compound_trailing(cl[2]));
            assert(sp[2] == 2);
        }
        let r = resyllabify_spec(b, s, ch);
        assert(r.composing[0] == split.1);
        assert(r.composing[1] == ch);
    } else {
        let c1 = c.push(ch);
        let b1 = if c1.len() > crate::session::COMPOSING_CAPACITY {
            Buffers { committed: b.committed.push(c1[0]), composing: c1.skip(1) }
        } else {
            Buffers { committed: b.committed, composing: c1 }
        };
        assert forall|j: int| 0 <= j < b1.composing.len() implies plain_key(
            #[trigger] b1.composing[j],
        ) by {
            if c1.len() > crate::session::COMPOSING_CAPACITY {
                assert(b1.composing[j] == c1[j + 1]);
            }
            if j + 1 < c1.len() {
                assert(c1[j + 1] == c[j + 1] || j + 1 == c.len());
            }
        }
        if c1.len() > crate::session::COMPOSING_CAPACITY {
            assert(plain_key(c1[0]));
            lemma_weight_sum_push(b.committed, c1[0]);
        }
        lemma_settle_typed(b1);
        assert(push_jamo_spec(b, ch) == settle_spec(b1));
    }
}

/// A backspace takes exactly 1 from a positive count; a zero count is an
/// empty session.
proof fn lemma_backspace_count(b: Buffers)
    ensures
        measure(b) == 0 ==> b == empty_buffers(),
        measure(b) > 0 ==> measure(backspace_spec(b)) + 1 == measure(b),
{
    lemma_weight_sum_len(b.committed);
    if measure(b) == 0 {
        assert(b.committed =~= Seq::<char>::empty());
        assert(b.composing =~= Seq::<char>::empty());
    } else if b.composing.len() == 0 {
        let last = b.committed.last();
        assert(weight_sum(b.committed) == weight_sum(b.committed.drop_last()) + weight(last));
    }
}

/// Typing plain keys from an empty session reaches a `typed` state whose
/// count is at most the number of keys.
proof fn lemma_typing_count(keys: Seq<char>)
    requires
        forall|j: int| 0 <= j < keys.len() ==> plain_key(#[trigger] keys[j]),
    ensures
        typed(type_keys(empty_buffers(), keys)),
        measure(type_keys(empty_buffers(), keys)) <= keys.len(),
    decreases keys.len(),
{
    if keys.len() > 0 {
        let init = keys.drop_last();
        assert forall|j: int| 0 <= j < init.len() implies plain_key(#[trigger] init[j]) by {
            assert(init[j] == keys[j]);
        }
        lemma_typing_count(init);
        lemma_append_typed(type_keys(empty_buffers(), init), keys.last());
    } else {
        assert(weight_sum(Seq::<char>::empty()) == 0);
    }
}

/// `n` backspaces empty any session whose count is at most `n`.
proof fn lemma_backspaces_empty(b: Buffers, n: nat)
    requires
        measure(b) <= n,
    ensures
        backspaces(b, n) == empty_buffers(),
    decreases n,
{
    lemma_backspace_count(b);
    if n > 0 {
        if measure(b) == 0 {
            assert(backspace_spec(b) == b);
        }
        lemma_backspaces_empty(backspace_spec(b), (n - 1) as nat);
    }
}

/// Backspace inverts typing: from an empty session, typing any keys that
/// are neither precomposed syllable blocks nor compound trailing consonants
/// and then pressing backspace once per key leaves both buffers empty.
pub proof fn lemma_backspace_undoes_typing(keys: Seq<char>)
    requires
        forall|j: int| 0 <= j < keys.len() ==> plain_key(#[trigger] keys[j]),
    ensures
        backspaces(type_keys(empty_buffers(), keys), keys.len()) == empty_buffers(),
{
    lemma_typing_count(keys);
    lemma_backspaces_empty(type_keys(empty_buffers(), keys), keys.len());
}

} // verus!
