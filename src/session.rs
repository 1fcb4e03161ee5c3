//! The composition session: a committed buffer of finalized text and a
//! composing buffer of raw jamo, driven one input event at a time.

use vstd::prelude::*;
use crate::cluster::{
    cluster, clusters_of, collapse, collapse_prefix, collapse_spec, lemma_span_total_grows,
    lemma_spans, span_total, spans_of, split_spec, split_trailing,
};
use crate::codec::{compose, compose_spec, decompose, has_trailing, lemma_round_trip, syllable_parts};
use crate::jamo::{is_jamo, is_punctuation, is_vowel, jamo_code, punctuation_code, vowel_code};

verus! {

/// The most raw jamo the composing buffer holds.
pub const COMPOSING_CAPACITY: usize = 5;

/// The two buffers of a session, as sequences.
pub struct Buffers {
    pub committed: Seq<char>,
    pub composing: Seq<char>,
}

/// The composing buffer never holds more than its capacity.
pub open spec fn buffers_wf(b: Buffers) -> bool {
    b.composing.len() <= COMPOSING_CAPACITY
}

/// Two empty buffers.
pub open spec fn empty_buffers() -> Buffers {
    Buffers { committed: Seq::empty(), composing: Seq::empty() }
}

/// The composing buffer moved into the committed one: as one character when
/// its clusters collapse, else cluster by cluster.
pub open spec fn finalize_spec(b: Buffers) -> Buffers {
    let cl = clusters_of(b.composing);
    Buffers {
        committed: match collapse_spec(cl) {
            Some(s) => b.committed.push(s),
            None => b.committed + cl,
        },
        composing: Seq::empty(),
    }
}

/// The longest prefix length in `1..=n` whose clusters collapse, or 0.
pub open spec fn longest_prefix(cl: Seq<char>, n: int) -> int
    decreases n,
{
    if n <= 0 {
        0
    } else if collapse_spec(cl.take(n)) is Some {
        n
    } else {
        longest_prefix(cl, n - 1)
    }
}

/// Commits, from the front of the composing buffer, the longest cluster
/// prefix that collapses, for as long as the whole buffer does not.
pub open spec fn settle_spec(b: Buffers) -> Buffers
    decreases b.composing.len() via settle_spec_decreases
{
    let cl = clusters_of(b.composing);
    if collapse_spec(cl) is Some {
        b
    } else {
        let i = longest_prefix(cl, cl.len() - 1);
        let k = span_total(spans_of(b.composing), i);
        if i == 0 {
            b
        } else {
            settle_spec(
                Buffers {
                    committed: b.committed.push(collapse_spec(cl.take(i))->Some_0),
                    composing: b.composing.skip(k),
                },
            )
        }
    }
}

/// A settling step commits a prefix of at least one cluster, and so drops
/// at least one raw jamo, yet leaves some.
proof fn lemma_settle_step(b: Buffers)
    requires
        collapse_spec(clusters_of(b.composing)) is None,
        longest_prefix(clusters_of(b.composing), clusters_of(b.composing).len() - 1) > 0,
    ensures
        0 < span_total(
            spans_of(b.composing),
            longest_prefix(clusters_of(b.composing), clusters_of(b.composing).len() - 1),
        ) < b.composing.len(),
        collapse_spec(
            clusters_of(b.composing).take(
                longest_prefix(clusters_of(b.composing), clusters_of(b.composing).len() - 1),
            ),
        ) is Some,
{
    let cl = clusters_of(b.composing);
    let sp = spans_of(b.composing);
    lemma_spans(b.composing, 0);
    lemma_longest_prefix(cl, cl.len() - 1);
    let i = longest_prefix(cl, cl.len() - 1);
    lemma_span_total_grows(sp, i, sp.len() as int);
}

#[via_fn]
proof fn settle_spec_decreases(b: Buffers) {
    let cl = clusters_of(b.composing);
    let i = longest_prefix(cl, cl.len() - 1);
    let k = span_total(spans_of(b.composing), i);
    lemma_longest_prefix(cl, cl.len() - 1);
    if collapse_spec(cl) is None && i != 0 {
        lemma_settle_step(b);
        assert(b.composing.skip(k).len() < b.composing.len());
    }
}

/// The syllable whose trailing consonant an incoming vowel takes: the last
/// committed character while nothing is composing, else what the composing
/// buffer collapses to; in either case only a syllable with a trailing
/// consonant.
pub open spec fn trailing_syllable(b: Buffers) -> Option<char> {
    if b.composing.len() == 0 {
        if b.committed.len() > 0 && has_trailing(b.committed.last()) {
            Some(b.committed.last())
        } else {
            None
        }
    } else {
        match collapse_spec(clusters_of(b.composing)) {
            Some(s) => if has_trailing(s) {
                Some(s)
            } else {
                None
            },
            None => None,
        }
    }
}

/// The syllable `s` rebuilt with only the first member of its trailing
/// consonant, committed in its place; the second member and the vowel `ch`
/// start the composing buffer.
pub open spec fn resyllabify_spec(b: Buffers, s: char, ch: char) -> Buffers {
    let parts = syllable_parts(s);
    let split = split_spec(parts.2->Some_0);
    let base = compose_spec(parts.0, parts.1, split.0)->Some_0;
    Buffers {
        committed: if b.composing.len() == 0 {
            b.committed.drop_last().push(base)
        } else {
            b.committed.push(base)
        },
        composing: seq![split.1, ch],
    }
}

/// An ordinary jamo pushed onto the composing buffer, the oldest one
/// evicted verbatim past capacity, and the buffer settled.
pub open spec fn push_jamo_spec(b: Buffers, ch: char) -> Buffers {
    let c = b.composing.push(ch);
    if c.len() > COMPOSING_CAPACITY {
        settle_spec(Buffers { committed: b.committed.push(c[0]), composing: c.skip(1) })
    } else {
        settle_spec(Buffers { committed: b.committed, composing: c })
    }
}

/// One typed character.
pub open spec fn append_spec(b: Buffers, ch: char) -> Buffers {
    if punctuation_code(ch) || !jamo_code(ch) {
        Buffers { committed: finalize_spec(b).committed.push(ch), composing: Seq::empty() }
    } else if vowel_code(ch) && trailing_syllable(b) is Some {
        resyllabify_spec(b, trailing_syllable(b)->Some_0, ch)
    } else {
        push_jamo_spec(b, ch)
    }
}

/// One backspace: the newest composing jamo goes; with nothing composing,
/// the last committed character goes, and a syllable leaves its jamo but the
/// last one in the composing buffer.
pub open spec fn backspace_spec(b: Buffers) -> Buffers {
    if b.composing.len() > 0 {
        Buffers { committed: b.committed, composing: b.composing.drop_last() }
    } else if b.committed.len() > 0 {
        let last = b.committed.last();
        Buffers {
            committed: b.committed.drop_last(),
            composing: if crate::jamo::syllable_code(last) {
                let parts = syllable_parts(last);
                if parts.2 is Some {
                    seq![parts.0, parts.1]
                } else {
                    seq![parts.0]
                }
            } else {
                Seq::empty()
            },
        }
    } else {
        b
    }
}

/// What a session shows: the committed text, then the composing buffer as
/// one character when its clusters collapse, else its clusters.
pub open spec fn rendered_spec(b: Buffers) -> Seq<char> {
    let cl = clusters_of(b.composing);
    b.committed + match collapse_spec(cl) {
        Some(s) => seq![s],
        None => cl,
    }
}

/// Finalizing twice in a row is finalizing once: the second call finds the
/// composing buffer empty and changes nothing.
pub proof fn lemma_finalize_idempotent(b: Buffers)
    ensures
        finalize_spec(finalize_spec(b)) == finalize_spec(b),
{
    let f = finalize_spec(b);
    assert(clusters_of(f.composing) =~= Seq::<char>::empty());
    assert(f.committed + clusters_of(f.composing) =~= f.committed);
}

/// Relies on std's `FromIterator<&char>` for `String`: the string of the
/// characters in order.
#[verifier::external_body]
fn text_of(chars: &Vec<char>) -> (r: String)
    ensures
        r@ == chars@,
{
    chars.iter().collect()
}

/// A positive result of `longest_prefix` is a prefix that collapses.
pub(crate) proof fn lemma_longest_prefix(cl: Seq<char>, n: int)
    requires
        n <= cl.len(),
    ensures
        0 <= longest_prefix(cl, n) <= if n < 0 {
            0
        } else {
            n
        },
        longest_prefix(cl, n) > 0 ==> collapse_spec(cl.take(longest_prefix(cl, n))) is Some,
        longest_prefix(cl, n) <= 3,
    decreases n,
{
    if n > 0 && collapse_spec(cl.take(n)) is None {
        lemma_longest_prefix(cl, n - 1);
    }
}

/// Settling never lengthens the composing buffer.
proof fn lemma_settle_shrinks(b: Buffers)
    ensures
        settle_spec(b).composing.len() <= b.composing.len(),
    decreases b.composing.len(),
{
    let cl = clusters_of(b.composing);
    if collapse_spec(cl) is None {
        let i = longest_prefix(cl, cl.len() - 1);
        let k = span_total(spans_of(b.composing), i);
        lemma_longest_prefix(cl, cl.len() - 1);
        if i > 0 {
            lemma_settle_step(b);
            let next = Buffers {
                committed: b.committed.push(collapse_spec(cl.take(i))->Some_0),
                composing: b.composing.skip(k),
            };
            lemma_settle_shrinks(next);
            assert(settle_spec(b) == settle_spec(next));
        }
    }
}

/// The longest prefix length in `1..=n` whose clusters collapse, or 0.
fn longest_collapsible_prefix(cl: &[char], n: usize) -> (r: usize)
    requires
        n <= cl@.len(),
    ensures
        r as int == longest_prefix(cl@, n as int),
{
    let mut j: usize = n;
    while j > 0
        invariant
            j <= n <= cl@.len(),
            longest_prefix(cl@, n as int) == longest_prefix(cl@, j as int),
        decreases j,
    {
        if collapse_prefix(cl, j).is_some() {
            return j;
        }
        j = j - 1;
    }
    0
}

/// The sum of the first `n` spans, each of them 1 or 2.
fn span_sum(sp: &[usize], n: usize) -> (r: usize)
    requires
        n <= sp@.len(),
        n <= 3,
        forall|k: int| 0 <= k < sp@.len() ==> 1 <= #[trigger] sp@[k] <= 2,
    ensures
        r as int == span_total(sp@, n as int),
        r >= n,
{
    let mut total: usize = 0;
    let mut j: usize = 0;
    while j < n
        invariant
            j <= n <= sp@.len(),
            n <= 3,
            forall|k: int| 0 <= k < sp@.len() ==> 1 <= #[trigger] sp@[k] <= 2,
            total as int == span_total(sp@, j as int),
            j <= total <= 2 * j,
        decreases n - j,
    {
        total = total + sp[j];
        j = j + 1;
    }
    total
}

/// Drops the first `k` elements of `v`.
fn drop_front(v: &mut Vec<char>, k: usize)
    requires
        k <= old(v)@.len(),
    ensures
        final(v)@ == old(v)@.skip(k as int),
{
    let rest = v.split_off(k);
    *v = rest;
    proof {
        assert(v@ =~= old(v)@.skip(k as int));
    }
}

/// One input event, as the surrounding application delivers it.
pub enum InputEvent {
    /// A typed character.
    Character(char),
    /// The backspace key.
    Backspace,
    /// The enter key.
    Enter,
    /// Anything else (a resize, a focus change): no transition.
    Ignored,
}

/// A composition session: finalized text, and the raw jamo still being
/// composed.
pub struct Session {
    committed: Vec<char>,
    composing: Vec<char>,
}

impl View for Session {
    type V = Buffers;

    closed spec fn view(&self) -> Buffers {
        Buffers { committed: self.committed@, composing: self.composing@ }
    }
}

impl Session {
    /// The session's buffers are well formed.
    pub open spec fn wf(&self) -> bool {
        buffers_wf(self@)
    }

    /// A fresh session, with both buffers empty.
    pub fn new() -> (r: Session)
        ensures
            r@ == empty_buffers(),
            r.wf(),
    {
        let r = Session { committed: Vec::new(), composing: Vec::new() };
        proof {
            assert(r@.committed =~= Seq::<char>::empty());
            assert(r@.composing =~= Seq::<char>::empty());
        }
        r
    }

    /// The finalized text so far.
    pub fn committed_text(&self) -> (r: String)
        ensures
            r@ == self@.committed,
    {
        text_of(&self.committed)
    }

    /// The raw jamo not yet finalized, oldest first.
    pub fn composing(&self) -> (r: &[char])
        ensures
            r@ == self@.composing,
    {
        self.composing.as_slice()
    }

    /// The committed text followed by the composing buffer, as one
    /// character when its clusters collapse and else cluster by cluster.
    pub fn rendered_view(&self) -> (r: String)
        ensures
            r@ == rendered_spec(self@),
    {
        let (cl, _) = cluster(self.composing.as_slice());
        let mut shown: Vec<char> = self.committed.clone();
        proof {
            assert(shown@ == self.committed@);
        }
        match collapse(cl.as_slice()) {
            Some(s) => {
                shown.push(s);
                proof {
                    assert(shown@ =~= rendered_spec(self@));
                }
            },
            None => {
                let mut tail = cl;
                shown.append(&mut tail);
                proof {
                    assert(shown@ =~= rendered_spec(self@));
                }
            },
        }
        text_of(&shown)
    }

    /// Moves the composing buffer into the committed one: as one character
    /// when its clusters collapse, else cluster by cluster.
    pub fn finalize(&mut self)
        requires
            old(self).wf(),
        ensures
            final(self)@ == finalize_spec(old(self)@),
            final(self).wf(),
    {
        let (cl, _) = cluster(self.composing.as_slice());
        match collapse(cl.as_slice()) {
            Some(s) => {
                self.committed.push(s);
            },
            None => {
                let mut tail = cl;
                self.committed.append(&mut tail);
            },
        }
        self.composing.clear();
        proof {
            assert(self@.committed =~= finalize_spec(old(self)@).committed);
            assert(self@.composing =~= finalize_spec(old(self)@).composing);
        }
    }

    /// The syllable whose trailing consonant an incoming vowel would take.
    fn trailing_syllable(&self) -> (r: Option<char>)
        ensures
            r == trailing_syllable(self@),
    {
        if self.composing.len() == 0 {
            if self.committed.len() == 0 {
                return None;
            }
            let last = self.committed[self.committed.len() - 1];
            match decompose(last) {
                Ok((_, _, Some(_))) => Some(last),
                _ => None,
            }
        } else {
            let (cl, _) = cluster(self.composing.as_slice());
            match collapse(cl.as_slice()) {
                Some(s) => match decompose(s) {
                    Ok((_, _, Some(_))) => Some(s),
                    _ => None,
                },
                None => None,
            }
        }
    }

    /// Moves the trailing consonant of `s` (or its second member) to the
    /// front of a new composing run with the vowel `ch`.
    fn resyllabify(&mut self, s: char, ch: char)
        requires
            trailing_syllable(old(self)@) == Some(s),
        ensures
            final(self)@ == resyllabify_spec(old(self)@, s, ch),
            final(self).wf(),
    {
        let ghost start = self@;
        let (l, v, t) = match decompose(s) {
            Ok(p) => p,
            Err(_) => {
                proof {
                    assert(false);
                }
                return;
            },
        };
        let tail = match t {
            Some(tail) => tail,
            None => {
                proof {
                    assert(false);
                }
                return;
            },
        };
        let (first, second) = split_trailing(tail);
        proof {
            lemma_round_trip(s);
        }
        let base = match compose(l, v, first) {
            Ok(b) => b,
            Err(_) => {
                proof {
                    assert(false);
                }
                return;
            },
        };
        if self.composing.len() == 0 {
            self.committed.pop();
        }
        self.committed.push(base);
        self.composing.clear();
        self.composing.push(second);
        self.composing.push(ch);
        proof {
            assert(self@.composing =~= resyllabify_spec(start, s, ch).composing);
            assert(self@.committed =~= resyllabify_spec(start, s, ch).committed);
        }
    }

    /// Pushes an ordinary jamo, evicts the oldest one past capacity, and
    /// settles the buffer.
    fn push_jamo(&mut self, ch: char)
        requires
            old(self).wf(),
        ensures
            final(self)@ == push_jamo_spec(old(self)@, ch),
            final(self).wf(),
    {
        let ghost start = self@;
        self.composing.push(ch);
        if self.composing.len() > COMPOSING_CAPACITY {
            let dropped = self.composing.remove(0);
            self.committed.push(dropped);
            proof {
                assert(self@.composing =~= start.composing.push(ch).skip(1));
            }
        }
        self.settle();
        proof {
            lemma_settle_shrinks(
                if start.composing.len() + 1 > COMPOSING_CAPACITY {
                    Buffers {
                        committed: start.committed.push(start.composing.push(ch)[0]),
                        composing: start.composing.push(ch).skip(1),
                    }
                } else {
                    Buffers { committed: start.committed, composing: start.composing.push(ch) }
                },
            );
        }
    }

    /// Handles one typed character: punctuation and non-jamo characters
    /// end the composing run; a vowel after a syllable with a trailing
    /// consonant takes that consonant; any other jamo joins the composing
    /// buffer.
    pub fn append_character(&mut self, ch: char)
        requires
            old(self).wf(),
        ensures
            final(self)@ == append_spec(old(self)@, ch),
            final(self).wf(),
    {
        if is_punctuation(ch) || !is_jamo(ch) {
            self.finalize();
            self.committed.push(ch);
            return;
        }
        if is_vowel(ch) {
            if let Some(s) = self.trailing_syllable() {
                self.resyllabify(s, ch);
                return;
            }
        }
        self.push_jamo(ch);
    }

    /// Undoes one keystroke: drops the newest composing jamo, or else takes
    /// the last committed character back, leaving a syllable's jamo but the
    /// last in the composing buffer.
    pub fn backspace(&mut self)
        requires
            old(self).wf(),
        ensures
            final(self)@ == backspace_spec(old(self)@),
            final(self).wf(),
    {
        let ghost start = self@;
        if self.composing.pop().is_some() {
            return;
        }
        if let Some(last) = self.committed.pop() {
            if let Ok((lead, vowel, trailing)) = decompose(last) {
                self.composing.push(lead);
                self.composing.push(vowel);
                if let Some(t) = trailing {
                    self.composing.push(t);
                }
                self.composing.pop();
                proof {
                    assert(self@.composing =~= backspace_spec(start).composing);
                }
            } else {
                proof {
                    assert(self@.composing =~= backspace_spec(start).composing);
                }
            }
        } else {
            proof {
                assert(self@.composing =~= start.composing);
            }
        }
    }

    /// Handles the enter key: finalizes the composing buffer and hands back
    /// the whole committed text as one line, leaving both buffers empty.
    pub fn commit_line(&mut self) -> (r: String)
        requires
            old(self).wf(),
        ensures
            r@ == finalize_spec(old(self)@).committed,
            final(self)@ == empty_buffers(),
            final(self).wf(),
    {
        self.finalize();
        let line = text_of(&self.committed);
        self.committed.clear();
        self.composing.clear();
        proof {
            assert(self@.committed =~= Seq::<char>::empty());
            assert(self@.composing =~= Seq::<char>::empty());
        }
        line
    }

    /// Applies one input event; a line comes back for the enter key.
    pub fn handle_event(&mut self, ev: InputEvent) -> (r: Option<String>)
        requires
            old(self).wf(),
        ensures
            final(self).wf(),
            match ev {
                InputEvent::Character(ch) => final(self)@ == append_spec(old(self)@, ch) && r is None,
                InputEvent::Backspace => final(self)@ == backspace_spec(old(self)@) && r is None,
                InputEvent::Enter => final(self)@ == empty_buffers() && (r matches Some(line)
                    && line@ == finalize_spec(old(self)@).committed),
                InputEvent::Ignored => final(self)@ == old(self)@ && r is None,
            },
    {
        match ev {
            InputEvent::Character(ch) => {
                self.append_character(ch);
                None
            },
            InputEvent::Backspace => {
                self.backspace();
                None
            },
            InputEvent::Enter => Some(self.commit_line()),
            InputEvent::Ignored => None,
        }
    }

    /// Commits cluster prefixes from the front of the composing buffer for
    /// as long as the whole buffer does not collapse.
    fn settle(&mut self)
        ensures
            final(self)@ == settle_spec(old(self)@),
    {
        loop
            invariant
                settle_spec(self@) == settle_spec(old(self)@),
            ensures
                self@ == settle_spec(old(self)@),
            decreases self@.composing.len(),
        {
            let (cl, sp) = cluster(self.composing.as_slice());
            if collapse(cl.as_slice()).is_some() || cl.len() == 0 {
                break;
            }
            let i = longest_collapsible_prefix(cl.as_slice(), cl.len() - 1);
            proof {
                lemma_longest_prefix(cl@, cl@.len() - 1);
                lemma_spans(self.composing@, 0);
            }
            if i == 0 {
                break;
            }
            proof {
                lemma_settle_step(self@);
            }
            let k = span_sum(sp.as_slice(), i);
            let s = collapse_prefix(cl.as_slice(), i).unwrap();
            let ghost before = self@;
            self.committed.push(s);
            drop_front(&mut self.composing, k);
            proof {
                assert(self@.committed == before.committed.push(s));
                assert(settle_spec(before) == settle_spec(self@));
            }
        }
    }
}

} // verus!
