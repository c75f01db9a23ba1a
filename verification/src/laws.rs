//! The laws the combinators obey, stated over the model in `model` and
//! proved once for every grammar and every input.

use vstd::prelude::*;

use crate::model::{
    choice_walk, item_count, last_span, rep_walk, seq_walk, spec_choice, spec_not, spec_of_type,
    spec_parse, spec_repeatable, spec_sequence, DataModel, ResModel, SeqWalk,
};
use crate::parse::{Choice, Combinator, Not, OfType, Repeatable, Sequence};
use crate::token::{Token, TokenKind};

verus! {

/// The sum of a sequence of counts.
pub open spec fn sum_counts(s: Seq<nat>) -> nat
    decreases s,
{
    if s.len() == 0 {
        0
    } else {
        s[0] + sum_counts(s.subrange(1, s.len() as int))
    }
}

proof fn lemma_sum_counts_cons(x: nat, s: Seq<nat>)
    ensures
        sum_counts(seq![x] + s) == x + sum_counts(s),
{
    let t = seq![x] + s;
    assert(t[0] == x);
    assert(t.subrange(1, t.len() as int) =~= s);
}

/// The consumed size of each step of a sequence walk from index `i`: what
/// each child consumed when it matched, zero when it was skipped as a
/// soft non-match; meaningful along walks where no child fails hard.
pub open spec fn walk_step_sizes<T: TokenKind>(
    cs: Seq<Combinator<T>>,
    i: nat,
    toks: Seq<Token<T>>,
    off: nat,
) -> Seq<nat>
    decreases cs, 3int, cs.len() - i,
{
    if i >= cs.len() {
        Seq::empty()
    } else {
        let p = spec_parse(cs[i as int], toks, off);
        match p.result {
            ResModel::Matched(_) => seq![(p.end - off) as nat] + walk_step_sizes(
                cs,
                i + 1,
                toks,
                p.end,
            ),
            ResModel::Missed => seq![0nat] + walk_step_sizes(cs, i + 1, toks, off),
            ResModel::Failed(_) => Seq::empty(),
        }
    }
}

/// How many children of a sequence walk from index `i` report a match.
pub open spec fn count_matched<T: TokenKind>(
    cs: Seq<Combinator<T>>,
    i: nat,
    toks: Seq<Token<T>>,
    off: nat,
) -> nat
    decreases cs, 3int, cs.len() - i,
{
    if i >= cs.len() {
        0
    } else {
        let p = spec_parse(cs[i as int], toks, off);
        match p.result {
            ResModel::Matched(_) => 1 + count_matched(cs, i + 1, toks, p.end),
            ResModel::Missed => count_matched(cs, i + 1, toks, off),
            ResModel::Failed(_) => 0,
        }
    }
}

/// How many children of a sequence walk from index `i` report a soft
/// non-match.
pub open spec fn count_missed<T: TokenKind>(
    cs: Seq<Combinator<T>>,
    i: nat,
    toks: Seq<Token<T>>,
    off: nat,
) -> nat
    decreases cs, 3int, cs.len() - i,
{
    if i >= cs.len() {
        0
    } else {
        let p = spec_parse(cs[i as int], toks, off);
        match p.result {
            ResModel::Matched(_) => count_missed(cs, i + 1, toks, p.end),
            ResModel::Missed => 1 + count_missed(cs, i + 1, toks, off),
            ResModel::Failed(_) => 0,
        }
    }
}

proof fn lemma_seq_walk_accounting<T: TokenKind>(
    cs: Seq<Combinator<T>>,
    i: nat,
    toks: Seq<Token<T>>,
    off: nat,
)
    requires
        i <= cs.len(),
        seq_walk(cs, i, toks, off) is Done,
    ensures
        ({
            match seq_walk(cs, i, toks, off) {
                SeqWalk::Done { collected, end } => {
                    &&& end == off + sum_counts(walk_step_sizes(cs, i, toks, off))
                    &&& collected.len() == count_matched(cs, i, toks, off)
                    &&& count_matched(cs, i, toks, off) + count_missed(cs, i, toks, off) == cs.len()
                        - i
                },
                SeqWalk::Failed { .. } => false,
            }
        }),
    decreases cs, 4int, cs.len() - i,
{
    if i < cs.len() {
        crate::model::lemma_parse_in_range(cs[i as int], toks, off);
        let p = spec_parse(cs[i as int], toks, off);
        match p.result {
            ResModel::Matched(_) => {
                lemma_seq_walk_accounting(cs, i + 1, toks, p.end);
                lemma_sum_counts_cons(
                    (p.end - off) as nat,
                    walk_step_sizes(cs, i + 1, toks, p.end),
                );
            },
            ResModel::Missed => {
                lemma_seq_walk_accounting(cs, i + 1, toks, off);
                lemma_sum_counts_cons(0, walk_step_sizes(cs, i + 1, toks, off));
            },
            ResModel::Failed(_) => {},
        }
    }
}

/// When every child of a sequence matches or is legitimately absent, the
/// sequence matches: it consumes exactly the sum of its children's
/// consumed sizes, and its payload holds one entry per child, minus the
/// children that reported a soft non-match.
pub proof fn lemma_sequence_accounting<T: TokenKind>(
    s: Sequence<T>,
    toks: Seq<Token<T>>,
    off: nat,
)
    requires
        seq_walk(s.inner@, 0, toks, off) is Done,
    ensures
        ({
            let m = spec_sequence(s, toks, off);
            &&& m.result is Matched
            &&& m.end == off + sum_counts(walk_step_sizes(s.inner@, 0, toks, off))
            &&& m.result->Matched_0 == DataModel::<T>::Nested(
                match seq_walk(s.inner@, 0, toks, off) {
                    SeqWalk::Done { collected, .. } => collected,
                    SeqWalk::Failed { .. } => Seq::empty(),
                },
            )
            &&& item_count(m.result->Matched_0) == count_matched(s.inner@, 0, toks, off)
            &&& count_matched(s.inner@, 0, toks, off) == s.inner@.len() - count_missed(
                s.inner@,
                0,
                toks,
                off,
            )
        }),
{
    lemma_seq_walk_accounting(s.inner@, 0, toks, off);
}

/// A repetition whose child does not match at the starting offset
/// consumes nothing: it reports a soft non-match when it is optional, and
/// a hard failure otherwise.
pub proof fn lemma_repeatable_no_match<T: TokenKind>(
    r: Repeatable<T>,
    toks: Seq<Token<T>>,
    off: nat,
)
    requires
        !(spec_parse(*r.inner, toks, off).result is Matched),
    ensures
        ({
            let m = spec_repeatable(r, toks, off);
            &&& m.end == off
            &&& r.optional ==> m.result is Missed
            &&& !r.optional ==> m.result is Failed
        }),
{
}

/// The child of a repetition matches exactly `k` times from `off`, each
/// match advancing the cursor by at least one position, and then stops
/// matching.
pub open spec fn matches_exactly<T: TokenKind>(
    child: Combinator<T>,
    toks: Seq<Token<T>>,
    off: nat,
    k: nat,
) -> bool
    decreases k,
{
    let p = spec_parse(child, toks, off);
    if k == 0 {
        !(p.result is Matched)
    } else {
        p.result is Matched && {
            let n = item_count(p.result->Matched_0);
            &&& 1 <= n
            &&& off + n <= toks.len()
            &&& matches_exactly(child, toks, (off + n) as nat, (k - 1) as nat)
        }
    }
}

proof fn lemma_rep_walk_collects<T: TokenKind>(
    child: Combinator<T>,
    toks: Seq<Token<T>>,
    off: nat,
    k: nat,
)
    requires
        matches_exactly(child, toks, off, k),
    ensures
        ({
            let w = rep_walk(child, toks, off);
            &&& w.collected.len() == k
            &&& w.end == off + sum_counts(w.collected.map_values(|d: DataModel<T>| item_count(d)))
        }),
    decreases k,
{
    let p = spec_parse(child, toks, off);
    let w = rep_walk(child, toks, off);
    if k == 0 {
        assert(w.collected.map_values(|d: DataModel<T>| item_count(d)) =~= Seq::<nat>::empty());
    } else {
        let d = p.result->Matched_0;
        let n = item_count(d);
        lemma_rep_walk_collects(child, toks, (off + n) as nat, (k - 1) as nat);
        let rest = rep_walk(child, toks, (off + n) as nat);
        let restmap = rest.collected.map_values(|x: DataModel<T>| item_count(x));
        assert(w.collected == seq![d] + rest.collected);
        assert(w.collected.map_values(|x: DataModel<T>| item_count(x)) =~= seq![n] + restmap);
        lemma_sum_counts_cons(n, restmap);
    }
}

/// A repetition whose child matches exactly `k > 0` times collects
/// exactly those `k` payloads, consuming the sum of what the matches
/// represent; whatever ended the loop after them is discarded.
pub proof fn lemma_repeatable_collects<T: TokenKind>(
    r: Repeatable<T>,
    toks: Seq<Token<T>>,
    off: nat,
    k: nat,
)
    requires
        k >= 1,
        matches_exactly(*r.inner, toks, off, k),
    ensures
        ({
            let m = spec_repeatable(r, toks, off);
            let w = rep_walk(*r.inner, toks, off);
            &&& m.result is Matched
            &&& m.result->Matched_0 == DataModel::Nested(w.collected)
            &&& w.collected.len() == k
            &&& m.end == off + sum_counts(
                w.collected.map_values(|d: DataModel<T>| item_count(d)),
            )
        }),
{
    lemma_rep_walk_collects(*r.inner, toks, off, k);
}

/// A choice of two alternatives where the first does not match and the
/// second does returns the second alternative's outcome, unmodified.
pub proof fn lemma_choice_second_alternative<T: TokenKind>(
    c: Choice<T>,
    toks: Seq<Token<T>>,
    off: nat,
)
    requires
        c.inner@.len() == 2,
        !(spec_parse(c.inner@[0], toks, off).result is Matched),
        spec_parse(c.inner@[1], toks, off).result is Matched,
    ensures
        spec_choice(c, toks, off) == spec_parse(c.inner@[1], toks, off),
{
}

/// When no alternative of a choice matches, an optional choice reports a
/// soft non-match and a mandatory one reports a single summary error
/// under the choice's own label, anchored at the last token of the input.
pub proof fn lemma_choice_exhausted<T: TokenKind>(c: Choice<T>, toks: Seq<Token<T>>, off: nat)
    requires
        choice_walk(c.inner@, 0, toks, off) is None,
    ensures
        ({
            let m = spec_choice(c, toks, off);
            &&& m.end == off
            &&& c.optional ==> m.result is Missed
            &&& !c.optional ==> m.result == ResModel::<T>::Failed(
                crate::model::syntax_error(c.pty@, last_span(toks)),
            )
        }),
{
}

/// A negative lookahead never matches: over a matching child it misses
/// softly when optional and fails hard otherwise, and over a child that
/// fails or misses it always misses softly.
pub proof fn lemma_not_never_matches<T: TokenKind>(n: Not<T>, toks: Seq<Token<T>>, off: nat)
    ensures
        ({
            let m = spec_not(n, toks, off);
            let child = spec_parse(*n.inner, toks, off);
            &&& !(m.result is Matched)
            &&& child.result is Matched && !n.optional ==> m.result is Failed
            &&& child.result is Matched && n.optional ==> m.result is Missed
            &&& !(child.result is Matched) ==> m.result is Missed
        }),
{
}

/// Matching a token by exact type consumes exactly one position; a
/// mismatch consumes zero.
pub proof fn lemma_of_type_consumption<T: TokenKind>(o: OfType<T>, toks: Seq<Token<T>>, off: nat)
    requires
        off < toks.len(),
    ensures
        ({
            let m = spec_of_type(o, toks, off);
            &&& o.ty.eq_spec(&toks[off as int].ty) ==> m.result is Matched && m.end == off + 1
            &&& !o.ty.eq_spec(&toks[off as int].ty) ==> m.result is Failed && m.end == off
        }),
{
}

} // verus!
