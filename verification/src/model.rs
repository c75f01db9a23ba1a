//! The mathematical model of the engine: ghost mirrors of the result
//! types and a total spec-level denotation, `spec_parse`, of every
//! combinator. Each executable `parse` is proved to return exactly what
//! `spec_parse` says.

use vstd::prelude::*;

use crate::parse::{
    Choice, Combinator, Not, OfType, ParseData, ParseResult, Predicate, Repeatable, Sequence,
};
use crate::token::{default_span, Span, Token, TokenKind};

verus! {

/// The model of a `ParseError`.
pub ghost struct ErrModel {
    pub expected: Seq<char>,
    pub span: Span,
    pub message: Seq<char>,
}

/// The model of a `ParseData` tree.
pub ghost enum DataModel<T> {
    Nested(Seq<DataModel<T>>),
    TokenList(Seq<Token<T>>),
    Token(Token<T>),
}

/// The model of a `ParseResult`.
pub ghost enum ResModel<T> {
    Matched(DataModel<T>),
    Failed(ErrModel),
    Missed,
}

/// The model of a `Parse`: the label of the rule, the result, and the
/// cursor range.
pub ghost struct ParseModel<T> {
    pub label: Seq<char>,
    pub result: ResModel<T>,
    pub start: nat,
    pub end: nat,
}

/// The model of a `ParseData` value.
pub open spec fn data_model<T>(d: ParseData<T>) -> DataModel<T>
    decreases d,
{
    match d {
        ParseData::Nested(v) => DataModel::Nested(data_models(v@)),
        ParseData::TokenList(v) => DataModel::TokenList(v@),
        ParseData::Token(t) => DataModel::Token(t),
    }
}

/// The models of a sequence of `ParseData` values, elementwise.
pub open spec fn data_models<T>(s: Seq<ParseData<T>>) -> Seq<DataModel<T>>
    decreases s,
{
    if s.len() == 0 {
        Seq::empty()
    } else {
        seq![data_model(s[0])] + data_models(s.subrange(1, s.len() as int))
    }
}

pub proof fn lemma_data_models_len<T>(s: Seq<ParseData<T>>)
    ensures
        data_models(s).len() == s.len(),
    decreases s,
{
    if s.len() > 0 {
        lemma_data_models_len(s.subrange(1, s.len() as int));
    }
}

pub proof fn lemma_data_models_index<T>(s: Seq<ParseData<T>>, i: int)
    requires
        0 <= i < s.len(),
    ensures
        data_models(s).len() == s.len(),
        data_models(s)[i] == data_model(s[i]),
    decreases s,
{
    lemma_data_models_len(s);
    if i > 0 {
        let rest = s.subrange(1, s.len() as int);
        lemma_data_models_index(rest, i - 1);
        assert(rest[i - 1] == s[i]);
    }
}

pub proof fn lemma_data_models_cons<T>(x: ParseData<T>, s: Seq<ParseData<T>>)
    ensures
        data_models(seq![x] + s) == seq![data_model(x)] + data_models(s),
{
    let t = seq![x] + s;
    assert(t[0] == x);
    assert(t.subrange(1, t.len() as int) =~= s);
}

/// The span of the last token, or the default span on empty input.
pub open spec fn last_span<T>(toks: Seq<Token<T>>) -> Span {
    if toks.len() == 0 {
        default_span()
    } else {
        toks[toks.len() - 1].span
    }
}

/// The span of the token at `off`, falling back to the last token's span
/// past the end of the input.
pub open spec fn span_at<T>(toks: Seq<Token<T>>, off: nat) -> Span {
    if off < toks.len() {
        toks[off as int].span
    } else {
        last_span(toks)
    }
}

/// A hard failure of the rule labelled `expected`, anchored at `span`.
pub open spec fn syntax_error(expected: Seq<char>, span: Span) -> ErrModel {
    ErrModel { expected, span, message: "Syntax error"@ }
}

/// The failure reported when a mandatory token is requested past the end
/// of the input.
pub open spec fn end_of_input_error<T>(expected: Seq<char>, toks: Seq<Token<T>>) -> ErrModel {
    ErrModel { expected, span: last_span(toks), message: "Unexpected end of input"@ }
}

/// The model of a `ParseResult` value.
pub open spec fn res_model<T>(r: ParseResult<T>) -> ResModel<T> {
    match r {
        ParseResult::Matched(d) => ResModel::Matched(data_model(d)),
        ParseResult::Failed(e) => ResModel::Failed(e@),
        ParseResult::Missed => ResModel::Missed,
    }
}

/// How many logical items a payload represents: repetition advances by
/// this count, one for a single token, the element count for a list.
pub open spec fn item_count<T>(d: DataModel<T>) -> nat {
    match d {
        DataModel::Nested(l) => l.len(),
        DataModel::TokenList(l) => l.len(),
        DataModel::Token(_) => 1,
    }
}

/// The span of the leftmost token in a payload tree; empty structures,
/// which the primitives never produce, fall back to the default span.
pub open spec fn leftmost_span<T>(d: DataModel<T>) -> Span
    decreases d,
{
    match d {
        DataModel::Token(t) => t.span,
        DataModel::TokenList(l) => if l.len() > 0 {
            l[0].span
        } else {
            default_span()
        },
        DataModel::Nested(l) => if l.len() > 0 {
            leftmost_span(l[0])
        } else {
            default_span()
        },
    }
}

/// What `OfType` returns: the token at `off` when its type equals the
/// target (consuming one position), a zero-width syntax error on a
/// mismatch, and the end-of-input outcome past the end of the sequence.
pub open spec fn spec_of_type<T: TokenKind>(o: OfType<T>, toks: Seq<Token<T>>, off: nat)
    -> ParseModel<T> {
    if off < toks.len() {
        let t = toks[off as int];
        if o.ty.eq_spec(&t.ty) {
            ParseModel {
                label: o.pty@,
                result: ResModel::Matched(DataModel::Token(t)),
                start: off,
                end: off + 1,
            }
        } else {
            ParseModel {
                label: o.pty@,
                result: ResModel::Failed(syntax_error(o.pty@, t.span)),
                start: off,
                end: off,
            }
        }
    } else if o.optional {
        ParseModel { label: o.pty@, result: ResModel::Missed, start: off, end: off }
    } else {
        ParseModel {
            label: o.pty@,
            result: ResModel::Failed(end_of_input_error(o.pty@, toks)),
            start: off,
            end: off,
        }
    }
}

/// What `Predicate` returns: as `OfType`, but matching by class
/// membership instead of equality to one fixed type.
pub open spec fn spec_predicate<T: TokenKind>(p: Predicate<T>, toks: Seq<Token<T>>, off: nat)
    -> ParseModel<T> {
    if off < toks.len() {
        let t = toks[off as int];
        if t.ty.in_class_spec(&p.class) {
            ParseModel {
                label: p.pty@,
                result: ResModel::Matched(DataModel::Token(t)),
                start: off,
                end: off + 1,
            }
        } else {
            ParseModel {
                label: p.pty@,
                result: ResModel::Failed(syntax_error(p.pty@, t.span)),
                start: off,
                end: off,
            }
        }
    } else if p.optional {
        ParseModel { label: p.pty@, result: ResModel::Missed, start: off, end: off }
    } else {
        ParseModel {
            label: p.pty@,
            result: ResModel::Failed(end_of_input_error(p.pty@, toks)),
            start: off,
            end: off,
        }
    }
}

/// The outcome of walking a sequence's children.
pub ghost enum SeqWalk<T> {
    /// Every remaining child matched or was skipped; the collected data
    /// and the cursor after the last child.
    Done { collected: Seq<DataModel<T>>, end: nat },
    /// A child failed hard; its error and the cursor it was tried at.
    Failed { error: ErrModel, at: nat },
}

/// Walks the children of a sequence from index `i`, threading the cursor
/// forward by each matching child's consumed size, skipping soft
/// non-matches, and stopping at the first hard failure.
pub open spec fn seq_walk<T: TokenKind>(
    cs: Seq<Combinator<T>>,
    i: nat,
    toks: Seq<Token<T>>,
    off: nat,
) -> SeqWalk<T>
    decreases cs, 1int, cs.len() - i,
{
    if i >= cs.len() {
        SeqWalk::Done { collected: Seq::empty(), end: off }
    } else {
        let p = spec_parse(cs[i as int], toks, off);
        match p.result {
            ResModel::Matched(d) => match seq_walk(cs, i + 1, toks, p.end) {
                SeqWalk::Done { collected, end } => SeqWalk::Done {
                    collected: seq![d] + collected,
                    end,
                },
                SeqWalk::Failed { error, at } => SeqWalk::Failed { error, at },
            },
            ResModel::Failed(e) => SeqWalk::Failed { error: e, at: off },
            ResModel::Missed => seq_walk(cs, i + 1, toks, off),
        }
    }
}

/// What `Sequence` returns: the children's data in order when the walk
/// completes; on a hard failure, a soft non-match if the sequence itself
/// is optional, else the child's error verbatim.
pub open spec fn spec_sequence<T: TokenKind>(s: Sequence<T>, toks: Seq<Token<T>>, off: nat)
    -> ParseModel<T>
    decreases s, 2int, 0int,
{
    match seq_walk(s.inner@, 0, toks, off) {
        SeqWalk::Done { collected, end } => ParseModel {
            label: s.pty@,
            result: ResModel::Matched(DataModel::Nested(collected)),
            start: off,
            end,
        },
        SeqWalk::Failed { error, at } => ParseModel {
            label: s.pty@,
            result: if s.optional {
                ResModel::Missed
            } else {
                ResModel::Failed(error)
            },
            start: off,
            end: at,
        },
    }
}

/// The outcome of repeatedly applying a repetition's child.
pub ghost struct RepWalk<T> {
    /// The data collected from the matching iterations, in order.
    pub collected: Seq<DataModel<T>>,
    /// The cursor after the last advance.
    pub end: nat,
    /// The trailing hard error, if the loop stopped on one.
    pub error: Option<ErrModel>,
}

/// Applies `child` at the advancing cursor until it stops matching.
/// Each match advances by the number of logical items it represents; a
/// match that represents none, or whose count would push the cursor past
/// the end of the input, is collected and ends the repetition, since
/// repeating it could never make progress.
pub open spec fn rep_walk<T: TokenKind>(child: Combinator<T>, toks: Seq<Token<T>>, off: nat)
    -> RepWalk<T>
    decreases child, 1int, toks.len() - off,
{
    let p = spec_parse(child, toks, off);
    match p.result {
        ResModel::Matched(d) => {
            let n = item_count(d);
            if 1 <= n && off + n <= toks.len() {
                let rest = rep_walk(child, toks, (off + n) as nat);
                RepWalk { collected: seq![d] + rest.collected, end: rest.end, error: rest.error }
            } else {
                RepWalk { collected: seq![d], end: off, error: None }
            }
        },
        ResModel::Failed(e) => RepWalk { collected: Seq::empty(), end: off, error: Some(e) },
        ResModel::Missed => RepWalk { collected: Seq::empty(), end: off, error: None },
    }
}

/// What `Repeatable` returns: the collected items when at least one
/// iteration matched (a trailing error is discarded); otherwise a soft
/// non-match if optional, else the trailing error, else a fallback error
/// anchored at the token at the cursor.
pub open spec fn spec_repeatable<T: TokenKind>(r: Repeatable<T>, toks: Seq<Token<T>>, off: nat)
    -> ParseModel<T>
    decreases r, 2int, 0int,
{
    let w = rep_walk(*r.inner, toks, off);
    if w.collected.len() == 0 {
        if r.optional {
            ParseModel { label: r.pty@, result: ResModel::Missed, start: off, end: w.end }
        } else {
            match w.error {
                Some(e) => ParseModel {
                    label: r.pty@,
                    result: ResModel::Failed(e),
                    start: off,
                    end: w.end,
                },
                None => ParseModel {
                    label: r.pty@,
                    result: ResModel::Failed(syntax_error(r.pty@, span_at(toks, off))),
                    start: off,
                    end: w.end,
                },
            }
        }
    } else {
        ParseModel {
            label: r.pty@,
            result: ResModel::Matched(DataModel::Nested(w.collected)),
            start: off,
            end: w.end,
        }
    }
}

/// What `Not` returns: a soft non-match when its child fails or misses;
/// when the child matches, a soft non-match if optional, else an error
/// anchored at the leftmost token of the child's data. Never a match.
pub open spec fn spec_not<T: TokenKind>(n: Not<T>, toks: Seq<Token<T>>, off: nat)
    -> ParseModel<T>
    decreases n, 2int, 0int,
{
    let p = spec_parse(*n.inner, toks, off);
    ParseModel {
        label: n.pty@,
        result: match p.result {
            ResModel::Matched(d) => if n.optional {
                ResModel::Missed
            } else {
                ResModel::Failed(syntax_error(n.pty@, leftmost_span(d)))
            },
            _ => ResModel::Missed,
        },
        start: off,
        end: p.end,
    }
}

/// Tries the alternatives from index `i` at the same offset and returns
/// the first matching outcome verbatim, if any.
pub open spec fn choice_walk<T: TokenKind>(
    cs: Seq<Combinator<T>>,
    i: nat,
    toks: Seq<Token<T>>,
    off: nat,
) -> Option<ParseModel<T>>
    decreases cs, 1int, cs.len() - i,
{
    if i >= cs.len() {
        None
    } else {
        let p = spec_parse(cs[i as int], toks, off);
        if p.result is Matched {
            Some(p)
        } else {
            choice_walk(cs, i + 1, toks, off)
        }
    }
}

/// What `Choice` returns: the first matching alternative's outcome,
/// unmodified. When none matches, a soft non-match if the choice is
/// optional, else one summary error under the choice's own label,
/// anchored at the last token of the input.
pub open spec fn spec_choice<T: TokenKind>(c: Choice<T>, toks: Seq<Token<T>>, off: nat)
    -> ParseModel<T>
    decreases c, 2int, 0int,
{
    match choice_walk(c.inner@, 0, toks, off) {
        Some(p) => p,
        None => if c.optional {
            ParseModel { label: c.pty@, result: ResModel::Missed, start: off, end: off }
        } else {
            ParseModel {
                label: c.pty@,
                result: ResModel::Failed(syntax_error(c.pty@, last_span(toks))),
                start: off,
                end: off,
            }
        },
    }
}

pub proof fn lemma_data_models_singleton<T>(x: ParseData<T>)
    ensures
        data_models(seq![x]) == seq![data_model(x)],
{
    let s = seq![x];
    assert(s[0] == x);
    assert(data_models(s) == seq![data_model(s[0])] + data_models(s.subrange(1, 1)));
    assert(s.subrange(1, 1) =~= Seq::<ParseData<T>>::empty());
    assert(data_models(s) =~= seq![data_model(x)]);
}

/// The denotation of a whole grammar: what parsing `c` at `off` returns.
pub open spec fn spec_parse<T: TokenKind>(c: Combinator<T>, toks: Seq<Token<T>>, off: nat)
    -> ParseModel<T>
    decreases c, 0int, 0int,
{
    match c {
        Combinator::OfType(o) => spec_of_type(o, toks, off),
        Combinator::Predicate(p) => spec_predicate(p, toks, off),
        Combinator::Sequence(s) => spec_sequence(s, toks, off),
        Combinator::Repeatable(r) => spec_repeatable(r, toks, off),
        Combinator::Not(n) => spec_not(n, toks, off),
        Combinator::Choice(ch) => spec_choice(ch, toks, off),
    }
}

/// Every parse starts at the offset it was invoked at, never moves the
/// cursor backwards, and never moves it past the end of the input.
pub proof fn lemma_parse_in_range<T: TokenKind>(c: Combinator<T>, toks: Seq<Token<T>>, off: nat)
    ensures
        ({
            let m = spec_parse(c, toks, off);
            &&& m.start == off
            &&& off <= m.end
            &&& off <= toks.len() ==> m.end <= toks.len()
        }),
    decreases c, 0int, 0int,
{
    match c {
        Combinator::OfType(_) => {},
        Combinator::Predicate(_) => {},
        Combinator::Sequence(s) => {
            lemma_seq_walk_in_range(s.inner@, 0, toks, off);
        },
        Combinator::Repeatable(r) => {
            lemma_rep_walk_in_range(*r.inner, toks, off);
        },
        Combinator::Not(n) => {
            lemma_parse_in_range(*n.inner, toks, off);
        },
        Combinator::Choice(ch) => {
            lemma_choice_walk_in_range(ch.inner@, 0, toks, off);
        },
    }
}

pub proof fn lemma_seq_walk_in_range<T: TokenKind>(
    cs: Seq<Combinator<T>>,
    i: nat,
    toks: Seq<Token<T>>,
    off: nat,
)
    ensures
        ({
            match seq_walk(cs, i, toks, off) {
                SeqWalk::Done { collected, end } => off <= end && (off <= toks.len() ==> end
                    <= toks.len()),
                SeqWalk::Failed { error, at } => off <= at && (off <= toks.len() ==> at
                    <= toks.len()),
            }
        }),
    decreases cs, 1int, cs.len() - i,
{
    if i < cs.len() {
        lemma_parse_in_range(cs[i as int], toks, off);
        let p = spec_parse(cs[i as int], toks, off);
        match p.result {
            ResModel::Matched(_) => {
                lemma_seq_walk_in_range(cs, i + 1, toks, p.end);
            },
            ResModel::Missed => {
                lemma_seq_walk_in_range(cs, i + 1, toks, off);
            },
            ResModel::Failed(_) => {},
        }
    }
}

pub proof fn lemma_rep_walk_in_range<T: TokenKind>(
    child: Combinator<T>,
    toks: Seq<Token<T>>,
    off: nat,
)
    ensures
        ({
            let w = rep_walk(child, toks, off);
            off <= w.end && (off <= toks.len() ==> w.end <= toks.len())
        }),
    decreases child, 1int, toks.len() - off,
{
    lemma_parse_in_range(child, toks, off);
    let p = spec_parse(child, toks, off);
    match p.result {
        ResModel::Matched(d) => {
            let n = item_count(d);
            if 1 <= n && off + n <= toks.len() {
                lemma_rep_walk_in_range(child, toks, (off + n) as nat);
            }
        },
        _ => {},
    }
}

pub proof fn lemma_choice_walk_in_range<T: TokenKind>(
    cs: Seq<Combinator<T>>,
    i: nat,
    toks: Seq<Token<T>>,
    off: nat,
)
    ensures
        ({
            match choice_walk(cs, i, toks, off) {
                Some(p) => p.start == off && off <= p.end && (off <= toks.len() ==> p.end
                    <= toks.len()),
                None => true,
            }
        }),
    decreases cs, 1int, cs.len() - i,
{
    if i < cs.len() {
        lemma_parse_in_range(cs[i as int], toks, off);
        if !(spec_parse(cs[i as int], toks, off).result is Matched) {
            lemma_choice_walk_in_range(cs, i + 1, toks, off);
        }
    }
}

} // verus!
