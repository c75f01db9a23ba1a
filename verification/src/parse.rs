//! The combinator engine: the `Parser` capability, the tri-state result
//! model, and the combinators that compose into grammars.

use vstd::prelude::*;
use vstd::slice::slice_index_get;

use crate::model::{
    choice_walk, data_model, data_models, end_of_input_error, item_count, last_span,
    leftmost_span, lemma_data_models_cons, lemma_data_models_index, lemma_data_models_len,
    lemma_data_models_singleton, lemma_parse_in_range, rep_walk, res_model, seq_walk,
    spec_choice, spec_not, spec_of_type, spec_parse, spec_predicate, spec_repeatable,
    spec_sequence, ErrModel, ParseModel, ResModel, SeqWalk,
};
use crate::token::{Span, Token, TokenKind};

verus! {

/// An immutable view over the token sequence for one parse invocation.
pub struct Context<'t, T> {
    pub tokens: &'t [Token<T>],
}

impl<'t, T> View for Context<'t, T> {
    type V = Seq<Token<T>>;

    open spec fn view(&self) -> Seq<Token<T>> {
        self.tokens@
    }
}

impl<'t, T> Context<'t, T> {
    /// The token at `index`, if there is one.
    pub fn get(&self, index: usize) -> (r: Option<&Token<T>>)
        ensures
            self@.len() <= usize::MAX,
            match r {
                Some(t) => index < self@.len() && *t == self@[index as int],
                None => index >= self@.len(),
            },
    {
        if index < self.tokens.len() {
            Some(slice_index_get(self.tokens, index))
        } else {
            None
        }
    }

    /// The token at `index`, or the end-of-input outcome when the sequence
    /// is exhausted: a soft non-match if the request was optional, else an
    /// error anchored at the last token's span.
    pub fn get_required(&self, pty: &str, index: usize, optional: bool) -> (r: Result<
        &Token<T>,
        ParseResult<T>,
    >)
        ensures
            self@.len() <= usize::MAX,
            match r {
                Ok(t) => index < self@.len() && *t == self@[index as int],
                Err(pr) => index >= self@.len() && res_model(pr) == (if optional {
                    ResModel::<T>::Missed
                } else {
                    ResModel::<T>::Failed(end_of_input_error(pty@, self@))
                }),
            },
    {
        match self.get(index) {
            Some(t) => Ok(t),
            None => Err(
                if optional {
                    ParseResult::Missed
                } else {
                    ParseResult::Failed(
                        ParseError::new(
                            pty.to_owned(),
                            self.span_last(),
                            "Unexpected end of input",
                        ),
                    )
                },
            ),
        }
    }

    /// The span of the last token, or the default span on empty input.
    pub fn span_last(&self) -> (r: Span)
        ensures
            r == last_span(self@),
    {
        if self.tokens.len() == 0 {
            Span::new(1, 1, 1)
        } else {
            *slice_index_get(self.tokens, self.tokens.len() - 1).span()
        }
    }

    pub fn new(tokens: &'t [Token<T>]) -> (r: Context<'t, T>)
        ensures
            r@ == tokens@,
    {
        Context { tokens }
    }
}

/// A hard parse failure: which named rule failed, where, and why.
pub struct ParseError {
    pub expected: String,
    pub span: Span,
    pub message: &'static str,
}

impl View for ParseError {
    type V = ErrModel;

    open spec fn view(&self) -> ErrModel {
        ErrModel { expected: self.expected@, span: self.span, message: self.message@ }
    }
}

impl ParseError {
    /// The span the error is anchored at.
    pub fn span(&self) -> (r: &Span)
        ensures
            r == &self.span,
    {
        &self.span
    }

    /// An error with the default message.
    pub fn from(expected: String, span: Span) -> (r: ParseError)
        ensures
            r.expected == expected,
            r.span == span,
            r@.message == "Syntax error"@,
    {
        ParseError::new(expected, span, "Syntax error")
    }

    pub fn new(expected: String, span: Span, message: &'static str) -> (r: ParseError)
        ensures
            r == (ParseError { expected, span, message }),
    {
        ParseError { expected, span, message }
    }
}

/// The tree-shaped payload of a successful parse.
pub enum ParseData<T> {
    /// The outcomes of a structural combinator's children, in order.
    Nested(Vec<ParseData<T>>),
    /// A flat run of tokens, part of the payload algebra for combinators
    /// that collapse several tokens into one list.
    TokenList(Vec<Token<T>>),
    /// A single matched token.
    Token(Token<T>),
}

/// The tri-state outcome of a parse attempt.
pub enum ParseResult<T> {
    /// The rule matched; carries the tree.
    Matched(ParseData<T>),
    /// Hard failure: the rule was expected to match here and did not.
    Failed(ParseError),
    /// Soft non-match: the rule is optional and matched zero times.
    Missed,
}

/// The full outcome of one combinator invocation.
pub struct Parse<'t, T> {
    pub type_parsed: &'t str,
    pub data: ParseResult<T>,
    pub start_offset: usize,
    pub end_offset: usize,
}

impl<'t, T> View for Parse<'t, T> {
    type V = ParseModel<T>;

    open spec fn view(&self) -> ParseModel<T> {
        ParseModel {
            label: self.type_parsed@,
            result: res_model(self.data),
            start: self.start_offset as nat,
            end: self.end_offset as nat,
        }
    }
}

impl<'t, T> Parse<'t, T> {
    /// The number of token positions consumed.
    pub fn size(&self) -> (r: usize)
        requires
            self.start_offset <= self.end_offset,
        ensures
            r == self.end_offset - self.start_offset,
    {
        self.end_offset - self.start_offset
    }

    /// The label of the rule that produced this outcome.
    pub fn type_parsed(&self) -> (r: &'t str)
        ensures
            r == self.type_parsed,
    {
        self.type_parsed
    }

    /// The tri-state result.
    pub fn data(&self) -> (r: &ParseResult<T>)
        ensures
            r == &self.data,
    {
        &self.data
    }

    /// The offset the invocation started at.
    pub fn start_offset(&self) -> (r: usize)
        ensures
            r == self.start_offset,
    {
        self.start_offset
    }

    /// The offset after the consumed tokens.
    pub fn end_offset(&self) -> (r: usize)
        ensures
            r == self.end_offset,
    {
        self.end_offset
    }

    pub fn new(type_parsed: &'t str, data: ParseResult<T>, start_offset: usize, end_offset: usize)
        -> (r: Parse<'t, T>)
        ensures
            r == (Parse { type_parsed, data, start_offset, end_offset }),
    {
        Parse { type_parsed, data, start_offset, end_offset }
    }
}

/// Matches one token whose type equals a fixed target.
pub struct OfType<T> {
    pub pty: String,
    pub optional: bool,
    pub ty: T,
}

impl<T> OfType<T> {
    pub fn from(pty: &str, optional: bool, ty: T) -> (r: OfType<T>)
        ensures
            r.pty@ == pty@,
            r.optional == optional,
            r.ty == ty,
    {
        OfType::new(pty.to_owned(), optional, ty)
    }

    pub fn new(pty: String, optional: bool, ty: T) -> (r: OfType<T>)
        ensures
            r == (OfType { pty, optional, ty }),
    {
        OfType { pty, optional, ty }
    }
}

/// Matches one token whose type belongs to a class.
pub struct Predicate<T: TokenKind> {
    pub pty: String,
    pub optional: bool,
    pub class: T::Class,
}

impl<T: TokenKind> Predicate<T> {
    pub fn from(pty: &str, optional: bool, class: T::Class) -> (r: Predicate<T>)
        ensures
            r.pty@ == pty@,
            r.optional == optional,
            r.class == class,
    {
        Predicate::new(pty.to_owned(), optional, class)
    }

    pub fn new(pty: String, optional: bool, class: T::Class) -> (r: Predicate<T>)
        ensures
            r == (Predicate::<T> { pty, optional, class }),
    {
        Predicate { pty, optional, class }
    }
}

/// Ordered conjunction: every child must match, left to right.
pub struct Sequence<T: TokenKind> {
    pub pty: String,
    pub optional: bool,
    pub inner: Vec<Combinator<T>>,
}

impl<T: TokenKind> Sequence<T> {
    pub fn from(pty: &str, optional: bool, sequence: Vec<Combinator<T>>) -> (r: Sequence<T>)
        ensures
            r.pty@ == pty@,
            r.optional == optional,
            r.inner == sequence,
    {
        Sequence::new(pty.to_owned(), optional, sequence)
    }

    pub fn new(pty: String, optional: bool, inner: Vec<Combinator<T>>) -> (r: Sequence<T>)
        ensures
            r == (Sequence { pty, optional, inner }),
    {
        Sequence { pty, optional, inner }
    }
}

/// Zero-or-more repetition of one child, greedy and error-tolerant at the
/// tail.
pub struct Repeatable<T: TokenKind> {
    pub pty: String,
    pub optional: bool,
    pub inner: Box<Combinator<T>>,
}

impl<T: TokenKind> Repeatable<T> {
    pub fn from(pty: &str, optional: bool, repeatable: Box<Combinator<T>>) -> (r: Repeatable<T>)
        ensures
            r.pty@ == pty@,
            r.optional == optional,
            r.inner == repeatable,
    {
        Repeatable::new(pty.to_owned(), optional, repeatable)
    }

    pub fn new(pty: String, optional: bool, inner: Box<Combinator<T>>) -> (r: Repeatable<T>)
        ensures
            r == (Repeatable { pty, optional, inner }),
    {
        Repeatable { pty, optional, inner }
    }
}

/// Negative lookahead: succeeds (softly) exactly when its child does not
/// match. Never produces data.
pub struct Not<T: TokenKind> {
    pub pty: String,
    pub optional: bool,
    pub inner: Box<Combinator<T>>,
}

impl<T: TokenKind> Not<T> {
    pub fn new(pty: String, optional: bool, inner: Box<Combinator<T>>) -> (r: Not<T>)
        ensures
            r == (Not { pty, optional, inner }),
    {
        Not { pty, optional, inner }
    }
}

/// Ordered alternation: the first matching alternative wins.
pub struct Choice<T: TokenKind> {
    pub pty: String,
    pub optional: bool,
    pub inner: Vec<Combinator<T>>,
}

impl<T: TokenKind> Choice<T> {
    pub fn from(pty: &str, optional: bool, inner: Vec<Combinator<T>>) -> (r: Choice<T>)
        ensures
            r.pty@ == pty@,
            r.optional == optional,
            r.inner == inner,
    {
        Choice::new(pty.to_owned(), optional, inner)
    }

    pub fn new(pty: String, optional: bool, inner: Vec<Combinator<T>>) -> (r: Choice<T>)
        ensures
            r == (Choice { pty, optional, inner }),
    {
        Choice { pty, optional, inner }
    }
}

/// A grammar is a finite tree of the six primitives. The closed enum lets
/// parsing recurse with a structural termination measure, and lets a
/// mathematical model be defined over whole grammars; every primitive and
/// the enum itself implement [`Parser`].
pub enum Combinator<T: TokenKind> {
    OfType(OfType<T>),
    Predicate(Predicate<T>),
    Sequence(Sequence<T>),
    Repeatable(Repeatable<T>),
    Not(Not<T>),
    Choice(Choice<T>),
}

/// The uniform capability every combinator implements.
///
/// A parse never mutates the context; it returns a `Parse` whose
/// `start_offset` equals the input offset, whose `end_offset` is no
/// smaller, and whose cursor stays within the token sequence whenever the
/// input offset does.
pub trait Parser<T: TokenKind> {
    fn parse<'t>(&'t self, ctx: &Context<'_, T>, offset: usize) -> (r: Parse<'t, T>)
        ensures
            r.start_offset == offset,
            r.start_offset <= r.end_offset,
            offset <= ctx@.len() ==> r.end_offset <= ctx@.len(),
    ;
}

fn parse_of_type<'t, T: TokenKind>(o: &'t OfType<T>, ctx: &Context<'_, T>, offset: usize) -> (r:
    Parse<'t, T>)
    ensures
        r@ == spec_of_type(*o, ctx@, offset as nat),
{
    match ctx.get_required(o.pty.as_str(), offset, o.optional) {
        Ok(token) => {
            if o.ty.eq_kind(token.ty()) {
                Parse::new(
                    o.pty.as_str(),
                    ParseResult::Matched(ParseData::Token(token.dup())),
                    offset,
                    offset + 1,
                )
            } else {
                Parse::new(
                    o.pty.as_str(),
                    ParseResult::Failed(ParseError::from(o.pty.clone(), *token.span())),
                    offset,
                    offset,
                )
            }
        },
        Err(e) => Parse::new(o.pty.as_str(), e, offset, offset),
    }
}

fn parse_predicate<'t, T: TokenKind>(p: &'t Predicate<T>, ctx: &Context<'_, T>, offset: usize)
    -> (r: Parse<'t, T>)
    ensures
        r@ == spec_predicate(*p, ctx@, offset as nat),
{
    match ctx.get_required(p.pty.as_str(), offset, p.optional) {
        Ok(token) => {
            if token.ty().in_class(&p.class) {
                Parse::new(
                    p.pty.as_str(),
                    ParseResult::Matched(ParseData::Token(token.dup())),
                    offset,
                    offset + 1,
                )
            } else {
                Parse::new(
                    p.pty.as_str(),
                    ParseResult::Failed(ParseError::from(p.pty.clone(), *token.span())),
                    offset,
                    offset,
                )
            }
        },
        Err(e) => Parse::new(p.pty.as_str(), e, offset, offset),
    }
}

/// Walks a sequence's children from index `i`, mirroring `seq_walk`.
fn seq_children<T: TokenKind>(
    items: &Vec<Combinator<T>>,
    i: usize,
    ctx: &Context<'_, T>,
    off: usize,
) -> (r: Result<(Vec<ParseData<T>>, usize), (ParseError, usize)>)
    requires
        i <= items@.len(),
    ensures
        match r {
            Ok(pair) => seq_walk(items@, i as nat, ctx@, off as nat) == (SeqWalk::Done {
                collected: data_models(pair.0@),
                end: pair.1 as nat,
            }),
            Err(pair) => seq_walk(items@, i as nat, ctx@, off as nat) == (SeqWalk::<T>::Failed {
                error: pair.0@,
                at: pair.1 as nat,
            }),
        },
    decreases *items, 1int, items@.len() - i,
{
    if i >= items.len() {
        let empty: Vec<ParseData<T>> = Vec::new();
        Ok((empty, off))
    } else {
        let p = parse_combinator(&items[i], ctx, off);
        let Parse { data, end_offset, .. } = p;
        match data {
            ParseResult::Matched(d) => {
                match seq_children(items, i + 1, ctx, end_offset) {
                    Ok((mut collected, end)) => {
                        proof {
                            lemma_data_models_cons(d, collected@);
                            assert(collected@.insert(0, d) =~= seq![d] + collected@);
                        }
                        collected.insert(0, d);
                        Ok((collected, end))
                    },
                    Err(pair) => Err(pair),
                }
            },
            ParseResult::Failed(e) => Err((e, off)),
            ParseResult::Missed => seq_children(items, i + 1, ctx, off),
        }
    }
}

fn parse_sequence<'t, T: TokenKind>(s: &'t Sequence<T>, ctx: &Context<'_, T>, offset: usize) -> (r:
    Parse<'t, T>)
    ensures
        r@ == spec_sequence(*s, ctx@, offset as nat),
    decreases *s, 2int, 0int,
{
    match seq_children(&s.inner, 0, ctx, offset) {
        Ok((collected, end)) => Parse::new(
            s.pty.as_str(),
            ParseResult::Matched(ParseData::Nested(collected)),
            offset,
            end,
        ),
        Err((e, at)) => {
            if s.optional {
                Parse::new(s.pty.as_str(), ParseResult::Missed, offset, at)
            } else {
                Parse::new(s.pty.as_str(), ParseResult::Failed(e), offset, at)
            }
        },
    }
}

/// How many logical items a payload represents.
fn count_items<T: TokenKind>(d: &ParseData<T>) -> (n: usize)
    ensures
        n as nat == item_count(data_model(*d)),
{
    match d {
        ParseData::Nested(l) => {
            proof {
                lemma_data_models_len(l@);
            }
            l.len()
        },
        ParseData::TokenList(l) => l.len(),
        ParseData::Token(_) => 1,
    }
}

/// Applies a repetition's child at the advancing cursor, mirroring
/// `rep_walk`.
fn rep_children<T: TokenKind>(child: &Combinator<T>, ctx: &Context<'_, T>, off: usize) -> (r: (
    Vec<ParseData<T>>,
    usize,
    Option<ParseError>,
))
    ensures
        ({
            let w = rep_walk(*child, ctx@, off as nat);
            &&& w.collected == data_models(r.0@)
            &&& w.end == r.1 as nat
            &&& match r.2 {
                Some(e) => w.error == Some(e@),
                None => w.error is None,
            }
        }),
    decreases *child, 1int, ctx@.len() - off,
{
    let p = parse_combinator(child, ctx, off);
    let Parse { data, .. } = p;
    match data {
        ParseResult::Matched(d) => {
            let n = count_items(&d);
            if 1 <= n && off <= ctx.tokens.len() && n <= ctx.tokens.len() - off {
                let (mut collected, end, error) = rep_children(child, ctx, off + n);
                proof {
                    lemma_data_models_cons(d, collected@);
                    assert(collected@.insert(0, d) =~= seq![d] + collected@);
                }
                collected.insert(0, d);
                (collected, end, error)
            } else {
                let mut collected: Vec<ParseData<T>> = Vec::new();
                collected.push(d);
                proof {
                    assert(collected@ =~= seq![d]);
                    lemma_data_models_singleton(d);
                }
                (collected, off, None)
            }
        },
        ParseResult::Failed(e) => (Vec::new(), off, Some(e)),
        ParseResult::Missed => (Vec::new(), off, None),
    }
}

fn parse_repeatable<'t, T: TokenKind>(s: &'t Repeatable<T>, ctx: &Context<'_, T>, offset: usize)
    -> (r: Parse<'t, T>)
    ensures
        r@ == spec_repeatable(*s, ctx@, offset as nat),
    decreases *s, 2int, 0int,
{
    let (collected, end, error) = rep_children(&*s.inner, ctx, offset);
    proof {
        lemma_data_models_len(collected@);
    }
    if collected.len() == 0 {
        if s.optional {
            Parse::new(s.pty.as_str(), ParseResult::Missed, offset, end)
        } else {
            match error {
                Some(e) => Parse::new(s.pty.as_str(), ParseResult::Failed(e), offset, end),
                None => {
                    let sp = if offset < ctx.tokens.len() {
                        *slice_index_get(ctx.tokens, offset).span()
                    } else {
                        ctx.span_last()
                    };
                    Parse::new(
                        s.pty.as_str(),
                        ParseResult::Failed(ParseError::from(s.pty.clone(), sp)),
                        offset,
                        end,
                    )
                },
            }
        }
    } else {
        Parse::new(
            s.pty.as_str(),
            ParseResult::Matched(ParseData::Nested(collected)),
            offset,
            end,
        )
    }
}

/// The span of the leftmost token in a payload tree, with the default
/// span as the fallback for empty structures.
fn leftmost_span_of<T: TokenKind>(d: &ParseData<T>) -> (r: Span)
    ensures
        r == leftmost_span(data_model(*d)),
    decreases *d,
{
    match d {
        ParseData::Token(t) => *t.span(),
        ParseData::TokenList(l) => {
            if l.len() > 0 {
                *l[0].span()
            } else {
                Span::new(1, 1, 1)
            }
        },
        ParseData::Nested(l) => {
            if l.len() > 0 {
                proof {
                    lemma_data_models_index(l@, 0);
                }
                leftmost_span_of(&l[0])
            } else {
                proof {
                    lemma_data_models_len(l@);
                }
                Span::new(1, 1, 1)
            }
        },
    }
}

fn parse_not<'t, T: TokenKind>(s: &'t Not<T>, ctx: &Context<'_, T>, offset: usize) -> (r: Parse<
    't,
    T,
>)
    ensures
        r@ == spec_not(*s, ctx@, offset as nat),
    decreases *s, 2int, 0int,
{
    let p = parse_combinator(&*s.inner, ctx, offset);
    let Parse { data, end_offset, .. } = p;
    let result = match data {
        ParseResult::Matched(d) => {
            if s.optional {
                ParseResult::Missed
            } else {
                let sp = leftmost_span_of(&d);
                ParseResult::Failed(ParseError::from(s.pty.clone(), sp))
            }
        },
        _ => ParseResult::Missed,
    };
    Parse::new(s.pty.as_str(), result, offset, end_offset)
}

/// Tries a choice's alternatives from index `i`, mirroring `choice_walk`.
fn choice_children<'t, T: TokenKind>(
    items: &'t Vec<Combinator<T>>,
    i: usize,
    ctx: &Context<'_, T>,
    off: usize,
) -> (r: Option<Parse<'t, T>>)
    requires
        i <= items@.len(),
    ensures
        match r {
            Some(p) => choice_walk(items@, i as nat, ctx@, off as nat) == Some(p@),
            None => choice_walk(items@, i as nat, ctx@, off as nat) is None,
        },
    decreases *items, 1int, items@.len() - i,
{
    if i >= items.len() {
        None
    } else {
        let p = parse_combinator(&items[i], ctx, off);
        let matched = matches!(p.data(), ParseResult::Matched(_));
        if matched {
            Some(p)
        } else {
            choice_children(items, i + 1, ctx, off)
        }
    }
}

fn parse_choice<'t, T: TokenKind>(s: &'t Choice<T>, ctx: &Context<'_, T>, offset: usize) -> (r:
    Parse<'t, T>)
    ensures
        r@ == spec_choice(*s, ctx@, offset as nat),
    decreases *s, 2int, 0int,
{
    match choice_children(&s.inner, 0, ctx, offset) {
        Some(p) => p,
        None => {
            if s.optional {
                Parse::new(s.pty.as_str(), ParseResult::Missed, offset, offset)
            } else {
                Parse::new(
                    s.pty.as_str(),
                    ParseResult::Failed(ParseError::from(s.pty.clone(), ctx.span_last())),
                    offset,
                    offset,
                )
            }
        },
    }
}

fn parse_combinator<'t, T: TokenKind>(c: &'t Combinator<T>, ctx: &Context<'_, T>, offset: usize)
    -> (r: Parse<'t, T>)
    ensures
        r@ == spec_parse(*c, ctx@, offset as nat),
    decreases *c, 0int, 0int,
{
    match c {
        Combinator::OfType(o) => parse_of_type(o, ctx, offset),
        Combinator::Predicate(p) => parse_predicate(p, ctx, offset),
        Combinator::Sequence(s) => parse_sequence(s, ctx, offset),
        Combinator::Repeatable(s) => parse_repeatable(s, ctx, offset),
        Combinator::Not(s) => parse_not(s, ctx, offset),
        Combinator::Choice(s) => parse_choice(s, ctx, offset),
    }
}

impl<T: TokenKind> Parser<T> for OfType<T> {
    fn parse<'t>(&'t self, ctx: &Context<'_, T>, offset: usize) -> (r: Parse<'t, T>)
        ensures
            r@ == spec_of_type(*self, ctx@, offset as nat),
    {
        parse_of_type(self, ctx, offset)
    }
}

impl<T: TokenKind> Parser<T> for Predicate<T> {
    fn parse<'t>(&'t self, ctx: &Context<'_, T>, offset: usize) -> (r: Parse<'t, T>)
        ensures
            r@ == spec_predicate(*self, ctx@, offset as nat),
    {
        parse_predicate(self, ctx, offset)
    }
}

impl<T: TokenKind> Parser<T> for Sequence<T> {
    fn parse<'t>(&'t self, ctx: &Context<'_, T>, offset: usize) -> (r: Parse<'t, T>)
        ensures
            r@ == spec_sequence(*self, ctx@, offset as nat),
    {
        proof {
            lemma_parse_in_range(Combinator::Sequence(*self), ctx@, offset as nat);
        }
        parse_sequence(self, ctx, offset)
    }
}

impl<T: TokenKind> Parser<T> for Repeatable<T> {
    fn parse<'t>(&'t self, ctx: &Context<'_, T>, offset: usize) -> (r: Parse<'t, T>)
        ensures
            r@ == spec_repeatable(*self, ctx@, offset as nat),
    {
        proof {
            lemma_parse_in_range(Combinator::Repeatable(*self), ctx@, offset as nat);
        }
        parse_repeatable(self, ctx, offset)
    }
}

impl<T: TokenKind> Parser<T> for Not<T> {
    fn parse<'t>(&'t self, ctx: &Context<'_, T>, offset: usize) -> (r: Parse<'t, T>)
        ensures
            r@ == spec_not(*self, ctx@, offset as nat),
    {
        proof {
            lemma_parse_in_range(Combinator::Not(*self), ctx@, offset as nat);
        }
        parse_not(self, ctx, offset)
    }
}

impl<T: TokenKind> Parser<T> for Choice<T> {
    fn parse<'t>(&'t self, ctx: &Context<'_, T>, offset: usize) -> (r: Parse<'t, T>)
        ensures
            r@ == spec_choice(*self, ctx@, offset as nat),
    {
        proof {
            lemma_parse_in_range(Combinator::Choice(*self), ctx@, offset as nat);
        }
        parse_choice(self, ctx, offset)
    }
}

impl<T: TokenKind> Parser<T> for Combinator<T> {
    fn parse<'t>(&'t self, ctx: &Context<'_, T>, offset: usize) -> (r: Parse<'t, T>)
        ensures
            r@ == spec_parse(*self, ctx@, offset as nat),
    {
        proof {
            lemma_parse_in_range(*self, ctx@, offset as nat);
        }
        parse_combinator(self, ctx, offset)
    }
}

} // verus!
