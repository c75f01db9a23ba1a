//! Source locations and lexical tokens.

use vstd::prelude::*;

verus! {

/// A source-location range: a line and a start/end column pair.
///
/// The intended invariant is `cs <= ce`; `Span::new` demands it, and the
/// operations that do arithmetic on the columns state it as a precondition.
#[derive(Clone, Copy, PartialEq, Eq, Structural, Debug)]
pub struct Span {
    pub ln: usize,
    pub cs: usize,
    pub ce: usize,
}

/// The span used when no token exists (for example on empty input).
pub open spec fn default_span() -> Span {
    Span { ln: 1, cs: 1, ce: 1 }
}

impl Span {
    /// The line of the span.
    pub fn ln(&self) -> (r: usize)
        ensures
            r == self.ln,
    {
        self.ln
    }

    /// The start column of the span.
    pub fn cs(&self) -> (r: usize)
        ensures
            r == self.cs,
    {
        self.cs
    }

    /// The end column of the span.
    pub fn ce(&self) -> (r: usize)
        ensures
            r == self.ce,
    {
        self.ce
    }

    pub fn new(ln: usize, cs: usize, ce: usize) -> (r: Span)
        requires
            cs <= ce,
        ensures
            r == (Span { ln, cs, ce }),
    {
        Span { ln, cs, ce }
    }
}

impl Default for Span {
    /// The default span is `(1, 1, 1)`.
    fn default() -> (r: Span)
        ensures
            r == default_span(),
    {
        Span { ln: 1, cs: 1, ce: 1 }
    }
}

/// The operations a caller-supplied token-type must provide, each
/// executable test mirrored by a spec-level meaning so that contracts can
/// speak about what the engine matched.
pub trait TokenKind: Sized {
    /// A value that selects a whole class of token types ("any
    /// identifier"), used by the `Predicate` combinator.
    type Class;

    /// What equality of two token types means.
    spec fn eq_spec(&self, other: &Self) -> bool;

    /// What membership of a token type in a class means.
    spec fn in_class_spec(&self, class: &Self::Class) -> bool;

    /// Decides equality of two token types.
    fn eq_kind(&self, other: &Self) -> (r: bool)
        ensures
            r == self.eq_spec(other),
    ;

    /// Decides membership of a token type in a class.
    fn in_class(&self, class: &Self::Class) -> (r: bool)
        ensures
            r == self.in_class_spec(class),
    ;

    /// Produces a copy equal to the original, so matched tokens can be
    /// stored in a result tree.
    fn dup(&self) -> (r: Self)
        ensures
            r == *self,
    ;
}

/// A typed lexical unit: a token type and the span it covers.
///
/// Verified code copies tokens through [`Token::dup`], whose contract
/// says the copy equals the original; the derived `Clone` is for
/// unverified callers.
#[derive(Clone)]
pub struct Token<T> {
    pub ty: T,
    pub span: Span,
}

impl<T> Token<T> {
    /// The number of columns the token covers.
    pub fn span_size(&self) -> (r: usize)
        requires
            self.span.cs <= self.span.ce,
            self.span.ce - self.span.cs + 1 <= usize::MAX,
        ensures
            r == self.span.ce - self.span.cs + 1,
    {
        self.span.ce - self.span.cs + 1
    }

    /// The token's type.
    pub fn ty(&self) -> (r: &T)
        ensures
            r == &self.ty,
    {
        &self.ty
    }

    /// The token's span.
    pub fn span(&self) -> (r: &Span)
        ensures
            r == &self.span,
    {
        &self.span
    }

    pub fn new(ty: T, span: Span) -> (r: Token<T>)
        ensures
            r == (Token { ty, span }),
    {
        Token { ty, span }
    }
}

impl<T: TokenKind> Token<T> {
    /// Produces a copy equal to the original.
    pub fn dup(&self) -> (r: Token<T>)
        ensures
            r == *self,
    {
        Token { ty: self.ty.dup(), span: self.span }
    }
}

} // verus!
