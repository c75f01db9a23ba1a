//! An illustrative grammar over a small token-item language: documents of
//! `id = "value"` items terminated by an end-of-input token.

use vstd::prelude::*;

use crate::parse::{Choice, Combinator, OfType, Predicate, Repeatable, Sequence};
use crate::token::TokenKind;

verus! {

/// The token types of the illustrative language.
#[derive(Clone, PartialEq, Eq, Debug)]
pub enum TokenType {
    Semicolon,
    Dollar,
    Or,
    Caret,
    LBracket,
    RBracket,
    Equals,
    LParen,
    RParen,
    Eoi,
    Id(String),
    Str(String),
}

/// The classes of token types the grammar matches by shape rather than by
/// one fixed value.
#[derive(Clone, Copy, PartialEq, Eq, Debug)]
pub enum TokenClass {
    Identifier,
    StringLiteral,
}

impl TokenKind for TokenType {
    type Class = TokenClass;

    open spec fn eq_spec(&self, other: &Self) -> bool {
        match (self, other) {
            (TokenType::Semicolon, TokenType::Semicolon) => true,
            (TokenType::Dollar, TokenType::Dollar) => true,
            (TokenType::Or, TokenType::Or) => true,
            (TokenType::Caret, TokenType::Caret) => true,
            (TokenType::LBracket, TokenType::LBracket) => true,
            (TokenType::RBracket, TokenType::RBracket) => true,
            (TokenType::Equals, TokenType::Equals) => true,
            (TokenType::LParen, TokenType::LParen) => true,
            (TokenType::RParen, TokenType::RParen) => true,
            (TokenType::Eoi, TokenType::Eoi) => true,
            (TokenType::Id(a), TokenType::Id(b)) => a@ == b@,
            (TokenType::Str(a), TokenType::Str(b)) => a@ == b@,
            _ => false,
        }
    }

    open spec fn in_class_spec(&self, class: &TokenClass) -> bool {
        match (self, class) {
            (TokenType::Id(_), TokenClass::Identifier) => true,
            (TokenType::Str(_), TokenClass::StringLiteral) => true,
            _ => false,
        }
    }

    fn eq_kind(&self, other: &Self) -> (r: bool) {
        match (self, other) {
            (TokenType::Semicolon, TokenType::Semicolon) => true,
            (TokenType::Dollar, TokenType::Dollar) => true,
            (TokenType::Or, TokenType::Or) => true,
            (TokenType::Caret, TokenType::Caret) => true,
            (TokenType::LBracket, TokenType::LBracket) => true,
            (TokenType::RBracket, TokenType::RBracket) => true,
            (TokenType::Equals, TokenType::Equals) => true,
            (TokenType::LParen, TokenType::LParen) => true,
            (TokenType::RParen, TokenType::RParen) => true,
            (TokenType::Eoi, TokenType::Eoi) => true,
            (TokenType::Id(a), TokenType::Id(b)) => a.eq(b),
            (TokenType::Str(a), TokenType::Str(b)) => a.eq(b),
            _ => false,
        }
    }

    fn in_class(&self, class: &TokenClass) -> (r: bool) {
        match (self, class) {
            (TokenType::Id(_), TokenClass::Identifier) => true,
            (TokenType::Str(_), TokenClass::StringLiteral) => true,
            _ => false,
        }
    }

    fn dup(&self) -> (r: Self) {
        match self {
            TokenType::Semicolon => TokenType::Semicolon,
            TokenType::Dollar => TokenType::Dollar,
            TokenType::Or => TokenType::Or,
            TokenType::Caret => TokenType::Caret,
            TokenType::LBracket => TokenType::LBracket,
            TokenType::RBracket => TokenType::RBracket,
            TokenType::Equals => TokenType::Equals,
            TokenType::LParen => TokenType::LParen,
            TokenType::RParen => TokenType::RParen,
            TokenType::Eoi => TokenType::Eoi,
            TokenType::Id(a) => TokenType::Id(a.clone()),
            TokenType::Str(a) => TokenType::Str(a.clone()),
        }
    }
}

/// Builds the grammar: a document is either a lone end-of-input token or
/// a repeated run of `id = "value"` items followed by end-of-input.
pub fn create_grammar_token_parser() -> (r: Combinator<TokenType>)
    ensures
        r is Choice,
        ({
            let c = r->Choice_0;
            &&& c.pty@ == "document"@
            &&& !c.optional
            &&& c.inner@.len() == 2
            &&& c.inner@[0] is OfType
            &&& c.inner@[0]->OfType_0.pty@ == "_"@
            &&& c.inner@[0]->OfType_0.ty is Eoi
            &&& !c.inner@[0]->OfType_0.optional
            &&& c.inner@[1] is Sequence
            &&& ({
                let body = c.inner@[1]->Sequence_0;
                &&& body.pty@ == "items"@
                &&& body.inner@.len() == 2
                &&& !body.optional
                &&& body.inner@[0] is Repeatable
                &&& body.inner@[0]->Repeatable_0.pty@ == "fields"@
                &&& body.inner@[0]->Repeatable_0.optional
                &&& ({
                    let item = *body.inner@[0]->Repeatable_0.inner;
                    &&& item is Sequence
                    &&& item->Sequence_0.pty@ == "item"@
                    &&& !item->Sequence_0.optional
                    &&& item->Sequence_0.inner@.len() == 3
                    &&& item->Sequence_0.inner@[0] is Predicate
                    &&& item->Sequence_0.inner@[0]->Predicate_0.pty@ == "id"@
                    &&& item->Sequence_0.inner@[0]->Predicate_0.class is Identifier
                    &&& !item->Sequence_0.inner@[0]->Predicate_0.optional
                    &&& item->Sequence_0.inner@[1] is OfType
                    &&& item->Sequence_0.inner@[1]->OfType_0.pty@ == "="@
                    &&& item->Sequence_0.inner@[1]->OfType_0.ty is Equals
                    &&& !item->Sequence_0.inner@[1]->OfType_0.optional
                    &&& item->Sequence_0.inner@[2] is Predicate
                    &&& item->Sequence_0.inner@[2]->Predicate_0.pty@ == "value"@
                    &&& item->Sequence_0.inner@[2]->Predicate_0.class is StringLiteral
                    &&& !item->Sequence_0.inner@[2]->Predicate_0.optional
                })
                &&& body.inner@[1] is OfType
                &&& body.inner@[1]->OfType_0.pty@ == "_"@
                &&& body.inner@[1]->OfType_0.ty is Eoi
                &&& !body.inner@[1]->OfType_0.optional
            })
        }),
{
    let mut item_children: Vec<Combinator<TokenType>> = Vec::new();
    item_children.push(
        Combinator::Predicate(Predicate::from("id", false, TokenClass::Identifier)),
    );
    item_children.push(Combinator::OfType(OfType::from("=", false, TokenType::Equals)));
    item_children.push(
        Combinator::Predicate(Predicate::from("value", false, TokenClass::StringLiteral)),
    );
    let item = Sequence::from("item", false, item_children);

    let mut body_children: Vec<Combinator<TokenType>> = Vec::new();
    body_children.push(
        Combinator::Repeatable(
            Repeatable::from("fields", true, Box::new(Combinator::Sequence(item))),
        ),
    );
    body_children.push(Combinator::OfType(OfType::from("_", false, TokenType::Eoi)));

    let mut alternatives: Vec<Combinator<TokenType>> = Vec::new();
    alternatives.push(Combinator::OfType(OfType::from("_", false, TokenType::Eoi)));
    alternatives.push(
        Combinator::Sequence(Sequence::from("items", false, body_children)),
    );

    Combinator::Choice(Choice::from("document", false, alternatives))
}

} // verus!
