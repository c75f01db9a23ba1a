use parsekit::grammar::{create_grammar_token_parser, TokenType};
use parsekit::parse::{Context, ParseData, ParseResult, Parser};
use parsekit::token::{Span, Token};

fn tok(ty: TokenType, pos: usize) -> Token<TokenType> {
    Token::new(ty, Span::new(1, pos * 10 + 1, pos * 10 + 5))
}

#[test]
fn document_with_one_item_parses() {
    let tokens = vec![
        tok(TokenType::Id(String::from("a")), 0),
        tok(TokenType::Equals, 1),
        tok(TokenType::Str(String::from("x")), 2),
        tok(TokenType::Eoi, 3),
    ];
    let ctx = Context::new(&tokens);
    let grammar = create_grammar_token_parser();
    let r = grammar.parse(&ctx, 0);
    assert_eq!(r.type_parsed(), "items");
    assert_eq!(r.start_offset(), 0);
    assert_eq!(r.end_offset(), 4);
    match r.data() {
        ParseResult::Matched(ParseData::Nested(parts)) => {
            assert_eq!(parts.len(), 2);
            // One repetition payload holding one item of three tokens.
            match &parts[0] {
                ParseData::Nested(fields) => {
                    assert_eq!(fields.len(), 1);
                    match &fields[0] {
                        ParseData::Nested(item) => {
                            assert_eq!(item.len(), 3);
                            assert!(matches!(
                                &item[0],
                                ParseData::Token(t) if *t.ty() == TokenType::Id(String::from("a"))
                            ));
                            assert!(matches!(
                                &item[1],
                                ParseData::Token(t) if *t.ty() == TokenType::Equals
                            ));
                            assert!(matches!(
                                &item[2],
                                ParseData::Token(t) if *t.ty() == TokenType::Str(String::from("x"))
                            ));
                        }
                        _ => panic!("expected a nested item"),
                    }
                }
                _ => panic!("expected the repetition's payload"),
            }
            // The terminating end-of-input token.
            assert!(matches!(
                &parts[1],
                ParseData::Token(t) if *t.ty() == TokenType::Eoi
            ));
        }
        _ => panic!("expected a match"),
    }
}

#[test]
fn empty_document_parses_via_zero_items_branch() {
    let tokens = vec![tok(TokenType::Eoi, 0)];
    let ctx = Context::new(&tokens);
    let grammar = create_grammar_token_parser();
    let r = grammar.parse(&ctx, 0);
    assert_eq!(r.type_parsed(), "_");
    assert_eq!(r.end_offset(), 1);
    match r.data() {
        ParseResult::Matched(ParseData::Token(t)) => assert_eq!(*t.ty(), TokenType::Eoi),
        _ => panic!("expected the end-of-input token"),
    }
}

#[test]
fn missing_value_fails_at_end_of_input_token() {
    let tokens = vec![
        tok(TokenType::Id(String::from("a")), 0),
        tok(TokenType::Equals, 1),
        tok(TokenType::Eoi, 2),
    ];
    let ctx = Context::new(&tokens);
    let grammar = create_grammar_token_parser();
    let r = grammar.parse(&ctx, 0);
    match r.data() {
        ParseResult::Failed(e) => {
            // The span points at the Eoi token, where the value was
            // expected.
            assert_eq!(*e.span(), *tokens[2].span());
        }
        _ => panic!("expected a hard failure"),
    }
}

#[test]
fn document_with_two_items_parses() {
    let tokens = vec![
        tok(TokenType::Id(String::from("a")), 0),
        tok(TokenType::Equals, 1),
        tok(TokenType::Str(String::from("x")), 2),
        tok(TokenType::Id(String::from("b")), 3),
        tok(TokenType::Equals, 4),
        tok(TokenType::Str(String::from("y")), 5),
        tok(TokenType::Eoi, 6),
    ];
    let ctx = Context::new(&tokens);
    let grammar = create_grammar_token_parser();
    let r = grammar.parse(&ctx, 0);
    assert_eq!(r.end_offset(), 7);
    match r.data() {
        ParseResult::Matched(ParseData::Nested(parts)) => match &parts[0] {
            ParseData::Nested(fields) => assert_eq!(fields.len(), 2),
            _ => panic!("expected the repetition's payload"),
        },
        _ => panic!("expected a match"),
    }
}
