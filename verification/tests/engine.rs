use parsekit::grammar::{TokenClass, TokenType};
use parsekit::parse::{
    Choice, Combinator, Context, Not, OfType, ParseData, ParseResult, Predicate, Repeatable,
    Sequence,
};
use parsekit::parse::Parser;
use parsekit::token::{Span, Token};

fn tok(ty: TokenType, pos: usize) -> Token<TokenType> {
    Token::new(ty, Span::new(1, pos * 10 + 1, pos * 10 + 5))
}

#[test]
fn span_getters() {
    let s = Span::new(2, 3, 7);
    assert_eq!(s.ln(), 2);
    assert_eq!(s.cs(), 3);
    assert_eq!(s.ce(), 7);
    assert_eq!(Span::default(), Span::new(1, 1, 1));
}

#[test]
fn token_getters() {
    let t = Token::new(TokenType::Equals, Span::new(4, 2, 6));
    assert_eq!(*t.ty(), TokenType::Equals);
    assert_eq!(*t.span(), Span::new(4, 2, 6));
    assert_eq!(t.span_size(), 5);
}

#[test]
fn context_lookup() {
    let tokens = vec![tok(TokenType::Dollar, 0), tok(TokenType::Eoi, 1)];
    let ctx = Context::new(&tokens);
    assert_eq!(*ctx.get(0).unwrap().ty(), TokenType::Dollar);
    assert_eq!(*ctx.get(1).unwrap().ty(), TokenType::Eoi);
    assert!(ctx.get(2).is_none());
    assert_eq!(ctx.span_last(), *tokens[1].span());

    let empty: Vec<Token<TokenType>> = vec![];
    let ctx = Context::new(&empty);
    assert_eq!(ctx.span_last(), Span::new(1, 1, 1));
}

#[test]
fn context_get_required_end_of_input() {
    let tokens = vec![tok(TokenType::Dollar, 0)];
    let ctx = Context::new(&tokens);
    match ctx.get_required("rule", 1, false) {
        Err(ParseResult::Failed(e)) => {
            assert_eq!(e.expected, "rule");
            assert_eq!(*e.span(), *tokens[0].span());
            assert_eq!(e.message, "Unexpected end of input");
        }
        _ => panic!("expected a hard failure"),
    }
    match ctx.get_required("rule", 1, true) {
        Err(ParseResult::Missed) => {}
        _ => panic!("expected a soft non-match"),
    }
}

#[test]
fn of_type_match_consumes_one() {
    let tokens = vec![tok(TokenType::Equals, 0), tok(TokenType::Eoi, 1)];
    let ctx = Context::new(&tokens);
    let p = OfType::from("eq", false, TokenType::Equals);
    let r = p.parse(&ctx, 0);
    assert_eq!(r.type_parsed(), "eq");
    assert_eq!(r.start_offset(), 0);
    assert_eq!(r.end_offset(), 1);
    assert_eq!(r.size(), 1);
    match r.data() {
        ParseResult::Matched(ParseData::Token(t)) => {
            assert_eq!(*t.ty(), TokenType::Equals);
            assert_eq!(*t.span(), *tokens[0].span());
        }
        _ => panic!("expected a single matched token"),
    }
}

#[test]
fn of_type_mismatch_consumes_zero() {
    let tokens = vec![tok(TokenType::Dollar, 0)];
    let ctx = Context::new(&tokens);
    let p = OfType::from("eq", false, TokenType::Equals);
    let r = p.parse(&ctx, 0);
    assert_eq!(r.size(), 0);
    match r.data() {
        ParseResult::Failed(e) => {
            assert_eq!(e.expected, "eq");
            assert_eq!(*e.span(), *tokens[0].span());
            assert_eq!(e.message, "Syntax error");
        }
        _ => panic!("expected a hard failure"),
    }
}

#[test]
fn of_type_compares_payloads() {
    let tokens = vec![tok(TokenType::Id(String::from("a")), 0)];
    let ctx = Context::new(&tokens);
    let same = OfType::from("id-a", false, TokenType::Id(String::from("a")));
    assert!(matches!(same.parse(&ctx, 0).data(), ParseResult::Matched(_)));
    let other = OfType::from("id-b", false, TokenType::Id(String::from("b")));
    assert!(matches!(other.parse(&ctx, 0).data(), ParseResult::Failed(_)));
}

#[test]
fn of_type_end_of_input() {
    let tokens: Vec<Token<TokenType>> = vec![];
    let ctx = Context::new(&tokens);
    let mandatory = OfType::from("eq", false, TokenType::Equals);
    match mandatory.parse(&ctx, 0).data() {
        ParseResult::Failed(e) => {
            assert_eq!(e.message, "Unexpected end of input");
            assert_eq!(*e.span(), Span::new(1, 1, 1));
        }
        _ => panic!("expected a hard failure"),
    }
    let optional = OfType::from("eq", true, TokenType::Equals);
    assert!(matches!(optional.parse(&ctx, 0).data(), ParseResult::Missed));
}

#[test]
fn predicate_matches_class() {
    let tokens = vec![tok(TokenType::Id(String::from("key")), 0)];
    let ctx = Context::new(&tokens);
    let p = Predicate::from("id", false, TokenClass::Identifier);
    let r = p.parse(&ctx, 0);
    assert_eq!(r.size(), 1);
    assert!(matches!(r.data(), ParseResult::Matched(ParseData::Token(_))));

    // A mismatch consumes zero positions, the same convention as OfType.
    let q = Predicate::from("value", false, TokenClass::StringLiteral);
    let r = q.parse(&ctx, 0);
    assert_eq!(r.size(), 0);
    match r.data() {
        ParseResult::Failed(e) => {
            assert_eq!(e.expected, "value");
            assert_eq!(*e.span(), *tokens[0].span());
        }
        _ => panic!("expected a hard failure"),
    }
}

#[test]
fn sequence_sums_children_and_skips_missed() {
    // [Equals, Dollar]: three children, the middle one a lookahead that
    // misses softly, so the payload has two entries and two tokens are
    // consumed.
    let tokens = vec![
        tok(TokenType::Equals, 0),
        tok(TokenType::Dollar, 1),
        tok(TokenType::Eoi, 2),
    ];
    let ctx = Context::new(&tokens);
    let s = Sequence::from(
        "pair",
        false,
        vec![
            Combinator::OfType(OfType::from("eq", false, TokenType::Equals)),
            Combinator::Not(Not::new(
                String::from("no-caret"),
                true,
                Box::new(Combinator::OfType(OfType::from("caret", false, TokenType::Caret))),
            )),
            Combinator::OfType(OfType::from("dollar", false, TokenType::Dollar)),
        ],
    );
    let r = s.parse(&ctx, 0);
    assert_eq!(r.size(), 2);
    match r.data() {
        ParseResult::Matched(ParseData::Nested(items)) => assert_eq!(items.len(), 2),
        _ => panic!("expected a nested payload"),
    }
}

#[test]
fn sequence_propagates_child_error() {
    let tokens = vec![tok(TokenType::Equals, 0), tok(TokenType::Caret, 1)];
    let ctx = Context::new(&tokens);
    let children = |label: &str| {
        vec![
            Combinator::OfType(OfType::from("eq", false, TokenType::Equals)),
            Combinator::OfType(OfType::from(label, false, TokenType::Dollar)),
        ]
    };
    let hard = Sequence::from("pair", false, children("dollar"));
    let r = hard.parse(&ctx, 0);
    assert_eq!(r.start_offset(), 0);
    assert_eq!(r.end_offset(), 1);
    match r.data() {
        ParseResult::Failed(e) => {
            // The failing child's error comes through verbatim.
            assert_eq!(e.expected, "dollar");
            assert_eq!(*e.span(), *tokens[1].span());
        }
        _ => panic!("expected a hard failure"),
    }

    // An optional sequence swallows the error into a soft non-match but
    // still records the partial consumption in its end offset.
    let soft = Sequence::from("pair", true, children("dollar"));
    let r = soft.parse(&ctx, 0);
    assert!(matches!(r.data(), ParseResult::Missed));
    assert_eq!(r.end_offset(), 1);
}

#[test]
fn repeatable_without_match_misses_or_fails() {
    let tokens = vec![tok(TokenType::Caret, 0)];
    let ctx = Context::new(&tokens);
    let child = || Box::new(Combinator::OfType(OfType::from("dollar", false, TokenType::Dollar)));

    let optional = Repeatable::from("run", true, child());
    let r = optional.parse(&ctx, 0);
    assert!(matches!(r.data(), ParseResult::Missed));
    assert_eq!(r.size(), 0);

    let mandatory = Repeatable::from("run", false, child());
    let r = mandatory.parse(&ctx, 0);
    match r.data() {
        ParseResult::Failed(e) => assert_eq!(e.expected, "dollar"),
        _ => panic!("expected a hard failure"),
    }
    assert_eq!(r.size(), 0);
}

#[test]
fn repeatable_fallback_error_carries_own_label() {
    // The child misses softly on the first try (an optional matcher at
    // end of input), so the mandatory repetition synthesizes its own
    // error.
    let tokens: Vec<Token<TokenType>> = vec![tok(TokenType::Dollar, 0)];
    let ctx = Context::new(&tokens);
    let child = Box::new(Combinator::OfType(OfType::from("eq", true, TokenType::Equals)));
    let rep = Repeatable::from("run", false, child);
    let r = rep.parse(&ctx, 1);
    match r.data() {
        ParseResult::Failed(e) => {
            assert_eq!(e.expected, "run");
            assert_eq!(*e.span(), *tokens[0].span());
            assert_eq!(e.message, "Syntax error");
        }
        _ => panic!("expected a hard failure"),
    }
}

#[test]
fn repeatable_collects_until_failure() {
    // The child matches exactly twice, then fails; the trailing error is
    // discarded and the consumption is the sum of the two matches.
    let tokens = vec![
        tok(TokenType::Dollar, 0),
        tok(TokenType::Dollar, 1),
        tok(TokenType::Caret, 2),
    ];
    let ctx = Context::new(&tokens);
    let child = Box::new(Combinator::OfType(OfType::from("dollar", false, TokenType::Dollar)));
    let rep = Repeatable::from("run", false, child);
    let r = rep.parse(&ctx, 0);
    assert_eq!(r.size(), 2);
    match r.data() {
        ParseResult::Matched(ParseData::Nested(items)) => {
            assert_eq!(items.len(), 2);
            for item in items {
                assert!(matches!(item, ParseData::Token(t) if *t.ty() == TokenType::Dollar));
            }
        }
        _ => panic!("expected a nested payload"),
    }
}

#[test]
fn repeatable_stops_on_zero_width_match() {
    // A child that matches without representing any item could repeat
    // forever; the repetition collects it once and stops.
    let tokens = vec![tok(TokenType::Dollar, 0)];
    let ctx = Context::new(&tokens);
    let empty_seq = Combinator::Sequence(Sequence::from(
        "empty",
        false,
        vec![Combinator::OfType(OfType::from("eq", true, TokenType::Equals))],
    ));
    let rep = Repeatable::from("run", false, Box::new(empty_seq));
    let r = rep.parse(&ctx, 1);
    assert_eq!(r.size(), 0);
    match r.data() {
        ParseResult::Matched(ParseData::Nested(items)) => assert_eq!(items.len(), 1),
        _ => panic!("expected a nested payload"),
    }
}

#[test]
fn choice_returns_first_match_verbatim() {
    let tokens = vec![tok(TokenType::Dollar, 0)];
    let ctx = Context::new(&tokens);
    let c = Choice::from(
        "either",
        false,
        vec![
            Combinator::OfType(OfType::from("eq", false, TokenType::Equals)),
            Combinator::OfType(OfType::from("dollar", false, TokenType::Dollar)),
        ],
    );
    let r = c.parse(&ctx, 0);
    // The second alternative's outcome, unmodified: its label, its data,
    // its cursor range.
    assert_eq!(r.type_parsed(), "dollar");
    assert_eq!(r.start_offset(), 0);
    assert_eq!(r.end_offset(), 1);
    assert!(matches!(r.data(), ParseResult::Matched(ParseData::Token(_))));
}

#[test]
fn choice_exhausted_reports_summary_error() {
    let tokens = vec![tok(TokenType::Dollar, 0), tok(TokenType::Eoi, 1)];
    let ctx = Context::new(&tokens);
    let alternatives = || {
        vec![
            Combinator::OfType(OfType::from("eq", false, TokenType::Equals)),
            Combinator::OfType(OfType::from("caret", false, TokenType::Caret)),
        ]
    };
    let c = Choice::from("either", false, alternatives());
    let r = c.parse(&ctx, 0);
    assert_eq!(r.size(), 0);
    match r.data() {
        ParseResult::Failed(e) => {
            // One summary error under the choice's own label, anchored at
            // the last token of the input.
            assert_eq!(e.expected, "either");
            assert_eq!(*e.span(), *tokens[1].span());
        }
        _ => panic!("expected a hard failure"),
    }

    // An optional choice misses softly instead.
    let c = Choice::from("either", true, alternatives());
    let r = c.parse(&ctx, 0);
    assert!(matches!(r.data(), ParseResult::Missed));
    assert_eq!(r.size(), 0);
}

#[test]
fn not_inverts_child_outcome() {
    let tokens = vec![tok(TokenType::Dollar, 0)];
    let ctx = Context::new(&tokens);
    let matching = || Box::new(Combinator::OfType(OfType::from("dollar", false, TokenType::Dollar)));
    let failing = || Box::new(Combinator::OfType(OfType::from("eq", false, TokenType::Equals)));

    // Over a matching child, a mandatory lookahead fails, anchored at the
    // first token the child matched.
    let n = Not::new(String::from("no-dollar"), false, matching());
    let r = n.parse(&ctx, 0);
    match r.data() {
        ParseResult::Failed(e) => {
            assert_eq!(e.expected, "no-dollar");
            assert_eq!(*e.span(), *tokens[0].span());
        }
        _ => panic!("expected a hard failure"),
    }

    // An optional lookahead downgrades the violation to a soft non-match.
    let n = Not::new(String::from("no-dollar"), true, matching());
    assert!(matches!(n.parse(&ctx, 0).data(), ParseResult::Missed));

    // Over a failing child the lookahead misses softly; it never matches.
    let n = Not::new(String::from("no-eq"), false, failing());
    assert!(matches!(n.parse(&ctx, 0).data(), ParseResult::Missed));
}

#[test]
fn not_anchors_error_at_leftmost_token() {
    // When the forbidden child matches a whole sequence, the violation is
    // anchored at the first token inside the matched tree.
    let tokens = vec![tok(TokenType::Equals, 0), tok(TokenType::Dollar, 1)];
    let ctx = Context::new(&tokens);
    let pair = Combinator::Sequence(Sequence::from(
        "pair",
        false,
        vec![
            Combinator::OfType(OfType::from("eq", false, TokenType::Equals)),
            Combinator::OfType(OfType::from("dollar", false, TokenType::Dollar)),
        ],
    ));
    let n = Not::new(String::from("no-pair"), false, Box::new(pair));
    let r = n.parse(&ctx, 0);
    match r.data() {
        ParseResult::Failed(e) => assert_eq!(*e.span(), *tokens[0].span()),
        _ => panic!("expected a hard failure"),
    }
}

#[test]
fn predicate_end_of_input() {
    let tokens: Vec<Token<TokenType>> = vec![tok(TokenType::Dollar, 0)];
    let ctx = Context::new(&tokens);
    let mandatory = Predicate::from("id", false, TokenClass::Identifier);
    match mandatory.parse(&ctx, 1).data() {
        ParseResult::Failed(e) => {
            assert_eq!(e.message, "Unexpected end of input");
            assert_eq!(*e.span(), *tokens[0].span());
        }
        _ => panic!("expected a hard failure"),
    }
    let optional = Predicate::from("id", true, TokenClass::Identifier);
    assert!(matches!(optional.parse(&ctx, 1).data(), ParseResult::Missed));
}

#[test]
fn string_payload_equality() {
    let tokens = vec![tok(TokenType::Str(String::from("x")), 0)];
    let ctx = Context::new(&tokens);
    let same = OfType::from("str-x", false, TokenType::Str(String::from("x")));
    assert!(matches!(same.parse(&ctx, 0).data(), ParseResult::Matched(_)));
    let other = OfType::from("str-y", false, TokenType::Str(String::from("y")));
    assert!(matches!(other.parse(&ctx, 0).data(), ParseResult::Failed(_)));
    let wrong_kind = OfType::from("id-x", false, TokenType::Id(String::from("x")));
    assert!(matches!(wrong_kind.parse(&ctx, 0).data(), ParseResult::Failed(_)));
}

#[test]
fn parse_error_constructors() {
    let e = parsekit::parse::ParseError::from(String::from("rule"), Span::new(3, 1, 2));
    assert_eq!(e.expected, "rule");
    assert_eq!(*e.span(), Span::new(3, 1, 2));
    assert_eq!(e.message, "Syntax error");

    let e = parsekit::parse::ParseError::new(String::from("rule"), Span::new(3, 1, 2), "custom");
    assert_eq!(e.message, "custom");
}

#[test]
fn parse_accessors() {
    let p: parsekit::parse::Parse<'_, TokenType> =
        parsekit::parse::Parse::new("rule", ParseResult::Missed, 2, 5);
    assert_eq!(p.type_parsed(), "rule");
    assert_eq!(p.start_offset(), 2);
    assert_eq!(p.end_offset(), 5);
    assert_eq!(p.size(), 3);
    assert!(matches!(p.data(), ParseResult::Missed));
}
