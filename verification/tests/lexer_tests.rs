use pascal_compiler::lexer::lex;
use pascal_compiler::token::{Token, TokenType};

fn ok_tokens(text: &str) -> Vec<Token> {
    lex(text)
        .into_iter()
        .map(|r| r.expect("expected a token, found a lexical error"))
        .collect()
}

#[test]
fn integer_literal_round_trip() {
    let tokens = ok_tokens("123");
    assert_eq!(tokens.len(), 1);
    assert!(matches!(tokens[0].token, TokenType::Integer(123)));
}

#[test]
fn real_literal_round_trip() {
    let tokens = ok_tokens("12.5");
    assert_eq!(tokens.len(), 1);
    match &tokens[0].token {
        TokenType::Real(s) => assert_eq!(s, "12.5"),
        other => panic!("expected a real literal, found {:?}", other),
    }
}

#[test]
fn malformed_literal_is_one_error() {
    let results = lex("12x");
    assert_eq!(results.len(), 1);
    let err = results[0].as_ref().expect_err("12x must not lex as a token");
    assert_eq!(err.description, "Invalid int literal 12x");
    assert_eq!(err.pos.line, 1);
    assert_eq!(err.pos.col, 1);
}

#[test]
fn malformed_real_literal_is_one_error() {
    let results = lex("1.2.3");
    assert_eq!(results.len(), 1);
    let err = results[0].as_ref().expect_err("1.2.3 must not lex as a token");
    assert_eq!(err.description, "Invalid real literal 1.2.3");
}

#[test]
fn integer_overflow_is_lexical_error() {
    let results = lex("2147483648");
    assert_eq!(results.len(), 1);
    assert!(results[0].is_err());
    let ok = lex("2147483647");
    assert!(matches!(ok[0].as_ref().unwrap().token, TokenType::Integer(2147483647)));
}

#[test]
fn keywords_are_case_insensitive() {
    for text in ["BEGIN", "begin", "BeGiN"] {
        let tokens = ok_tokens(text);
        assert_eq!(tokens.len(), 1);
        assert!(
            matches!(tokens[0].token, TokenType::BeginKeyword),
            "{} must lex to the begin keyword",
            text
        );
    }
}

#[test]
fn keyword_prefix_is_identifier() {
    let tokens = ok_tokens("beginner");
    assert_eq!(tokens.len(), 1);
    match &tokens[0].token {
        TokenType::Identifier(s) => assert_eq!(s, "beginner"),
        other => panic!("expected an identifier, found {:?}", other),
    }
}

#[test]
fn all_keywords_lex() {
    let text = "div mod if else then or and while do type program begin end var";
    let tokens = ok_tokens(text);
    let expected = [
        TokenType::DivOp,
        TokenType::ModOp,
        TokenType::IfKeyword,
        TokenType::ElseKeyword,
        TokenType::ThenKeyword,
        TokenType::OrOp,
        TokenType::AndOp,
        TokenType::WhileKeyword,
        TokenType::DoKeyword,
        TokenType::TypeKeyword,
        TokenType::ProgramKeyword,
        TokenType::BeginKeyword,
        TokenType::EndKeyword,
        TokenType::VarKeyword,
    ];
    assert_eq!(tokens.len(), expected.len());
    for (t, e) in tokens.iter().zip(expected.iter()) {
        assert_eq!(
            std::mem::discriminant(&t.token),
            std::mem::discriminant(e),
            "wrong token for {:?}",
            e
        );
    }
}

#[test]
fn operators_and_punctuation_lex() {
    let tokens = ok_tokens("+ - * := : ; . , ( ) = <> < <= > >=");
    let expected = [
        TokenType::PlusOp,
        TokenType::MinusOp,
        TokenType::MulOp,
        TokenType::AssignOp,
        TokenType::Colon,
        TokenType::Semicolon,
        TokenType::Period,
        TokenType::Comma,
        TokenType::LBrace,
        TokenType::RBrace,
        TokenType::Eq,
        TokenType::UnEq,
        TokenType::Less,
        TokenType::LessEq,
        TokenType::Bigger,
        TokenType::BiggerEq,
    ];
    assert_eq!(tokens.len(), expected.len());
    for (t, e) in tokens.iter().zip(expected.iter()) {
        assert_eq!(std::mem::discriminant(&t.token), std::mem::discriminant(e));
    }
}

#[test]
fn string_literal_lexes() {
    let tokens = ok_tokens("'hello world'");
    assert_eq!(tokens.len(), 1);
    match &tokens[0].token {
        TokenType::StringLiteral(s) => assert_eq!(s, "hello world"),
        other => panic!("expected a string literal, found {:?}", other),
    }
}

#[test]
fn unterminated_string_is_lexical_error() {
    let results = lex("'oops");
    assert_eq!(results.len(), 1);
    let err = results[0].as_ref().expect_err("an unterminated string must not lex");
    assert_eq!(err.description, "Invalid string literal");
}

#[test]
fn unsupported_symbol_is_consumed_and_reported() {
    let results = lex("# 1");
    assert_eq!(results.len(), 2);
    let err = results[0].as_ref().expect_err("# is not a supported symbol");
    assert_eq!(err.description, "Unsupported symbol #");
    assert!(matches!(results[1].as_ref().unwrap().token, TokenType::Integer(1)));
}

#[test]
fn positions_are_one_based_and_track_lines() {
    let tokens = ok_tokens("a\n  b");
    assert_eq!(tokens.len(), 2);
    assert_eq!((tokens[0].pos.line, tokens[0].pos.col), (1, 1));
    assert_eq!((tokens[1].pos.line, tokens[1].pos.col), (2, 3));
}

#[test]
fn positions_never_decrease() {
    let results = lex("program P;\nvar x: integer;\nbegin x := 1 + 2.5; @ end.");
    let mut last = (0usize, 0usize);
    for r in results {
        let pos = match r {
            Ok(t) => t.pos,
            Err(e) => e.pos,
        };
        assert!(
            (pos.line, pos.col) >= last,
            "position {:?} went backwards from {:?}",
            (pos.line, pos.col),
            last
        );
        last = (pos.line, pos.col);
    }
}

#[test]
fn assign_operator_needs_no_space() {
    let tokens = ok_tokens("x:=1");
    assert_eq!(tokens.len(), 3);
    assert!(matches!(tokens[0].token, TokenType::Identifier(_)));
    assert!(matches!(tokens[1].token, TokenType::AssignOp));
    assert!(matches!(tokens[2].token, TokenType::Integer(1)));
}

#[test]
fn token_class_predicates_match_their_sets() {
    let rel = ok_tokens("= <> < <= > >=");
    for t in &rel {
        assert!(t.is_rel_op());
        assert!(!t.is_add_op() && !t.is_mul_op());
    }
    let add = ok_tokens("+ - or");
    for t in &add {
        assert!(t.is_add_op());
        assert!(!t.is_rel_op() && !t.is_mul_op());
    }
    let mul = ok_tokens("* div mod and");
    for t in &mul {
        assert!(t.is_mul_op());
        assert!(!t.is_rel_op() && !t.is_add_op());
    }
    let ends = ok_tokens(") ; end");
    for t in &ends {
        assert!(t.is_expression_end());
    }
    let not_end = ok_tokens("( x 1");
    for t in &not_end {
        assert!(!t.is_expression_end());
    }
}
