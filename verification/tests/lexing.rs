use vextra::error::CompileError;
use vextra::parser::Parser;
use vextra::token::Token;

fn lex(src: &str) -> Vec<Token> {
    Parser::new(src.to_string()).tokenize().expect("lexing should succeed")
}

#[test]
fn lex_simple_program() {
    let tokens = lex("app:\"T\"{>div:\"hi\"{}}");
    assert_eq!(
        tokens,
        vec![
            Token::Identifier("app".to_string()),
            Token::Colon,
            Token::Literal("T".to_string()),
            Token::LBrace,
            Token::Gt,
            Token::Identifier("div".to_string()),
            Token::Colon,
            Token::Literal("hi".to_string()),
            Token::LBrace,
            Token::RBrace,
            Token::RBrace,
            Token::Eof,
        ]
    );
}

#[test]
fn lex_all_sigils() {
    let tokens = lex("{}>:#,@%;~?[]");
    assert_eq!(
        tokens,
        vec![
            Token::LBrace,
            Token::RBrace,
            Token::Gt,
            Token::Colon,
            Token::Hash,
            Token::Comma,
            Token::At,
            Token::Percent,
            Token::Semicolon,
            Token::Tilde,
            Token::QuestionMark,
            Token::LBracket,
            Token::RBracket,
            Token::Eof,
        ]
    );
}

#[test]
fn lex_double_equals() {
    let tokens = lex("x==3");
    assert_eq!(
        tokens,
        vec![
            Token::Identifier("x".to_string()),
            Token::Equals,
            Token::Number(3),
            Token::Eof,
        ]
    );
}

#[test]
fn lex_lone_equals_is_dropped() {
    let tokens = lex("a = b");
    assert_eq!(
        tokens,
        vec![
            Token::Identifier("a".to_string()),
            Token::Identifier("b".to_string()),
            Token::Eof,
        ]
    );
}

#[test]
fn lex_logic_literal() {
    let tokens = lex("$$ `alert(1)`");
    assert_eq!(
        tokens,
        vec![Token::Dollar, Token::Literal("alert(1)".to_string()), Token::Eof]
    );
}

#[test]
fn lex_lone_dollar_is_a_sigil() {
    let tokens = lex("$click");
    assert_eq!(
        tokens,
        vec![Token::Dollar, Token::Identifier("click".to_string()), Token::Eof]
    );
}

#[test]
fn lex_unterminated_quote_consumes_to_end() {
    let tokens = lex("\"abc");
    assert_eq!(tokens, vec![Token::Literal("abc".to_string()), Token::Eof]);
}

#[test]
fn lex_identifier_with_digits_and_underscores() {
    let tokens = lex("my_var2");
    assert_eq!(tokens, vec![Token::Identifier("my_var2".to_string()), Token::Eof]);
}

#[test]
fn lex_whitespace_is_dropped() {
    let tokens = lex("  \n\t ");
    assert_eq!(tokens, vec![Token::Eof]);
}

#[test]
fn lex_largest_number() {
    let tokens = lex("32767");
    assert_eq!(tokens, vec![Token::Number(32767), Token::Eof]);
}

#[test]
fn lex_number_overflow_is_fatal() {
    let r = Parser::new("32768".to_string()).tokenize();
    assert_eq!(r, Err(CompileError::NumberOverflow));
    let r = Parser::new("99999999".to_string()).tokenize();
    assert_eq!(r, Err(CompileError::NumberOverflow));
}

#[test]
fn lex_logic_without_backtick_consumes_to_end() {
    let tokens = lex("$$abc");
    assert_eq!(
        tokens,
        vec![Token::Dollar, Token::Literal(String::new()), Token::Eof]
    );
}

#[test]
fn lex_number_then_identifier() {
    let tokens = lex("12ab");
    assert_eq!(
        tokens,
        vec![
            Token::Number(12),
            Token::Identifier("ab".to_string()),
            Token::Eof,
        ]
    );
}

#[test]
fn lex_empty_input_is_end_of_input() {
    let tokens = lex("");
    assert_eq!(tokens, vec![Token::Eof]);
}
