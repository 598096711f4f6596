use jlox::scanner::Scanner;
use jlox::token::{Token, TokenType};

fn scan(source: &str) -> Vec<Token> {
    let mut scanner = Scanner::new(source);
    scanner.scan_tokens();
    scanner.tokens
}

fn kinds(source: &str) -> Vec<TokenType> {
    scan(source).into_iter().map(|t| t.kind).collect()
}

#[test]
fn empty_input_yields_a_single_end_of_stream_token() {
    let tokens = scan("");
    assert_eq!(tokens.len(), 1);
    assert_eq!(tokens[0].kind, TokenType::EOF);
    assert_eq!(tokens[0].lexeme, "");
    assert_eq!(tokens[0].line, 1);
}

#[test]
fn single_character_tokens() {
    assert_eq!(
        kinds("(){},.-+;/*"),
        vec![
            TokenType::LeftParen,
            TokenType::RightParen,
            TokenType::LeftBrace,
            TokenType::RightBrace,
            TokenType::Comma,
            TokenType::Dot,
            TokenType::Minus,
            TokenType::Plus,
            TokenType::Semicolon,
            TokenType::Slash,
            TokenType::Star,
            TokenType::EOF,
        ]
    );
}

#[test]
fn maximal_munch_prefers_two_character_operators() {
    assert_eq!(
        kinds("!= == <= >= ! = < >"),
        vec![
            TokenType::BangEqual,
            TokenType::EqualEqual,
            TokenType::LessEqual,
            TokenType::GreaterEqual,
            TokenType::Bang,
            TokenType::Equal,
            TokenType::Less,
            TokenType::Greater,
            TokenType::EOF,
        ]
    );
}

#[test]
fn number_lexeme_carries_its_decoded_value() {
    let tokens = scan("2.5");
    assert_eq!(tokens[0].kind, TokenType::Number(2.5f64.to_bits()));
    assert_eq!(tokens[0].lexeme, "2.5");
}

#[test]
fn trailing_dot_is_not_part_of_the_number() {
    assert_eq!(
        kinds("1."),
        vec![TokenType::Number(1.0f64.to_bits()), TokenType::Dot, TokenType::EOF]
    );
}

#[test]
fn string_token_carries_text_between_quotes() {
    let tokens = scan("\"hi\"");
    assert_eq!(tokens[0].kind, TokenType::String(String::from("hi")));
    assert_eq!(tokens[0].lexeme, "\"hi\"");
}

#[test]
fn unterminated_string_yields_exactly_one_error_token() {
    let tokens = scan("\"abc");
    assert_eq!(tokens.len(), 2);
    assert_eq!(
        tokens[0].kind,
        TokenType::SyntaxErr(String::from("Unterminated string"))
    );
    assert_eq!(tokens[0].lexeme, "\"abc");
    assert_eq!(tokens[1].kind, TokenType::EOF);
}

#[test]
fn comment_runs_to_end_of_line_and_is_discarded() {
    assert_eq!(
        kinds("1 // all of this is ignored ()*\n2"),
        vec![
            TokenType::Number(1.0f64.to_bits()),
            TokenType::Number(2.0f64.to_bits()),
            TokenType::EOF,
        ]
    );
}

#[test]
fn keywords_and_identifiers() {
    assert_eq!(
        kinds("true false nil and or while foo _bar nil0"),
        vec![
            TokenType::True,
            TokenType::False,
            TokenType::Nil,
            TokenType::And,
            TokenType::Or,
            TokenType::While,
            TokenType::Identifier,
            TokenType::Identifier,
            TokenType::Identifier,
            TokenType::EOF,
        ]
    );
}

#[test]
fn unrecognized_character_still_yields_the_rest_of_the_line() {
    let tokens = scan("1 @ 2");
    assert_eq!(tokens[0].kind, TokenType::Number(1.0f64.to_bits()));
    assert_eq!(
        tokens[1].kind,
        TokenType::SyntaxErr(String::from("Invalid character"))
    );
    assert_eq!(tokens[1].lexeme, "@");
    assert_eq!(tokens[1].line, 1);
    assert_eq!(tokens[2].kind, TokenType::Number(2.0f64.to_bits()));
    assert_eq!(tokens[3].kind, TokenType::EOF);
}

#[test]
fn unrecognized_character_reports_its_source_line() {
    let tokens = scan("1\n@\n2");
    assert_eq!(tokens[0].line, 1);
    assert_eq!(
        tokens[1].kind,
        TokenType::SyntaxErr(String::from("Invalid character"))
    );
    assert_eq!(tokens[1].line, 2);
    assert_eq!(tokens[2].kind, TokenType::Number(2.0f64.to_bits()));
    assert_eq!(tokens[2].line, 3);
    assert_eq!(tokens[3].line, 3);
}

#[test]
fn newline_increments_the_line_counter() {
    let tokens = scan("1+\n2");
    assert_eq!(tokens[0].line, 1);
    assert_eq!(tokens[1].line, 1);
    assert_eq!(tokens[2].line, 2);
    assert_eq!(tokens[3].kind, TokenType::EOF);
    assert_eq!(tokens[3].line, 2);
}

#[test]
fn whitespace_is_skipped() {
    assert_eq!(
        kinds(" \t\r 7 "),
        vec![TokenType::Number(7.0f64.to_bits()), TokenType::EOF]
    );
}

#[test]
fn stream_always_ends_with_exactly_one_end_of_stream_token() {
    for source in ["", "1+2", "\"open", "@#$", "// only a comment"] {
        let tokens = scan(source);
        assert!(!tokens.is_empty());
        assert_eq!(tokens.last().unwrap().kind, TokenType::EOF);
        for t in &tokens[..tokens.len() - 1] {
            assert_ne!(t.kind, TokenType::EOF);
        }
    }
}

#[test]
fn multi_line_string_does_not_advance_the_line_counter() {
    let tokens = scan("\"a\nb\"\n2");
    assert_eq!(tokens[0].kind, TokenType::String(String::from("a\nb")));
    assert_eq!(tokens[0].line, 1);
    // The newline inside the literal is not counted; only the one outside
    // the quotes advances the counter.
    assert_eq!(tokens[1].kind, TokenType::Number(2.0f64.to_bits()));
    assert_eq!(tokens[1].line, 2);
}
