use script_runtime::lexer::{Lexer, TokenType};
use TokenType::{
    Do, Fi, In, LeftCurlyBrace, LeftParen, LeftSquareBracket, Pipe, Redir, RedirAppend,
    RightCurlyBrace, RightParen, RightSquareBracket, Text, EOF,
};

fn lex_kinds(input: &str) -> Vec<TokenType> {
    let mut lexer = Lexer::new(input);
    lexer.lex();
    let mut out = Vec::new();
    while lexer.output.has_next() {
        out.push(*lexer.output.next().get_type());
    }
    out
}

#[test]
fn lex_pipe() {
    assert_eq!(lex_kinds("|"), vec![Pipe, EOF]);
}

#[test]
fn lex_braces_with_whitespace() {
    assert_eq!(
        lex_kinds("{ }"),
        vec![LeftCurlyBrace, EOF, RightCurlyBrace, EOF]
    );
}

#[test]
fn lex_single_brackets() {
    assert_eq!(
        lex_kinds("[ ] ( )"),
        vec![LeftSquareBracket, EOF, RightSquareBracket, EOF, LeftParen, EOF, RightParen, EOF]
    );
}

#[test]
fn lex_redirection_looks_one_past_the_next_character() {
    assert_eq!(lex_kinds("> a"), vec![Redir, EOF, EOF]);
    assert_eq!(lex_kinds(">| x"), vec![Redir, EOF, Pipe, EOF, EOF]);
    assert_eq!(lex_kinds(">  >"), vec![Redir, EOF, EOF]);
    assert_eq!(lex_kinds(">x>"), vec![RedirAppend, EOF, EOF]);
}

#[test]
fn lex_words() {
    assert_eq!(lex_kinds("a"), vec![EOF]);
    assert_eq!(lex_kinds("abc"), vec![Text, EOF]);
    assert_eq!(lex_kinds("caseX  "), vec![Text, Text, EOF]);
    assert_eq!(lex_kinds("q9+ "), vec![Text, EOF]);
}

#[test]
fn lex_two_letter_keywords() {
    assert_eq!(lex_kinds("d?o"), vec![Do, EOF, EOF]);
    assert_eq!(lex_kinds("fxi"), vec![Fi, EOF, EOF]);
    assert_eq!(lex_kinds("ixn  "), vec![In, EOF, EOF]);
}

#[test]
fn lex_skips_comments() {
    assert_eq!(lex_kinds("# c\n|"), vec![Pipe, EOF]);
    assert_eq!(lex_kinds("#\n{"), vec![LeftCurlyBrace, EOF]);
}

#[test]
fn lex_empty_input() {
    assert_eq!(lex_kinds(""), vec![]);
    assert_eq!(lex_kinds(" \t\r\n"), vec![]);
}
