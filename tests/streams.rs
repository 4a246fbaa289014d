use script_runtime::lexer::{
    CharStream, Lexer, ParsedToken, ParsedTokenStream, Parser, Token, TokenStream, TokenType,
};

#[test]
fn char_stream_reads_and_looks_ahead() {
    let mut s = CharStream::new();
    for c in "case x".chars() {
        s.push(c);
    }
    assert_eq!(s.get_index(), 0);
    assert!(s.has_next());
    assert_eq!(s.next(), 'c');
    assert_eq!(s.get_index(), 1);
    assert_eq!(s.lookahead(0), 'a');
    assert_eq!(s.lookahead(2), 'e');
    assert_eq!(s.lookahead_multi(2), "ase");
    assert_eq!(s.lookahead_range(0, 3), "case");
    assert_eq!(s.lookahead_range(3, 2), "");
    assert!(s.has_next_multi(5));
    assert!(!s.has_next_multi(6));
    for _ in 0..5 {
        s.next();
    }
    assert!(!s.has_next());
}

#[test]
fn char_stream_from_text() {
    let s = CharStream::from_text("ab");
    assert_eq!(s.lookahead_range(0, 1), "ab");
}

#[test]
fn token_stream_reads_in_order() {
    let mut t = TokenStream::new();
    t.push(Token::new(TokenType::If));
    t.push(Token::new(TokenType::Text));
    t.push(Token::new(TokenType::Fi));
    assert_eq!(*t.lookahead(2).get_type(), TokenType::Fi);
    assert_eq!(*t.next().get_type(), TokenType::If);
    assert_eq!(t.get_index(), 1);
    assert_eq!(*t.lookahead(0).get_type(), TokenType::Text);
    t.next();
    t.next();
    assert!(!t.has_next());
}

#[test]
fn parsed_token_stream_sets_operands() {
    let mut p = ParsedTokenStream::new();
    p.push(ParsedToken::new(Token::new(TokenType::Pipe)));
    p.push(ParsedToken::new(Token::new(TokenType::Text)));
    p.change_left_operand(0, ParsedToken::new(Token::new(TokenType::Text)));
    p.change_right_operand(0, ParsedToken::new(Token::new(TokenType::EOF)));
    let first = p.lookahead(0);
    assert_eq!(first.base_token, Token::new(TokenType::Pipe));
    assert_eq!(first.left_operand.unwrap().base_token, Token::new(TokenType::Text));
    assert_eq!(first.right_operand.unwrap().base_token, Token::new(TokenType::EOF));
    assert!(p.has_next());
    p.next();
    let second = p.next();
    assert_eq!(*second.base_token.get_type(), TokenType::Text);
    assert!(!p.has_next());
}

#[test]
fn parser_tracks_nesting_depths() {
    let mut lexer = Lexer::new("");
    for k in [
        TokenType::LeftCurlyBrace,
        TokenType::LeftCurlyBrace,
        TokenType::RightCurlyBrace,
        TokenType::LeftDoubleParen,
        TokenType::RightSquareBracket,
        TokenType::Text,
        TokenType::LeftParen,
        TokenType::RightParen,
        TokenType::LeftDoubleSquareBracket,
    ] {
        lexer.output.push(Token::new(k));
    }
    let mut parser = Parser::new(lexer);
    parser.parse();
    assert_eq!(parser.brace_depth(), 1);
    assert_eq!(parser.bracket_depth(), -1);
    assert_eq!(parser.paren_depth(), 0);
    assert_eq!(parser.double_bracket_depth(), 1);
    assert_eq!(parser.double_paren_depth(), 1);
}
