use oxc_allocator::Allocator;
use pkl_lexer::token::{Token, TokenKind};
use pkl_lexer::Lexer;

/// Drives a lexer over `source` until the end of the input, collecting every
/// token (the trailing `Empty` sentinel excluded, as the driver loop does).
fn lex_all(source: &str) -> Vec<Token> {
    let alloc = Allocator::default();
    let mut lexer = Lexer::new(&alloc, source);
    let mut tokens = Vec::new();
    while !lexer.source.is_at_end() {
        let tok = lexer.next_token();
        if tok.kind != TokenKind::Empty {
            tokens.push(tok);
        }
    }
    tokens
}

#[test]
fn token_new_is_empty_sentinel() {
    let t = Token::new();
    assert_eq!(t.kind, TokenKind::Empty);
    assert_eq!(t.span.start, 0);
    assert_eq!(t.span.end, 0);
}

#[test]
fn maximal_munch_plus_eq() {
    let tokens = lex_all("+=");
    assert_eq!(tokens.len(), 1);
    assert_eq!(tokens[0].kind, TokenKind::PlusEq);
    assert_eq!(tokens[0].span.start, 0);
    assert_eq!(tokens[0].span.end, 2);
}

#[test]
fn lone_plus_is_plus() {
    let tokens = lex_all("+");
    assert_eq!(tokens.len(), 1);
    assert_eq!(tokens[0].kind, TokenKind::Plus);
    assert_eq!(tokens[0].span.start, 0);
    assert_eq!(tokens[0].span.end, 1);
}

#[test]
fn plus_before_identifier_is_plus() {
    let tokens = lex_all("+x");
    assert_eq!(tokens.len(), 2);
    assert_eq!(tokens[0].kind, TokenKind::Plus);
    assert_eq!((tokens[0].span.start, tokens[0].span.end), (0, 1));
    assert_eq!(tokens[1].kind, TokenKind::Identifier);
    assert_eq!((tokens[1].span.start, tokens[1].span.end), (1, 2));
}

#[test]
fn identifier_stops_before_space() {
    let source = "abc123 def";
    let tokens = lex_all(source);
    assert_eq!(tokens[0].kind, TokenKind::Identifier);
    assert_eq!(tokens[0].span.start, 0);
    assert_eq!(tokens[0].span.end, 6);
    assert_eq!(&source[tokens[0].span.start..tokens[0].span.end], "abc123");
    assert_eq!(tokens[1].kind, TokenKind::UnexpectedByte);
    assert_eq!((tokens[1].span.start, tokens[1].span.end), (6, 7));
    assert_eq!(tokens[2].kind, TokenKind::Identifier);
    assert_eq!((tokens[2].span.start, tokens[2].span.end), (7, 10));
    assert_eq!(tokens.len(), 3);
}

#[test]
fn underscore_starts_identifier() {
    let tokens = lex_all("_ab9");
    assert_eq!(tokens.len(), 1);
    assert_eq!(tokens[0].kind, TokenKind::Identifier);
    assert_eq!((tokens[0].span.start, tokens[0].span.end), (0, 4));
}

#[test]
fn quoted_identifier_stream_scenario() {
    let source = "`hello` + `world`";
    let tokens = lex_all(source);
    let expected = [
        (TokenKind::QuotedIdentifier, 0, 7, "`hello`"),
        (TokenKind::UnexpectedByte, 7, 8, " "),
        (TokenKind::Plus, 8, 9, "+"),
        (TokenKind::UnexpectedByte, 9, 10, " "),
        (TokenKind::QuotedIdentifier, 10, 17, "`world`"),
    ];
    assert_eq!(tokens.len(), expected.len());
    for (tok, (kind, start, end, lexeme)) in tokens.iter().zip(expected.iter()) {
        assert_eq!(tok.kind, *kind);
        assert_eq!(tok.span.start, *start);
        assert_eq!(tok.span.end, *end);
        assert_eq!(&source[tok.span.start..tok.span.end], *lexeme);
    }
}

#[test]
fn tokenize_matches_the_driver_loop() {
    let source = "`hello` + `world`+=abc ?_x";
    let alloc = Allocator::default();
    let mut lexer = Lexer::new(&alloc, source);
    let tokens = lexer.tokenize();
    assert!(lexer.source.is_at_end());

    let looped = lex_all(source);
    assert_eq!(tokens.len(), looped.len());
    for (a, b) in tokens.iter().zip(looped.iter()) {
        assert_eq!(a.kind, b.kind);
        assert_eq!(a.span.start, b.span.start);
        assert_eq!(a.span.end, b.span.end);
    }
}

#[test]
fn spans_cover_source_without_gaps() {
    let source = "`hello` + `world`+=abc ?_x";
    let tokens = lex_all(source);
    let mut joined = String::new();
    let mut expected_start = 0;
    for tok in &tokens {
        assert_eq!(tok.span.start, expected_start);
        assert!(tok.span.start < tok.span.end);
        assert!(tok.span.end <= source.len());
        joined.push_str(&source[tok.span.start..tok.span.end]);
        expected_start = tok.span.end;
    }
    assert_eq!(joined, source);
    assert_eq!(expected_start, source.len());
}

#[test]
fn empty_input_yields_empty_sentinel() {
    let alloc = Allocator::default();
    let mut lexer = Lexer::new(&alloc, "");
    assert!(lexer.source.is_at_end());
    let tok = lexer.next_token();
    assert_eq!(tok.kind, TokenKind::Empty);
    assert_eq!((tok.span.start, tok.span.end), (0, 0));
}

#[test]
fn lexing_terminates_and_stays_at_end() {
    let alloc = Allocator::default();
    let source = "ab + `q`";
    let mut lexer = Lexer::new(&alloc, source);
    let mut rounds = 0;
    while !lexer.source.is_at_end() {
        lexer.next_token();
        rounds += 1;
        assert!(rounds <= source.len());
    }
    for _ in 0..3 {
        let tok = lexer.next_token();
        assert_eq!(tok.kind, TokenKind::Empty);
        assert_eq!((tok.span.start, tok.span.end), (source.len(), source.len()));
        assert!(lexer.source.is_at_end());
    }
}

#[test]
fn unterminated_quoted_identifier_at_end_of_input() {
    let source = "`abc";
    let tokens = lex_all(source);
    assert_eq!(tokens.len(), 1);
    assert_eq!(tokens[0].kind, TokenKind::UnterminatedQuotedIdentifier);
    assert_eq!((tokens[0].span.start, tokens[0].span.end), (0, 4));
}

#[test]
fn unterminated_quoted_identifier_before_other_byte() {
    let source = "`ab cd`";
    let tokens = lex_all(source);
    assert_eq!(tokens[0].kind, TokenKind::UnterminatedQuotedIdentifier);
    assert_eq!((tokens[0].span.start, tokens[0].span.end), (0, 3));
    assert_eq!(tokens[1].kind, TokenKind::UnexpectedByte);
    assert_eq!((tokens[1].span.start, tokens[1].span.end), (3, 4));
    assert_eq!(tokens[2].kind, TokenKind::Identifier);
    assert_eq!((tokens[2].span.start, tokens[2].span.end), (4, 6));
    assert_eq!(tokens[3].kind, TokenKind::UnterminatedQuotedIdentifier);
    assert_eq!((tokens[3].span.start, tokens[3].span.end), (6, 7));
    assert_eq!(tokens.len(), 4);
}

#[test]
fn empty_quoted_identifier_is_two_backticks() {
    let tokens = lex_all("``");
    assert_eq!(tokens.len(), 1);
    assert_eq!(tokens[0].kind, TokenKind::QuotedIdentifier);
    assert_eq!((tokens[0].span.start, tokens[0].span.end), (0, 2));
}

#[test]
fn unexpected_byte_is_one_byte_wide() {
    let tokens = lex_all("?=");
    assert_eq!(tokens.len(), 2);
    assert_eq!(tokens[0].kind, TokenKind::UnexpectedByte);
    assert_eq!((tokens[0].span.start, tokens[0].span.end), (0, 1));
    assert_eq!(tokens[1].kind, TokenKind::UnexpectedByte);
    assert_eq!((tokens[1].span.start, tokens[1].span.end), (1, 2));
}
