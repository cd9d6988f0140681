use ninja_manifest::ninjalexer::tokenize;
use ninja_manifest::ninjalexer::Token;
use ninja_manifest::ninjalexer::TokenKind;
use ninja_manifest::ninjalexer::TokenStream;

fn assert_token_stream(input: &str, expected: &[Token]) {
    let token_stream: Vec<Token> = tokenize(input)
        .iter()
        .map(|item| item.token.unwrap())
        .collect();
    assert_eq!(token_stream, expected);
}

#[test]
fn test_single_build_line() {
    assert_token_stream(
        "build foo: bar",
        &[
            Token::KwBuild,
            Token::Identifier,
            Token::Colon,
            Token::Identifier,
        ],
    );
}

#[test]
fn test_global_assignment() {
    assert_token_stream("x=1", &[Token::Identifier, Token::AssignmentValue]);
}

#[test]
fn lexing_of_full_rule_and_build_command() {
    let text = "
    rule capitalize
        command = dd if=$in of=$out conv=ucase
    build loremipsum.txt.u: capitalize loremipsum.txt
    ";
    let mut lexer = TokenStream::new(text);
    assert_eq!(lexer.next(), Some(Ok(TokenKind::Newline)));
}

#[test]
fn keywords_count_only_at_the_start_of_a_line() {
    assert_token_stream(
        "build foo: rule bar",
        &[
            Token::KwBuild,
            Token::Identifier,
            Token::Colon,
            Token::Identifier,
            Token::Identifier,
        ],
    );
}

#[test]
fn indented_lines_get_an_indent_token() {
    assert_token_stream(
        "x=1\n  y=2\n",
        &[
            Token::Identifier,
            Token::AssignmentValue,
            Token::Newline,
            Token::Indent,
            Token::Identifier,
            Token::AssignmentValue,
            Token::Newline,
        ],
    );
}

#[test]
fn comment_lines_and_blank_tails_produce_no_token() {
    assert_token_stream(
        "# note\nx=1\n   ",
        &[Token::Identifier, Token::AssignmentValue, Token::Newline],
    );
}

#[test]
fn unrecognised_input_becomes_an_explicit_lex_error_item() {
    let items = tokenize("x=1\n!");
    assert_eq!(items.len(), 4);
    assert_eq!(items[3].token, Err(()));
    assert_eq!(items[3].start, 4);
    assert_eq!(items[3].end, 5);
}

#[test]
fn punctuation_tokens_of_the_full_grammar() {
    assert_token_stream(
        "build a: r b | c || d |@ e",
        &[
            Token::KwBuild,
            Token::Identifier,
            Token::Colon,
            Token::Identifier,
            Token::Identifier,
            Token::Pipe,
            Token::Identifier,
            Token::Pipe2,
            Token::Identifier,
            Token::PipeAt,
            Token::Identifier,
        ],
    );
}

#[test]
fn a_bare_equals_sign_is_its_own_token() {
    assert_token_stream("x=", &[Token::Identifier, Token::Equals]);
    assert_token_stream("x=\n", &[Token::Identifier, Token::Equals, Token::Newline]);
}

#[test]
fn slice_returns_the_text_of_the_consumed_token() {
    let mut lexer = TokenStream::new("rule cc");
    assert_eq!(lexer.next(), Some(Ok(TokenKind::KwRule)));
    assert_eq!(lexer.slice(), "rule");
    assert_eq!(lexer.next(), Some(Ok(TokenKind::Identifier)));
    assert_eq!(lexer.slice(), "cc");
    assert_eq!(lexer.next(), None);
}

#[test]
fn peeking_then_consuming_reproduces_what_peek_reported() {
    let lexer = TokenStream::new("x=1");
    let ahead0 = lexer.peek_nth(0);
    let ahead1 = lexer.peek_nth(1);
    let ahead2 = lexer.peek_nth(2);
    let mut lexer = lexer;
    assert_eq!(lexer.peek(), ahead0);
    assert_eq!(lexer.next(), ahead0);
    assert_eq!(lexer.next(), ahead1);
    assert_eq!(lexer.next(), ahead2);
    assert_eq!(ahead0, Some(Ok(TokenKind::Identifier)));
    assert_eq!(ahead1, Some(Ok(TokenKind::AssignmentValue)));
    assert_eq!(ahead2, None);
}
