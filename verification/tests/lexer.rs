use monkey_lexer::lexer::Lexer;
use monkey_lexer::lexer::Token;
use monkey_lexer::lexer::TokenType;

#[test]
fn next_token() {
    let input: String = String::from(
        "
            let five = 5;
            let ten = 10;

            let add = fn(x, y) {
                x + y
            };

            let result = add(five, ten);
            !-/*5;
            5 < 10 > 5;
            if (5 < 10) {
                return true;
            } else {
                return false;
            }

            10 == 10;
            10 != 9;",
    );

    let tests: Vec<(TokenType, &str)> = vec![
        (TokenType::Let, "let"),
        (TokenType::Ident, "five"),
        (TokenType::Assign, "="),
        (TokenType::Int, "5"),
        (TokenType::Semicolon, ";"),
        (TokenType::Let, "let"),
        (TokenType::Ident, "ten"),
        (TokenType::Assign, "="),
        (TokenType::Int, "10"),
        (TokenType::Semicolon, ";"),
        (TokenType::Let, "let"),
        (TokenType::Ident, "add"),
        (TokenType::Assign, "="),
        (TokenType::Function, "fn"),
        (TokenType::LParen, "("),
        (TokenType::Ident, "x"),
        (TokenType::Comma, ","),
        (TokenType::Ident, "y"),
        (TokenType::RParen, ")"),
        (TokenType::LBrace, "{"),
        (TokenType::Ident, "x"),
        (TokenType::Plus, "+"),
        (TokenType::Ident, "y"),
        (TokenType::RBrace, "}"),
        (TokenType::Semicolon, ";"),
        (TokenType::Let, "let"),
        (TokenType::Ident, "result"),
        (TokenType::Assign, "="),
        (TokenType::Ident, "add"),
        (TokenType::LParen, "("),
        (TokenType::Ident, "five"),
        (TokenType::Comma, ","),
        (TokenType::Ident, "ten"),
        (TokenType::RParen, ")"),
        (TokenType::Semicolon, ";"),
        (TokenType::Not, "!"),
        (TokenType::Minus, "-"),
        (TokenType::Slash, "/"),
        (TokenType::Asterisk, "*"),
        (TokenType::Int, "5"),
        (TokenType::Semicolon, ";"),
        (TokenType::Int, "5"),
        (TokenType::Lt, "<"),
        (TokenType::Int, "10"),
        (TokenType::Gt, ">"),
        (TokenType::Int, "5"),
        (TokenType::Semicolon, ";"),
        (TokenType::If, "if"),
        (TokenType::LParen, "("),
        (TokenType::Int, "5"),
        (TokenType::Lt, "<"),
        (TokenType::Int, "10"),
        (TokenType::RParen, ")"),
        (TokenType::LBrace, "{"),
        (TokenType::Return, "return"),
        (TokenType::True, "true"),
        (TokenType::Semicolon, ";"),
        (TokenType::RBrace, "}"),
        (TokenType::Else, "else"),
        (TokenType::LBrace, "{"),
        (TokenType::Return, "return"),
        (TokenType::False, "false"),
        (TokenType::Semicolon, ";"),
        (TokenType::RBrace, "}"),
        (TokenType::Int, "10"),
        (TokenType::Eq, "=="),
        (TokenType::Int, "10"),
        (TokenType::Semicolon, ";"),
        (TokenType::Int, "10"),
        (TokenType::Neq, "!="),
        (TokenType::Int, "9"),
        (TokenType::Semicolon, ";"),
        (TokenType::Eof, ""),
    ];

    let mut lexer: Lexer = Lexer::new(&input);

    for (k, l) in tests {
        let token: Token = lexer.next_token();

        assert_eq!(token.kind, k);
        assert_eq!(token.literal, l);
    }
}

fn drain(input: &str) -> Vec<(TokenType, String)> {
    let mut lexer: Lexer = Lexer::new(input);
    let mut tokens: Vec<(TokenType, String)> = Vec::new();
    loop {
        let token: Token = lexer.next_token();
        let done: bool = token.kind == TokenType::Eof;
        tokens.push((token.kind, token.literal.to_string()));
        if done {
            break;
        }
    }
    tokens
}

#[test]
fn let_statement_scenario() {
    let tokens = drain("let five = 5;");
    let expected: Vec<(TokenType, String)> = vec![
        (TokenType::Let, "let".to_string()),
        (TokenType::Ident, "five".to_string()),
        (TokenType::Assign, "=".to_string()),
        (TokenType::Int, "5".to_string()),
        (TokenType::Semicolon, ";".to_string()),
        (TokenType::Eof, "".to_string()),
    ];
    assert_eq!(tokens, expected);
}

#[test]
fn operator_scenario() {
    let tokens = drain("10 == 10; 10 != 9;");
    let expected: Vec<(TokenType, String)> = vec![
        (TokenType::Int, "10".to_string()),
        (TokenType::Eq, "==".to_string()),
        (TokenType::Int, "10".to_string()),
        (TokenType::Semicolon, ";".to_string()),
        (TokenType::Int, "10".to_string()),
        (TokenType::Neq, "!=".to_string()),
        (TokenType::Int, "9".to_string()),
        (TokenType::Semicolon, ";".to_string()),
        (TokenType::Eof, "".to_string()),
    ];
    assert_eq!(tokens, expected);
}

#[test]
fn illegal_character_scenario() {
    let tokens = drain("@");
    let expected: Vec<(TokenType, String)> = vec![
        (TokenType::Illegal, "@".to_string()),
        (TokenType::Eof, "".to_string()),
    ];
    assert_eq!(tokens, expected);
}

#[test]
fn empty_input_is_end_of_input() {
    let mut lexer: Lexer = Lexer::new("");
    let token: Token = lexer.next_token();
    assert_eq!(token.kind, TokenType::Eof);
    assert_eq!(token.literal, "");
}

#[test]
fn end_of_input_repeats() {
    let mut lexer: Lexer = Lexer::new("x");
    assert_eq!(lexer.next_token().kind, TokenType::Ident);
    for _ in 0..3 {
        let token: Token = lexer.next_token();
        assert_eq!(token.kind, TokenType::Eof);
        assert_eq!(token.literal, "");
    }
}

#[test]
fn trailing_whitespace_is_end_of_input() {
    let tokens = drain("five  \t\n");
    let expected: Vec<(TokenType, String)> = vec![
        (TokenType::Ident, "five".to_string()),
        (TokenType::Eof, "".to_string()),
    ];
    assert_eq!(tokens, expected);
}

#[test]
fn whitespace_only_input() {
    let tokens = drain(" \t\r\n ");
    let expected: Vec<(TokenType, String)> =
        vec![(TokenType::Eof, "".to_string())];
    assert_eq!(tokens, expected);
}

#[test]
fn lookahead_at_end_of_input() {
    let tokens = drain("=");
    assert_eq!(tokens[0], (TokenType::Assign, "=".to_string()));
    let tokens = drain("!");
    assert_eq!(tokens[0], (TokenType::Not, "!".to_string()));
}

#[test]
fn lookahead_does_not_merge_across_other_characters() {
    let tokens = drain("=a");
    let expected: Vec<(TokenType, String)> = vec![
        (TokenType::Assign, "=".to_string()),
        (TokenType::Ident, "a".to_string()),
        (TokenType::Eof, "".to_string()),
    ];
    assert_eq!(tokens, expected);

    let tokens = drain("!5");
    let expected: Vec<(TokenType, String)> = vec![
        (TokenType::Not, "!".to_string()),
        (TokenType::Int, "5".to_string()),
        (TokenType::Eof, "".to_string()),
    ];
    assert_eq!(tokens, expected);
}

#[test]
fn double_character_operators_are_single_tokens() {
    let tokens = drain("==");
    let expected: Vec<(TokenType, String)> = vec![
        (TokenType::Eq, "==".to_string()),
        (TokenType::Eof, "".to_string()),
    ];
    assert_eq!(tokens, expected);

    let tokens = drain("!=");
    let expected: Vec<(TokenType, String)> = vec![
        (TokenType::Neq, "!=".to_string()),
        (TokenType::Eof, "".to_string()),
    ];
    assert_eq!(tokens, expected);
}

#[test]
fn maximal_munch_identifier() {
    let tokens = drain("abc_def+");
    let expected: Vec<(TokenType, String)> = vec![
        (TokenType::Ident, "abc_def".to_string()),
        (TokenType::Plus, "+".to_string()),
        (TokenType::Eof, "".to_string()),
    ];
    assert_eq!(tokens, expected);
}

#[test]
fn maximal_munch_integer() {
    let tokens = drain("123abc");
    let expected: Vec<(TokenType, String)> = vec![
        (TokenType::Int, "123".to_string()),
        (TokenType::Ident, "abc".to_string()),
        (TokenType::Eof, "".to_string()),
    ];
    assert_eq!(tokens, expected);
}

#[test]
fn keyword_precedence() {
    let tokens = drain("let lets");
    let expected: Vec<(TokenType, String)> = vec![
        (TokenType::Let, "let".to_string()),
        (TokenType::Ident, "lets".to_string()),
        (TokenType::Eof, "".to_string()),
    ];
    assert_eq!(tokens, expected);
}

#[test]
fn all_keywords() {
    let tokens = drain("fn let if else return true false");
    let expected: Vec<(TokenType, String)> = vec![
        (TokenType::Function, "fn".to_string()),
        (TokenType::Let, "let".to_string()),
        (TokenType::If, "if".to_string()),
        (TokenType::Else, "else".to_string()),
        (TokenType::Return, "return".to_string()),
        (TokenType::True, "true".to_string()),
        (TokenType::False, "false".to_string()),
        (TokenType::Eof, "".to_string()),
    ];
    assert_eq!(tokens, expected);
}

#[test]
fn whitespace_between_tokens_is_transparent() {
    let spare = drain("let x=1;");
    let padded = drain("  let \t x\n=\r\n1 ;  ");
    assert_eq!(spare, padded);
}

#[test]
fn non_ascii_characters_are_illegal_tokens() {
    let tokens = drain("é");
    let expected: Vec<(TokenType, String)> = vec![
        (TokenType::Illegal, "é".to_string()),
        (TokenType::Eof, "".to_string()),
    ];
    assert_eq!(tokens, expected);
}

#[test]
fn nul_character_is_an_illegal_token() {
    let tokens = drain("\u{0}");
    let expected: Vec<(TokenType, String)> = vec![
        (TokenType::Illegal, "\u{0}".to_string()),
        (TokenType::Eof, "".to_string()),
    ];
    assert_eq!(tokens, expected);
}

#[test]
fn token_new_keeps_its_arguments() {
    let token: Token = Token::new(TokenType::Ident, "abc");
    assert_eq!(token.kind, TokenType::Ident);
    assert_eq!(token.literal, "abc");
}

#[test]
fn lookup_ident_matches_the_keyword_table() {
    assert_eq!(Token::lookup_ident("fn"), TokenType::Function);
    assert_eq!(Token::lookup_ident("let"), TokenType::Let);
    assert_eq!(Token::lookup_ident("if"), TokenType::If);
    assert_eq!(Token::lookup_ident("else"), TokenType::Else);
    assert_eq!(Token::lookup_ident("return"), TokenType::Return);
    assert_eq!(Token::lookup_ident("true"), TokenType::True);
    assert_eq!(Token::lookup_ident("false"), TokenType::False);
    assert_eq!(Token::lookup_ident("lets"), TokenType::Ident);
    assert_eq!(Token::lookup_ident("x"), TokenType::Ident);
    assert_eq!(Token::lookup_ident(""), TokenType::Ident);
}
