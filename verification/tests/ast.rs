use monkey_lexer::ast::ast::Identifier;
use monkey_lexer::ast::ast::LetStatement;
use monkey_lexer::ast::ast::Node;
use monkey_lexer::ast::ast::Program;
use monkey_lexer::ast::parser::Parser;
use monkey_lexer::lexer::Lexer;
use monkey_lexer::lexer::Token;
use monkey_lexer::lexer::TokenType;

#[test]
fn empty_program_has_no_token_literal() {
    let program: Program<LetStatement<Identifier>> = Program { statements: vec![] };
    assert_eq!(program.token_literal(), "");
}

#[test]
fn program_reports_first_statement_literal() {
    let statement: LetStatement<Identifier> = LetStatement {
        token: Token::new(TokenType::Let, "let"),
        identifier: Identifier {
            token: Token::new(TokenType::Ident, "five"),
            value: "five",
        },
        value: Identifier {
            token: Token::new(TokenType::Ident, "five"),
            value: "five",
        },
    };
    assert_eq!(statement.token_literal(), "let");
    let program: Program<LetStatement<Identifier>> = Program { statements: vec![statement] };
    assert_eq!(program.token_literal(), "let");
}

#[test]
fn identifier_reports_its_token_literal() {
    let identifier: Identifier = Identifier {
        token: Token::new(TokenType::Ident, "ten"),
        value: "ten",
    };
    assert_eq!(identifier.token_literal(), "ten");
}

#[test]
fn parser_drains_the_scanner() {
    let lexer: Lexer = Lexer::new("let five = 5;");
    let mut parser: Parser = Parser::new(lexer);
    for _ in 0..6 {
        parser.next_token();
    }
}
