use lox::ast::{Expr, Stmt};
use lox::environment::Environment;
use lox::error::{EXPECTED_EXPRESSION, EXPECTED_TOKEN, RUNTIME};
use lox::interpreter::Interpreter;
use lox::parser::Parser;
use lox::text::number_text;
use lox::token::{Literal, Token, TokenType};

fn tok(token_type: TokenType, lexeme: &str, line: usize) -> Token {
    Token::new(token_type, lexeme.to_string(), line, None)
}

fn num(n: i64, lexeme: &str, line: usize) -> Token {
    Token::new(TokenType::Number, lexeme.to_string(), line, Some(Literal::Number(n)))
}

fn text(s: &str, line: usize) -> Token {
    Token::new(TokenType::Str, format!("\"{s}\""), line, Some(Literal::Str(s.to_string())))
}

fn eof(line: usize) -> Token {
    tok(TokenType::Eof, "", line)
}

fn parse(tokens: Vec<Token>) -> Vec<Stmt> {
    Parser::new(tokens).parse().expect("parses")
}

fn run(statements: Vec<Stmt>) -> (Result<(), lox::error::LoxError>, String) {
    let mut interpreter = Interpreter::new();
    let mut out = String::new();
    let r = interpreter.interpret(statements, &mut out);
    (r, out)
}

/// Parses `print <tokens> ;` and runs it.
fn print_of(mut expr: Vec<Token>) -> (Result<(), lox::error::LoxError>, String) {
    let mut tokens = vec![tok(TokenType::Print, "print", 1)];
    tokens.append(&mut expr);
    tokens.push(tok(TokenType::Semicolon, ";", 1));
    tokens.push(eof(1));
    run(parse(tokens))
}

fn one_plus_two_times_three() -> Vec<Token> {
    vec![
        num(1, "1", 1),
        tok(TokenType::Plus, "+", 1),
        num(2, "2", 1),
        tok(TokenType::Star, "*", 1),
        num(3, "3", 1),
    ]
}

#[test]
fn multiplication_binds_tighter_than_addition() {
    let (r, out) = print_of(one_plus_two_times_three());
    assert!(r.is_ok());
    assert_eq!(out, "7\n");
}

#[test]
fn precedence_shows_in_rendering() {
    let mut tokens = one_plus_two_times_three();
    tokens.push(tok(TokenType::Semicolon, ";", 1));
    tokens.push(eof(1));
    let stmts = parse(tokens);
    assert_eq!(stmts.len(), 1);
    assert_eq!(stmts[0].render(), "(1 + (2 * 3))");
}

#[test]
fn rendering_survives_reparsing() {
    let mut tokens = one_plus_two_times_three();
    tokens.push(tok(TokenType::Semicolon, ";", 1));
    tokens.push(eof(1));
    let first = parse(tokens)[0].render();
    // The tokens of "(1 + (2 * 3))".
    let again = vec![
        tok(TokenType::LeftParen, "(", 1),
        num(1, "1", 1),
        tok(TokenType::Plus, "+", 1),
        tok(TokenType::LeftParen, "(", 1),
        num(2, "2", 1),
        tok(TokenType::Star, "*", 1),
        num(3, "3", 1),
        tok(TokenType::RightParen, ")", 1),
        tok(TokenType::RightParen, ")", 1),
        tok(TokenType::Semicolon, ";", 1),
        eof(1),
    ];
    assert_eq!(parse(again)[0].render(), first);
}

#[test]
fn left_association_of_subtraction() {
    let (r, out) = print_of(vec![
        num(10, "10", 1),
        tok(TokenType::Minus, "-", 1),
        num(3, "3", 1),
        tok(TokenType::Minus, "-", 1),
        num(2, "2", 1),
    ]);
    assert!(r.is_ok());
    assert_eq!(out, "5\n");
}

#[test]
fn strings_concatenate() {
    let (r, out) = print_of(vec![text("a", 1), tok(TokenType::Plus, "+", 1), text("b", 1)]);
    assert!(r.is_ok());
    assert_eq!(out, "ab\n");
}

#[test]
fn string_plus_number_is_type_error() {
    let (r, out) = print_of(vec![text("a", 1), tok(TokenType::Plus, "+", 1), num(1, "1", 1)]);
    let e = r.unwrap_err();
    assert_eq!(e.code, RUNTIME);
    assert_eq!(e.message, "Operand of unexpected type.");
    assert_eq!(out, "");
}

#[test]
fn number_plus_string_is_type_error() {
    let (r, _) = print_of(vec![num(1, "1", 1), tok(TokenType::Plus, "+", 1), text("a", 1)]);
    assert_eq!(r.unwrap_err().message, "Operand of unexpected type.");
}

#[test]
fn assignment_replaces_value() {
    // var x = 10; x = 20; print x;
    let x = || tok(TokenType::Identifier, "x", 1);
    let stmts = vec![
        Stmt::Var { name: x(), initializer: Some(Expr::Literal { value: Literal::Number(10) }) },
        Stmt::Expression {
            expression: Box::new(Expr::Assign {
                name: x(),
                value: Box::new(Expr::Literal { value: Literal::Number(20) }),
            }),
        },
        Stmt::Print { expression: Box::new(Expr::Variable { name: x() }) },
    ];
    let (r, out) = run(stmts);
    assert!(r.is_ok());
    assert_eq!(out, "20\n");
}

#[test]
fn var_declaration_and_print_from_tokens() {
    let tokens = vec![
        tok(TokenType::Var, "var", 1),
        tok(TokenType::Identifier, "x", 1),
        tok(TokenType::Equal, "=", 1),
        num(10, "10", 1),
        tok(TokenType::Semicolon, ";", 1),
        tok(TokenType::Print, "print", 2),
        tok(TokenType::Identifier, "x", 2),
        tok(TokenType::Semicolon, ";", 2),
        eof(2),
    ];
    let (r, out) = run(parse(tokens));
    assert!(r.is_ok());
    assert_eq!(out, "10\n");
}

#[test]
fn reading_undefined_variable_fails() {
    let tokens = vec![
        tok(TokenType::Print, "print", 3),
        tok(TokenType::Identifier, "y", 3),
        tok(TokenType::Semicolon, ";", 3),
        eof(3),
    ];
    let (r, out) = run(parse(tokens));
    let e = r.unwrap_err();
    assert_eq!(e.message, "Undefined variable 'y'.");
    assert_eq!(e.line, 3);
    assert_eq!(out, "");
}

#[test]
fn assigning_undefined_variable_fails() {
    let stmts = vec![Stmt::Expression {
        expression: Box::new(Expr::Assign {
            name: tok(TokenType::Identifier, "y", 4),
            value: Box::new(Expr::Literal { value: Literal::Nil }),
        }),
    }];
    let e = run(stmts).0.unwrap_err();
    assert_eq!(e.message, "Undefined variable 'y'.");
    assert_eq!(e.line, 4);
}

#[test]
fn first_runtime_error_stops_the_run() {
    let tokens = vec![
        tok(TokenType::Print, "print", 1),
        num(1, "1", 1),
        tok(TokenType::Semicolon, ";", 1),
        tok(TokenType::Print, "print", 2),
        tok(TokenType::Identifier, "z", 2),
        tok(TokenType::Semicolon, ";", 2),
        tok(TokenType::Print, "print", 3),
        num(3, "3", 3),
        tok(TokenType::Semicolon, ";", 3),
        eof(3),
    ];
    let (r, out) = run(parse(tokens));
    assert_eq!(r.unwrap_err().line, 2);
    assert_eq!(out, "1\n");
}

#[test]
fn not_follows_truthiness() {
    let bang = || tok(TokenType::Bang, "!", 1);
    assert_eq!(print_of(vec![bang(), tok(TokenType::Nil, "nil", 1)]).1, "true\n");
    assert_eq!(print_of(vec![bang(), num(0, "0", 1)]).1, "false\n");
    assert_eq!(print_of(vec![bang(), tok(TokenType::False, "false", 1)]).1, "true\n");
    assert_eq!(print_of(vec![bang(), text("", 1)]).1, "false\n");
}

#[test]
fn equal_numbers_compare_equal() {
    let (_, out) = print_of(vec![num(2, "2", 1), tok(TokenType::EqualEqual, "==", 1), num(2, "2.0", 1)]);
    assert_eq!(out, "true\n");
}

#[test]
fn different_variants_are_unequal() {
    let (_, out) = print_of(vec![num(2, "2", 1), tok(TokenType::EqualEqual, "==", 1), text("2", 1)]);
    assert_eq!(out, "false\n");
    let (_, out) = print_of(vec![num(2, "2", 1), tok(TokenType::BangEqual, "!=", 1), text("2", 1)]);
    assert_eq!(out, "true\n");
    let (_, out) = print_of(vec![tok(TokenType::Nil, "nil", 1), tok(TokenType::EqualEqual, "==", 1), tok(TokenType::Nil, "nil", 1)]);
    assert_eq!(out, "true\n");
}

#[test]
fn malformed_declaration_does_not_stop_the_next() {
    let tokens = vec![
        tok(TokenType::Var, "var", 1),
        tok(TokenType::Semicolon, ";", 1),
        tok(TokenType::Print, "print", 2),
        num(1, "1", 2),
        tok(TokenType::Semicolon, ";", 2),
        eof(2),
    ];
    let mut parser = Parser::new(tokens);
    let (stmts, errors) = parser.parse_all();
    assert_eq!(errors.len(), 1);
    assert_eq!(errors[0].line, 1);
    assert_eq!(errors[0].code, EXPECTED_TOKEN);
    assert_eq!(errors[0].message, "Expect variable name.");
    assert_eq!(stmts.len(), 1);
    assert_eq!(stmts[0].render(), "print 1");
    let (r, out) = run(stmts);
    assert!(r.is_ok());
    assert_eq!(out, "1\n");
}

#[test]
fn parse_reports_first_error() {
    let tokens = vec![
        tok(TokenType::RightParen, ")", 1),
        tok(TokenType::Semicolon, ";", 1),
        tok(TokenType::Print, "print", 2),
        tok(TokenType::Semicolon, ";", 2),
        eof(2),
    ];
    let e = Parser::new(tokens).parse().unwrap_err();
    assert_eq!(e.line, 1);
    assert_eq!(e.code, EXPECTED_EXPRESSION);
    assert_eq!(e.message, "Expect expression.");
}

#[test]
fn recovery_stops_at_statement_keyword() {
    let tokens = vec![
        num(1, "1", 1),
        num(2, "2", 1),
        num(3, "3", 1),
        tok(TokenType::Print, "print", 2),
        num(4, "4", 2),
        tok(TokenType::Semicolon, ";", 2),
        eof(2),
    ];
    let mut parser = Parser::new(tokens);
    let (stmts, errors) = parser.parse_all();
    assert_eq!(errors.len(), 1);
    assert_eq!(errors[0].message, "Expect ';' after expression.");
    assert_eq!(stmts.len(), 1);
    assert_eq!(stmts[0].render(), "print 4");
}

#[test]
fn missing_close_paren_is_reported() {
    let tokens = vec![
        tok(TokenType::LeftParen, "(", 5),
        num(1, "1", 5),
        tok(TokenType::Semicolon, ";", 5),
        eof(5),
    ];
    let e = Parser::new(tokens).parse().unwrap_err();
    assert_eq!(e.message, "Expect ')' after expression.");
    assert_eq!(e.line, 5);
    assert_eq!(e.code, EXPECTED_TOKEN);
}

#[test]
fn missing_semicolon_after_var_is_reported() {
    let tokens = vec![
        tok(TokenType::Var, "var", 1),
        tok(TokenType::Identifier, "a", 1),
        eof(1),
    ];
    let e = Parser::new(tokens).parse().unwrap_err();
    assert_eq!(e.message, "Expect ';' after variable declaration.");
}

#[test]
fn empty_program_parses_to_nothing() {
    assert!(parse(vec![eof(1)]).is_empty());
    let (r, out) = run(Vec::new());
    assert!(r.is_ok());
    assert_eq!(out, "");
}

#[test]
fn arithmetic_results() {
    let op = |t, l| tok(t, l, 1);
    assert_eq!(print_of(vec![num(7, "7", 1), op(TokenType::Slash, "/"), num(2, "2", 1)]).1, "3\n");
    assert_eq!(
        print_of(vec![op(TokenType::Minus, "-"), num(7, "7", 1), op(TokenType::Slash, "/"), num(2, "2", 1)]).1,
        "-3\n"
    );
    assert_eq!(print_of(vec![num(6, "6", 1), op(TokenType::Star, "*"), num(7, "7", 1)]).1, "42\n");
    assert_eq!(print_of(vec![op(TokenType::Minus, "-"), num(5, "5", 1)]).1, "-5\n");
}

#[test]
fn division_by_zero_fails() {
    let (r, _) = print_of(vec![num(1, "1", 1), tok(TokenType::Slash, "/", 1), num(0, "0", 1)]);
    assert_eq!(r.unwrap_err().message, "Division by zero.");
}

#[test]
fn overflow_fails() {
    let (r, _) = print_of(vec![
        num(i64::MAX, "9223372036854775807", 1),
        tok(TokenType::Plus, "+", 1),
        num(1, "1", 1),
    ]);
    assert_eq!(r.unwrap_err().message, "Number out of range.");
}

#[test]
fn negating_a_string_is_type_error() {
    let (r, _) = print_of(vec![tok(TokenType::Minus, "-", 1), text("a", 1)]);
    assert_eq!(r.unwrap_err().message, "Operand of unexpected type.");
}

#[test]
fn comparisons() {
    let op = |t, l| tok(t, l, 1);
    assert_eq!(print_of(vec![num(1, "1", 1), op(TokenType::Less, "<"), num(2, "2", 1)]).1, "true\n");
    assert_eq!(print_of(vec![num(2, "2", 1), op(TokenType::LessEqual, "<="), num(2, "2", 1)]).1, "true\n");
    assert_eq!(print_of(vec![num(1, "1", 1), op(TokenType::GreaterEqual, ">="), num(2, "2", 1)]).1, "false\n");
    assert_eq!(
        print_of(vec![op(TokenType::True, "true"), op(TokenType::Greater, ">"), op(TokenType::False, "false")]).1,
        "true\n"
    );
    // Mixed operands compare by truthiness: a number is truthy, nil is not.
    assert_eq!(print_of(vec![num(0, "0", 1), op(TokenType::Greater, ">"), op(TokenType::Nil, "nil")]).1, "true\n");
    assert_eq!(print_of(vec![text("a", 1), op(TokenType::Less, "<"), num(1, "1", 1)]).1, "false\n");
}

#[test]
fn statement_rendering() {
    let x = || tok(TokenType::Identifier, "x", 1);
    let one = || Expr::Literal { value: Literal::Number(1) };
    let var = Stmt::Var { name: x(), initializer: Some(one()) };
    assert_eq!(var.render(), "var x = 1");
    assert_eq!(Stmt::Var { name: x(), initializer: None }.render(), "var x");
    let block = Stmt::Block {
        statements: vec![
            Stmt::Print { expression: Box::new(one()) },
            Stmt::Expression { expression: Box::new(Expr::Variable { name: x() }) },
        ],
    };
    assert_eq!(block.render(), "{ print 1  x }");
    let cond = Stmt::If {
        condition: Expr::Literal { value: Literal::Bool(true) },
        then_branch: Box::new(Stmt::Print { expression: Box::new(one()) }),
        else_branch: Some(Box::new(Stmt::Print { expression: Box::new(Expr::Literal { value: Literal::Nil }) })),
    };
    assert_eq!(cond.render(), "if (true) print 1 else print nil");
}

#[test]
fn expression_rendering() {
    let x = || tok(TokenType::Identifier, "x", 1);
    let assign = Expr::Assign { name: x(), value: Box::new(Expr::Literal { value: Literal::Str("s".to_string()) }) };
    assert_eq!(assign.render(), "x = s");
    let logical = Expr::Logical {
        left: Box::new(Expr::Variable { name: x() }),
        operator: tok(TokenType::Or, "or", 1),
        right: Box::new(Expr::Literal { value: Literal::Bool(false) }),
    };
    assert_eq!(logical.render(), "x or false");
    let unary = Expr::Unary {
        operator: tok(TokenType::Minus, "-", 1),
        right: Box::new(Expr::Grouping { expression: Box::new(Expr::Literal { value: Literal::Number(-4) }) }),
    };
    assert_eq!(unary.render(), "(- -4)");
}

#[test]
fn numbers_render_in_decimal() {
    assert_eq!(number_text(0), "0");
    assert_eq!(number_text(1203), "1203");
    assert_eq!(number_text(-45), "-45");
    assert_eq!(number_text(i64::MIN), "-9223372036854775808");
    assert_eq!(number_text(i64::MAX), "9223372036854775807");
}

#[test]
fn environment_define_get_assign() {
    let mut env = Environment::new();
    let a = tok(TokenType::Identifier, "a", 1);
    assert!(env.get(&a).is_err());
    assert!(env.assign(&a, Literal::Nil).is_err());
    env.define("a".to_string(), Literal::Number(1));
    assert!(matches!(env.get(&a), Ok(Literal::Number(1))));
    assert!(matches!(env.assign(&a, Literal::Bool(true)), Ok(Literal::Bool(true))));
    assert!(matches!(env.get(&a), Ok(Literal::Bool(true))));
    env.define("a".to_string(), Literal::Nil);
    assert!(matches!(env.get(&a), Ok(Literal::Nil)));
}

#[test]
fn var_without_initializer_is_nil() {
    let tokens = vec![
        tok(TokenType::Var, "var", 1),
        tok(TokenType::Identifier, "v", 1),
        tok(TokenType::Semicolon, ";", 1),
        tok(TokenType::Print, "print", 1),
        tok(TokenType::Identifier, "v", 1),
        tok(TokenType::Semicolon, ";", 1),
        eof(1),
    ];
    assert_eq!(run(parse(tokens)).1, "nil\n");
}

#[test]
fn logical_and_block_are_not_run() {
    let logical = Stmt::Expression {
        expression: Box::new(Expr::Logical {
            left: Box::new(Expr::Literal { value: Literal::Nil }),
            operator: tok(TokenType::And, "and", 6),
            right: Box::new(Expr::Literal { value: Literal::Nil }),
        }),
    };
    let e = run(vec![logical]).0.unwrap_err();
    assert_eq!(e.line, 6);
    assert_eq!(e.message, "Not supported.");
    assert!(run(vec![Stmt::Block { statements: Vec::new() }]).0.is_err());
}
