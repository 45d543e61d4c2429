use monkey_interpreter::ast::Expr;
use monkey_interpreter::ast::Ident;
use monkey_interpreter::ast::Infix;
use monkey_interpreter::ast::Literal;
use monkey_interpreter::ast::Prefix;
use monkey_interpreter::ast::Statement as Stmt;
use monkey_interpreter::ast::Precedence;
use monkey_interpreter::lexer::Lexer;
use monkey_interpreter::parser;

fn parse_ok(input: &str) -> Vec<Stmt> {
    let mut p = parser::new(Lexer::new(input));
    let program = p.parse();
    let errors = p.get_errors();
    if !errors.is_empty() {
        println!("\nparser has {} errors.", errors.len());
        for error in &errors {
            println!("parser error: {}", error.message());
        }
        panic!("Check parser errors.")
    }
    program
}

#[test]
fn let_statements() {
    let program = parse_ok(
        "let x = 5;
    let y = 10;
    let foobar = x + y;
    ",
    );

    assert_eq!(
        program,
        vec![
            Stmt::Let(
                Ident(String::from("x")),
                Expr::Literal(Literal::Int(5))
            ),
            Stmt::Let(
                Ident(String::from("y")),
                Expr::Literal(Literal::Int(10))
            ),
            Stmt::Let(
                Ident(String::from("foobar")),
                Expr::Infix(
                    Box::new(Expr::Ident(Ident(String::from("x")))),
                    Infix::Plus,
                    Box::new(Expr::Ident(Ident(String::from("y"))))
                )
            )
        ]
    );
}

#[test]
fn return_statements() {
    let program = parse_ok(
        "return 5;
    return 10;
    return a + 20;",
    );

    assert_eq!(
        program,
        vec![
            Stmt::Return(Expr::Literal(Literal::Int(5))),
            Stmt::Return(Expr::Literal(Literal::Int(10))),
            Stmt::Return(Expr::Infix(
                Box::new(Expr::Ident(Ident(String::from("a")))),
                Infix::Plus,
                Box::new(Expr::Literal(Literal::Int(20)))
            ))
        ]
    )
}

#[test]
fn ident_expr() {
    let program = parse_ok("foobar;");

    assert_eq!(
        program,
        vec![Stmt::Expr(Expr::Ident(Ident(String::from("foobar"))))]
    );
}

#[test]
fn integer_literal_expr() {
    let program = parse_ok("5;");

    assert_eq!(program, vec![Stmt::Expr(Expr::Literal(Literal::Int(5)))]);
}

#[test]
fn bool_literal_expr() {
    let cases = vec![
        (
            "true;false",
            vec![
                Stmt::Expr(Expr::Literal(Literal::Bool(true))),
                Stmt::Expr(Expr::Literal(Literal::Bool(false))),
            ],
        ),
        (
            "3 > 5 == false",
            vec![Stmt::Expr(Expr::Infix(
                Box::new(Expr::Infix(
                    Box::new(Expr::Literal(Literal::Int(3))),
                    Infix::GreaterThan,
                    Box::new(Expr::Literal(Literal::Int(5))),
                )),
                Infix::Equal,
                Box::new(Expr::Literal(Literal::Bool(false))),
            ))],
        ),
    ];

    for (input, expected) in cases {
        let program = parse_ok(input);

        assert_eq!(program, expected);
    }
}

#[test]
fn prefix_expr() {
    let cases = vec![
        (
            "!5;",
            vec![Stmt::Expr(Expr::Prefix(
                Prefix::Bang,
                Box::new(Expr::Literal(Literal::Int(5))),
            ))],
        ),
        (
            "+15;",
            vec![Stmt::Expr(Expr::Prefix(
                Prefix::Plus,
                Box::new(Expr::Literal(Literal::Int(15))),
            ))],
        ),
        (
            "-15;",
            vec![Stmt::Expr(Expr::Prefix(
                Prefix::Minus,
                Box::new(Expr::Literal(Literal::Int(15))),
            ))],
        ),
    ];

    for (input, expected) in cases {
        let program = parse_ok(input);

        assert_eq!(program, expected)
    }
}

#[test]
fn infix_expr() {
    let cases = vec![
        ("5 + 5", Infix::Plus),
        ("5 - 5", Infix::Minus),
        ("5 * 5", Infix::Multiply),
        ("5 / 5", Infix::Divide),
        ("5 > 5", Infix::GreaterThan),
        ("5 < 5", Infix::LessThan),
        ("5 == 5", Infix::Equal),
        ("5 != 5", Infix::NotEqual),
    ];

    for (input, op) in cases {
        let program = parse_ok(input);
        let expected = vec![Stmt::Expr(Expr::Infix(
            Box::new(Expr::Literal(Literal::Int(5))),
            op,
            Box::new(Expr::Literal(Literal::Int(5))),
        ))];

        assert_eq!(program, expected);
    }
}

#[test]
fn operator_precedence_parsing() {
    let ident = |name: &str| Expr::Ident(Ident(String::from(name)));
    let int = |v: i64| Expr::Literal(Literal::Int(v));
    let infix =
        |l: Expr, op: Infix, r: Expr| Expr::Infix(Box::new(l), op, Box::new(r));

    let cases = vec![
        (
            "3 + 4 * 5 == 3 * 1 + 4 * 5",
            vec![Stmt::Expr(infix(
                infix(int(3), Infix::Plus, infix(int(4), Infix::Multiply, int(5))),
                Infix::Equal,
                infix(
                    infix(int(3), Infix::Multiply, int(1)),
                    Infix::Plus,
                    infix(int(4), Infix::Multiply, int(5)),
                ),
            ))],
        ),
        (
            "3 + 4; -5 * 5",
            vec![
                Stmt::Expr(infix(int(3), Infix::Plus, int(4))),
                Stmt::Expr(infix(
                    Expr::Prefix(Prefix::Minus, Box::new(int(5))),
                    Infix::Multiply,
                    int(5),
                )),
            ],
        ),
        (
            "5 > 4 == 3 < 4",
            vec![Stmt::Expr(infix(
                infix(int(5), Infix::GreaterThan, int(4)),
                Infix::Equal,
                infix(int(3), Infix::LessThan, int(4)),
            ))],
        ),
        (
            "5 < 4 != 3 > 4",
            vec![Stmt::Expr(infix(
                infix(int(5), Infix::LessThan, int(4)),
                Infix::NotEqual,
                infix(int(3), Infix::GreaterThan, int(4)),
            ))],
        ),
        (
            "-a * b",
            vec![Stmt::Expr(infix(
                Expr::Prefix(Prefix::Minus, Box::new(ident("a"))),
                Infix::Multiply,
                ident("b"),
            ))],
        ),
        (
            "!-a",
            vec![Stmt::Expr(Expr::Prefix(
                Prefix::Bang,
                Box::new(Expr::Prefix(Prefix::Minus, Box::new(ident("a")))),
            ))],
        ),
        (
            "a + b - c",
            vec![Stmt::Expr(infix(
                infix(ident("a"), Infix::Plus, ident("b")),
                Infix::Minus,
                ident("c"),
            ))],
        ),
        (
            "a + b * c + d / e - f",
            vec![Stmt::Expr(infix(
                infix(
                    infix(
                        ident("a"),
                        Infix::Plus,
                        infix(ident("b"), Infix::Multiply, ident("c")),
                    ),
                    Infix::Plus,
                    infix(ident("d"), Infix::Divide, ident("e")),
                ),
                Infix::Minus,
                ident("f"),
            ))],
        ),
        (
            "1 + (2 + 3) + 4",
            vec![Stmt::Expr(infix(
                infix(int(1), Infix::Plus, infix(int(2), Infix::Plus, int(3))),
                Infix::Plus,
                int(4),
            ))],
        ),
        (
            "(5 + 5) * 2",
            vec![Stmt::Expr(infix(
                infix(int(5), Infix::Plus, int(5)),
                Infix::Multiply,
                int(2),
            ))],
        ),
        (
            "2 / (5 + 5)",
            vec![Stmt::Expr(infix(
                int(2),
                Infix::Divide,
                infix(int(5), Infix::Plus, int(5)),
            ))],
        ),
        (
            "-(5 + 5)",
            vec![Stmt::Expr(Expr::Prefix(
                Prefix::Minus,
                Box::new(infix(int(5), Infix::Plus, int(5))),
            ))],
        ),
        (
            "!(true == true)",
            vec![Stmt::Expr(Expr::Prefix(
                Prefix::Bang,
                Box::new(infix(
                    Expr::Literal(Literal::Bool(true)),
                    Infix::Equal,
                    Expr::Literal(Literal::Bool(true)),
                )),
            ))],
        ),
        (
            "a + add(b * c) + d",
            vec![Stmt::Expr(infix(
                infix(
                    ident("a"),
                    Infix::Plus,
                    Expr::Call {
                        function: Box::new(ident("add")),
                        arguments: vec![infix(ident("b"), Infix::Multiply, ident("c"))],
                    },
                ),
                Infix::Plus,
                ident("d"),
            ))],
        ),
        (
            "add(a, b, 1, 2 * 3, 4 + 5, add(6, 7 * 8))",
            vec![Stmt::Expr(Expr::Call {
                function: Box::new(ident("add")),
                arguments: vec![
                    ident("a"),
                    ident("b"),
                    int(1),
                    infix(int(2), Infix::Multiply, int(3)),
                    infix(int(4), Infix::Plus, int(5)),
                    Expr::Call {
                        function: Box::new(ident("add")),
                        arguments: vec![int(6), infix(int(7), Infix::Multiply, int(8))],
                    },
                ],
            })],
        ),
        (
            "add(a + b + c * d / f + g)",
            vec![Stmt::Expr(Expr::Call {
                function: Box::new(ident("add")),
                arguments: vec![infix(
                    infix(
                        infix(ident("a"), Infix::Plus, ident("b")),
                        Infix::Plus,
                        infix(
                            infix(ident("c"), Infix::Multiply, ident("d")),
                            Infix::Divide,
                            ident("f"),
                        ),
                    ),
                    Infix::Plus,
                    ident("g"),
                )],
            })],
        ),
    ];

    for (input, expected) in cases {
        let program = parse_ok(input);

        assert_eq!(program, expected);
    }
}

#[test]
fn if_expr() {
    let cases = vec![
        (
            "if (x < y) { x }",
            vec![Stmt::Expr(Expr::If {
                condition: Box::new(Expr::Infix(
                    Box::new(Expr::Ident(Ident(String::from("x")))),
                    Infix::LessThan,
                    Box::new(Expr::Ident(Ident(String::from("y")))),
                )),
                consequence: vec![Stmt::Expr(Expr::Ident(Ident(String::from("x"))))],
                alternative: None,
            })],
        ),
        (
            "if (x < y) { x } else { y }",
            vec![Stmt::Expr(Expr::If {
                condition: Box::new(Expr::Infix(
                    Box::new(Expr::Ident(Ident(String::from("x")))),
                    Infix::LessThan,
                    Box::new(Expr::Ident(Ident(String::from("y")))),
                )),
                consequence: vec![Stmt::Expr(Expr::Ident(Ident(String::from("x"))))],
                alternative: Some(vec![Stmt::Expr(Expr::Ident(Ident(String::from("y"))))]),
            })],
        ),
    ];

    for (input, expected) in cases {
        let program = parse_ok(input);

        assert_eq!(program, expected)
    }
}

#[test]
fn function_literal() {
    let cases = vec![(
        "fn (x, y) { x + y; }",
        vec![Stmt::Expr(Expr::Function {
            params: vec![Ident(String::from("x")), Ident(String::from("y"))],
            body: vec![Stmt::Expr(Expr::Infix(
                Box::new(Expr::Ident(Ident(String::from("x")))),
                Infix::Plus,
                Box::new(Expr::Ident(Ident(String::from("y")))),
            ))],
        })],
    )];

    for (input, expected) in cases {
        let program = parse_ok(input);
        assert_eq!(program, expected);
    }
}

#[test]
fn call_expr() {
    let program = parse_ok("add(1, 2 * 3, 4 + 5)");
    assert_eq!(
        program,
        vec![Stmt::Expr(Expr::Call {
            function: Box::new(Expr::Ident(Ident(String::from("add")))),
            arguments: vec![
                Expr::Literal(Literal::Int(1)),
                Expr::Infix(
                    Box::new(Expr::Literal(Literal::Int(2))),
                    Infix::Multiply,
                    Box::new(Expr::Literal(Literal::Int(3)))
                ),
                Expr::Infix(
                    Box::new(Expr::Literal(Literal::Int(4))),
                    Infix::Plus,
                    Box::new(Expr::Literal(Literal::Int(5)))
                )
            ]
        })]
    )
}

#[test]
fn operators_render_to_their_written_form() {
    assert_eq!(Prefix::Bang.render(), String::from("!"));
    assert_eq!(Prefix::Minus.render(), String::from("-"));
    assert_eq!(Prefix::Plus.render(), String::from("+"));
    assert_eq!(Infix::Plus.render(), String::from("+"));
    assert_eq!(Infix::Multiply.render(), String::from("\u{00d7}"));
    assert_eq!(Infix::NotEqual.render(), String::from("\u{2260}"));
    assert_eq!(Infix::LessThanEqual.render(), String::from("\u{2264}"));
}

#[test]
fn precedence_levels_are_strictly_ordered() {
    let levels = vec![
        Precedence::Lowest,
        Precedence::Equals,
        Precedence::LessGreater,
        Precedence::Sum,
        Precedence::Product,
        Precedence::Prefix,
        Precedence::Call,
        Precedence::Index,
    ];
    for i in 0..levels.len() {
        for j in 0..levels.len() {
            assert_eq!(levels[i].binds_less_than(&levels[j]), i < j);
        }
    }
}
