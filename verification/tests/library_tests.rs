use monkey_interpreter::environment::Environment;
use monkey_interpreter::error::ParseErrorKind;
use monkey_interpreter::eval::Evaluator;
use monkey_interpreter::lexer::Lexer;
use monkey_interpreter::object::Object;
use monkey_interpreter::parser;

fn run(input: &str) -> Result<Object, String> {
    let mut p = parser::new(Lexer::new(input));
    let program = p.parse();
    let mut evaluator = Evaluator::new();
    evaluator.eval(program)
}

#[test]
fn integer_literal_round_trip() {
    // a literal within 64-bit range evaluates to exactly itself
    assert_eq!(run("0;"), Ok(Object::Int(0)));
    assert_eq!(run("42;"), Ok(Object::Int(42)));
    assert_eq!(
        run("9223372036854775807;"),
        Ok(Object::Int(9223372036854775807))
    );
}

#[test]
fn bang_is_involutive_on_truthiness() {
    let cases = vec![
        ("true", true),
        ("false", false),
        ("0", false),
        ("1", true),
        ("-1", true),
    ];
    for (x, truthiness) in cases {
        let doubled = format!("!!{}", x);
        assert_eq!(run(doubled.as_str()), Ok(Object::Bool(truthiness)));
    }
}

#[test]
fn precedence_equation_evaluates_true() {
    assert_eq!(
        run("3 + 4 * 5 == 3 * 1 + 4 * 5"),
        Ok(Object::Bool(true))
    );
}

#[test]
fn parser_accumulates_errors_and_returns() {
    // a let statement missing its `=` produces an unexpected-token error,
    // and the parser goes on with the rest of the input
    let mut p = parser::new(Lexer::new("let x 5; let y = 8; y;"));
    let program = p.parse();
    let errors = p.get_errors();
    assert!(errors.len() >= 1);
    assert_eq!(errors[0].kind(), ParseErrorKind::UnexpectedToken);
    assert_eq!(
        errors[0].message(),
        String::from("expected next token to be Assign, got Int(5) instead.")
    );
    // the later, well-formed statements were still parsed
    assert!(program.len() >= 2);
}

#[test]
fn no_prefix_parser_error_message() {
    let mut p = parser::new(Lexer::new("* 2"));
    let program = p.parse();
    let errors = p.get_errors();
    // the statement with no prefix rule is dropped; parsing then resumes,
    // so the bare literal after it still comes through
    assert_eq!(program.len(), 1);
    assert!(errors.len() >= 1);
    assert_eq!(
        errors[0].message(),
        String::from("no prefix parse function for Asterisk found")
    );
}

#[test]
fn identifier_not_found_error() {
    assert_eq!(
        run("foobar"),
        Err(String::from("Identifier not found: foobar"))
    );
}

#[test]
fn division_by_zero_is_a_runtime_error() {
    assert_eq!(
        run("5 / 0;"),
        Err(String::from("Couldn't perform operation: 5 / 0"))
    );
    assert_eq!(run("5 / 2;"), Ok(Object::Int(2)));
    assert_eq!(run("-5 / 2;"), Ok(Object::Int(-2)));
}

#[test]
fn arithmetic_overflow_is_a_runtime_error() {
    assert_eq!(
        run("9223372036854775807 + 1;"),
        Err(String::from(
            "Couldn't perform operation: 9223372036854775807 + 1"
        ))
    );
}

#[test]
fn two_char_comparison_operators() {
    assert_eq!(run("1 <= 2"), Ok(Object::Bool(true)));
    assert_eq!(run("2 <= 2"), Ok(Object::Bool(true)));
    assert_eq!(run("3 <= 2"), Ok(Object::Bool(false)));
    assert_eq!(run("1 >= 2"), Ok(Object::Bool(false)));
    assert_eq!(run("2 >= 2"), Ok(Object::Bool(true)));
}

#[test]
fn let_bindings_are_read_back() {
    assert_eq!(run("let a = 5; a + 2;"), Ok(Object::Int(7)));
    assert_eq!(run("let a = 5; let a = 6; a;"), Ok(Object::Int(6)));
    assert_eq!(run("let a = 1 + true; a;"), {
        // an error initializer short-circuits without binding
        Err(String::from("Couldn't perform operation: 1 + true"))
    });
}

#[test]
fn environment_set_and_get() {
    let mut env = Environment::new();
    assert_eq!(env.get("x"), None);
    assert_eq!(env.set("x", Object::Int(1)), None);
    assert_eq!(env.get("x"), Some(Object::Int(1)));
    assert_eq!(env.set("x", Object::Bool(true)), Some(Object::Int(1)));
    assert_eq!(env.get("x"), Some(Object::Bool(true)));
    assert_eq!(env.get("y"), None);
}

#[test]
fn object_renders_to_text() {
    assert_eq!(Object::Int(42).render(), String::from("42"));
    assert_eq!(Object::Int(-42).render(), String::from("-42"));
    assert_eq!(Object::Int(0).render(), String::from("0"));
    assert_eq!(
        Object::Int(i64::MIN).render(),
        String::from("-9223372036854775808")
    );
    assert_eq!(Object::Bool(true).render(), String::from("true"));
    assert_eq!(
        Object::Error(String::from("boom")).render(),
        String::from("boom")
    );
    assert_eq!(Object::Null.render(), String::from("null"));
}

#[test]
fn overflowing_literal_is_rejected_by_the_parser() {
    let mut p = parser::new(Lexer::new("9223372036854775808;"));
    let program = p.parse();
    let errors = p.get_errors();
    assert!(program.is_empty());
    assert!(errors.len() >= 1);
    assert_eq!(errors[0].kind(), ParseErrorKind::UnexpectedToken);
}
