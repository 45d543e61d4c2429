use monkey_interpreter::lexer::Lexer;
use monkey_interpreter::token::Token;

#[test]
fn tokenize() {
    let input = "let five = 5;
  let ten = 10;
  let add = fn(x, y) {
    x + y;
  };
  let result = add(five, ten);
  !-/*1;
  2 < 3 > 2;

  if (4 < 5) {
    return true;
  } else {
    return false;
  }

  12 == 12;
  11 != 12;
  ";

    let expected = vec![
        Token::Let,
        Token::Ident(String::from("five")),
        Token::Assign,
        Token::Int(5),
        Token::Semicolon,
        //
        Token::Let,
        Token::Ident(String::from("ten")),
        Token::Assign,
        Token::Int(10),
        Token::Semicolon,
        //
        Token::Let,
        Token::Ident(String::from("add")),
        Token::Assign,
        Token::Function,
        Token::LParen,
        Token::Ident(String::from("x")),
        Token::Comma,
        Token::Ident(String::from("y")),
        Token::RParen,
        Token::LBrace,
        //
        Token::Ident(String::from("x")),
        Token::Plus,
        Token::Ident(String::from("y")),
        Token::Semicolon,
        //
        Token::RBrace,
        Token::Semicolon,
        //
        Token::Let,
        Token::Ident(String::from("result")),
        Token::Assign,
        Token::Ident(String::from("add")),
        Token::LParen,
        Token::Ident(String::from("five")),
        Token::Comma,
        Token::Ident(String::from("ten")),
        Token::RParen,
        Token::Semicolon,
        //
        Token::Bang,
        Token::Minus,
        Token::Slash,
        Token::Asterisk,
        Token::Int(1),
        Token::Semicolon,
        //
        Token::Int(2),
        Token::LessThan,
        Token::Int(3),
        Token::GreaterThan,
        Token::Int(2),
        Token::Semicolon,
        //
        Token::If,
        Token::LParen,
        Token::Int(4),
        Token::LessThan,
        Token::Int(5),
        Token::RParen,
        Token::LBrace,
        //
        Token::Return,
        Token::Bool(true),
        Token::Semicolon,
        //
        Token::RBrace,
        Token::Else,
        Token::LBrace,
        //
        Token::Return,
        Token::Bool(false),
        Token::Semicolon,
        //
        Token::RBrace,
        //
        Token::Int(12),
        Token::Equal,
        Token::Int(12),
        Token::Semicolon,
        Token::Int(11),
        Token::NotEqual,
        Token::Int(12),
        Token::Semicolon,
        Token::Eof,
    ];

    let mut lexer = Lexer::new(input);
    for tt in expected {
        let tok = lexer.move_to_next_tok();

        assert_eq!(tt, tok);
    }
}

#[test]
fn tokenize_two_char_comparisons() {
    let mut lexer = Lexer::new("1 <= 2 >= 3");
    let expected = vec![
        Token::Int(1),
        Token::LessThanEqual,
        Token::Int(2),
        Token::GreaterThanEqual,
        Token::Int(3),
        Token::Eof,
    ];
    for tt in expected {
        assert_eq!(tt, lexer.move_to_next_tok());
    }
}

#[test]
fn tokenize_illegal_and_overflow() {
    // a byte matching no rule is an illegal token; so is a numeric literal
    // that does not fit in 64 bits
    let mut lexer = Lexer::new("@ 9223372036854775807 9223372036854775808");
    assert_eq!(lexer.move_to_next_tok(), Token::Illegal);
    assert_eq!(lexer.move_to_next_tok(), Token::Int(i64::MAX));
    assert_eq!(lexer.move_to_next_tok(), Token::Illegal);
    assert_eq!(lexer.move_to_next_tok(), Token::Eof);
    // exhausted input keeps yielding the end-of-input token
    assert_eq!(lexer.move_to_next_tok(), Token::Eof);
}

#[test]
fn describe_tokens() {
    assert_eq!(
        Token::Ident(String::from("five")).describe(),
        String::from("Ident(\"five\")")
    );
    assert_eq!(Token::Int(-7).describe(), String::from("Int(-7)"));
    assert_eq!(Token::Bool(true).describe(), String::from("Bool(true)"));
    assert_eq!(Token::RParen.describe(), String::from("RParen"));
}
