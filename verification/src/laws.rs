//! Laws that tie the pipeline together: scanning recovers identifier and
//! number text verbatim, a bare integer literal evaluates to itself, and
//! equal-precedence operators associate to the left.

use vstd::prelude::*;

use crate::ast::ExprS;
use crate::ast::Infix;
use crate::ast::Literal;
use crate::ast::Precedence;
use crate::ast::StmtS;
use crate::eval::sp_eval;
use crate::lexer::bytes_to_chars;
use crate::lexer::digit_end;
use crate::lexer::digits_val;
use crate::lexer::is_digit_byte;
use crate::lexer::is_letter_byte;
use crate::lexer::keyword_or_ident;
use crate::lexer::lex_tokens;
use crate::lexer::lemma_lex_tokens_step;
use crate::lexer::scan;
use crate::lexer::word_end;
use crate::object::ObjS;
use crate::parser::sp_parse_program;
use crate::render::dec_digits;
use crate::render::digit_char;
use crate::render::int_text;
use crate::token::TokenS;

verus! {

/// A run of letters reaching the end of the input ends the word there.
proof fn lemma_word_end_full(input: Seq<u8>, k: int)
    requires
        0 <= k <= input.len(),
        forall|j: int| k <= j < input.len() ==> is_letter_byte(#[trigger] input[j]),
    ensures
        word_end(input, k) == input.len(),
    decreases input.len() - k,
{
    if k < input.len() {
        lemma_word_end_full(input, k + 1);
    }
}

/// A run of digits reaching position `stop` ends the number there, when the
/// byte at `stop`, if any, is no digit.
proof fn lemma_digit_end_until(input: Seq<u8>, k: int, stop: int)
    requires
        0 <= k <= stop <= input.len(),
        forall|j: int| k <= j < stop ==> is_digit_byte(#[trigger] input[j]),
        stop < input.len() ==> !is_digit_byte(input[stop]),
    ensures
        digit_end(input, k) == stop,
    decreases stop - k,
{
    if k < stop {
        lemma_digit_end_until(input, k + 1, stop);
    }
}

/// The value of a digit run reads only the bytes of the run.
proof fn lemma_digits_val_frame(a: Seq<u8>, b: Seq<u8>, i: int, j: int)
    requires
        0 <= i <= j,
        j <= a.len(),
        j <= b.len(),
        forall|k: int| i <= k < j ==> a[k] == b[k],
    ensures
        digits_val(a, i, j) == digits_val(b, i, j),
    decreases j - i,
{
    if i < j {
        lemma_digits_val_frame(a, b, i, j - 1);
    }
}

/// The value of a digit run is never negative.
proof fn lemma_digits_val_nonneg(input: Seq<u8>, i: int, j: int)
    requires
        0 <= i,
        j <= input.len(),
        forall|k: int| i <= k < j ==> is_digit_byte(#[trigger] input[k]),
    ensures
        digits_val(input, i, j) >= 0,
    decreases j - i,
{
    if i < j {
        lemma_digits_val_nonneg(input, i, j - 1);
        assert(digits_val(input, i, j) == digits_val(input, i, j - 1) * 10 + (input[j - 1] - 48));
    }
}

/// Rendering the value of a digit run recovers the run's characters, for a
/// run without a leading zero.
proof fn lemma_dec_digits_inverse(input: Seq<u8>, i: int, j: int)
    requires
        0 <= i < j <= input.len(),
        forall|k: int| i <= k < j ==> is_digit_byte(#[trigger] input[k]),
        input[i] != 48,
    ensures
        digits_val(input, i, j) >= 1,
        dec_digits(digits_val(input, i, j)) == bytes_to_chars(input.subrange(i, j)),
    decreases j - i,
{
    if j == i + 1 {
        let d = input[i] - 48;
        assert(digits_val(input, i, j) == digits_val(input, i, i) * 10 + d);
        assert(digits_val(input, i, j) == d);
        assert(dec_digits(d) == dec_digits(d / 10) + seq![digit_char(d % 10)]);
        assert(d / 10 == 0 && d % 10 == d);
        assert(digit_char(d) == input[i] as char);
        assert(dec_digits(d) =~= bytes_to_chars(input.subrange(i, j)));
    } else {
        lemma_dec_digits_inverse(input, i, j - 1);
        let a = digits_val(input, i, j - 1);
        let d = input[j - 1] - 48;
        let v = digits_val(input, i, j);
        assert(v == a * 10 + d);
        assert(0 <= d <= 9);
        assert(v / 10 == a && v % 10 == d) by (nonlinear_arith)
            requires
                v == a * 10 + d,
                a >= 1,
                0 <= d <= 9,
        ;
        assert(v >= 10) by (nonlinear_arith)
            requires
                v == a * 10 + d,
                a >= 1,
                0 <= d <= 9,
        ;
        assert(dec_digits(v) == dec_digits(a) + seq![digit_char(d)]);
        assert(digit_char(d) == input[j - 1] as char);
        assert(input.subrange(i, j - 1) =~= input.subrange(i, j).subrange(0, j - 1 - i));
        assert(dec_digits(v) =~= bytes_to_chars(input.subrange(i, j)));
    }
}

/// Scanning an input that is one maximal letter run yields exactly one
/// token, and for a text that names no reserved word that token is an
/// identifier carrying the input's characters verbatim.
pub proof fn lemma_scan_identifier_roundtrip(input: Seq<u8>)
    requires
        input.len() > 0,
        forall|j: int| 0 <= j < input.len() ==> is_letter_byte(#[trigger] input[j]),
    ensures
        lex_tokens(input, 0) == seq![keyword_or_ident(bytes_to_chars(input))],
{
    lemma_word_end_full(input, 0);
    assert(input.subrange(0, input.len() as int) =~= input);
    let sc = scan(input, 0);
    assert(sc.tok == keyword_or_ident(bytes_to_chars(input)));
    assert(sc.end == input.len());
    lemma_lex_tokens_step(input, 0);
    assert(lex_tokens(input, input.len() as int) =~= Seq::<TokenS>::empty());
    assert(lex_tokens(input, 0) =~= seq![keyword_or_ident(bytes_to_chars(input))]);
}

/// Scanning an input that is one maximal digit run without a leading zero
/// and within 64-bit range yields exactly one integer token, and rendering
/// that token's value recovers the input's characters verbatim.
pub proof fn lemma_scan_number_roundtrip(input: Seq<u8>)
    requires
        input.len() > 0,
        forall|j: int| 0 <= j < input.len() ==> is_digit_byte(#[trigger] input[j]),
        input[0] != 48 || input.len() == 1,
        digits_val(input, 0, input.len() as int) <= i64::MAX,
    ensures
        lex_tokens(input, 0) == seq![
            TokenS::Int(digits_val(input, 0, input.len() as int) as i64),
        ],
        int_text(digits_val(input, 0, input.len() as int)) == bytes_to_chars(input),
    decreases input.len(),
{
    let n = input.len() as int;
    let v = digits_val(input, 0, n);
    lemma_digits_val_nonneg(input, 0, n);
    lemma_digit_end_until(input, 0, n);
    assert(input.subrange(0, n) =~= input);
    let sc = scan(input, 0);
    assert(sc.tok == TokenS::Int(v as i64));
    assert(sc.end == n);
    lemma_lex_tokens_step(input, 0);
    assert(lex_tokens(input, n) =~= Seq::<TokenS>::empty());
    assert(lex_tokens(input, 0) =~= seq![TokenS::Int(v as i64)]);
    if input.len() == 1 && input[0] == 48 {
        assert(v == digits_val(input, 0, 0) * 10 + (input[0] - 48));
        assert(v == 0);
        assert(int_text(0) == seq!['0']);
        assert(input[0] as char == '0');
        assert(int_text(v) =~= bytes_to_chars(input));
    } else {
        lemma_dec_digits_inverse(input, 0, n);
        assert(int_text(v) == dec_digits(v));
    }
}

/// For every valid integer literal within 64-bit range, the program that
/// consists of that literal and a semicolon scans, parses and evaluates to
/// exactly that integer, with no parse errors.
pub proof fn lemma_int_literal_evaluates(digits: Seq<u8>)
    requires
        digits.len() > 0,
        forall|j: int| 0 <= j < digits.len() ==> is_digit_byte(#[trigger] digits[j]),
        digits_val(digits, 0, digits.len() as int) <= i64::MAX,
    ensures
        ({
            let input = digits + seq![59u8];
            let v = digits_val(digits, 0, digits.len() as int) as i64;
            let ts = lex_tokens(input, 0);
            let prog = sp_parse_program(ts, 0);
            &&& ts == seq![TokenS::Int(v), TokenS::Semicolon]
            &&& prog.stmts == seq![StmtS::Expr(ExprS::Literal(Literal::Int(v)))]
            &&& prog.errs == Seq::<crate::error::PErrS>::empty()
            &&& sp_eval(Map::empty(), prog.stmts).result == Result::<ObjS, Seq<char>>::Ok(
                ObjS::Int(v),
            )
        }),
{
    let input = digits + seq![59u8];
    let n = digits.len() as int;
    lemma_digits_val_nonneg(digits, 0, n);
    lemma_digits_val_frame(input, digits, 0, n);
    let v = digits_val(digits, 0, n) as i64;
    // scanning: the digit run, then the semicolon, then the end
    lemma_digit_end_until(input, 0, n);
    let sc0 = scan(input, 0);
    assert(input.subrange(0, n) =~= digits);
    assert(sc0.tok == TokenS::Int(v));
    assert(sc0.end == n);
    let sc1 = scan(input, n);
    assert(input[n] == 59);
    assert(sc1.tok == TokenS::Semicolon);
    assert(sc1.end == n + 1);
    lemma_lex_tokens_step(input, 0);
    lemma_lex_tokens_step(input, n);
    assert(lex_tokens(input, n + 1) =~= Seq::<TokenS>::empty());
    let ts = lex_tokens(input, 0);
    assert(ts =~= seq![TokenS::Int(v), TokenS::Semicolon]);
    // parsing: one expression statement holding the literal
    let e = crate::parser::sp_parse_expr(ts, 0, Precedence::Lowest);
    assert(crate::parser::tok_i(ts, 0) == TokenS::Int(v));
    assert(crate::parser::tok_i(ts, 1) == TokenS::Semicolon);
    assert(crate::parser::sp_prefix_dispatch(ts, 0).expr == Option::Some(
        ExprS::Literal(Literal::Int(v)),
    ));
    assert(e.expr == Option::Some(ExprS::Literal(Literal::Int(v))) && e.i == 0 && e.errs
        =~= Seq::<crate::error::PErrS>::empty());
    let s0 = crate::parser::sp_parse_stmt(ts, 0);
    assert(s0.stmt == Option::Some(StmtS::Expr(ExprS::Literal(Literal::Int(v)))) && s0.i == 1
        && s0.errs =~= Seq::<crate::error::PErrS>::empty());
    let prog = sp_parse_program(ts, 0);
    assert(crate::parser::tok_i(ts, 2) == TokenS::Eof);
    assert(sp_parse_program(ts, 2).stmts =~= Seq::<StmtS>::empty());
    assert(prog.stmts =~= seq![StmtS::Expr(ExprS::Literal(Literal::Int(v)))]);
    assert(prog.errs =~= Seq::<crate::error::PErrS>::empty());
    // evaluating: the literal is the block's last and only value
    let env0 = Map::<Seq<char>, ObjS>::empty();
    let r0 = crate::eval::sp_eval_stmt(env0, prog.stmts[0]);
    assert(r0.val == Option::Some(ObjS::Int(v)));
    assert(r0.env == env0);
    assert(crate::eval::sp_eval_block(env0, prog.stmts, 1, Option::Some(ObjS::Int(v))).val
        == Option::Some(ObjS::Int(v)));
    let b = crate::eval::sp_eval_block(env0, prog.stmts, 0, Option::None);
    assert(b.val == Option::Some(ObjS::Int(v)));
    assert(sp_eval(env0, prog.stmts).result == Result::<ObjS, Seq<char>>::Ok(ObjS::Int(v)));
}

/// Operators of equal precedence bind to the left: for any identifiers
/// `a`, `b`, `c`, the token stream of `a - b - c` parses to the
/// left-nested infix tree, never the right-nested one.
pub proof fn lemma_minus_left_associative(a: Seq<char>, b: Seq<char>, c: Seq<char>)
    ensures
        ({
            let ts = seq![
                TokenS::Ident(a),
                TokenS::Minus,
                TokenS::Ident(b),
                TokenS::Minus,
                TokenS::Ident(c),
            ];
            crate::parser::sp_parse_expr(ts, 0, Precedence::Lowest).expr == Option::Some(
                ExprS::Infix(
                    Box::new(
                        ExprS::Infix(
                            Box::new(ExprS::Ident(a)),
                            Infix::Minus,
                            Box::new(ExprS::Ident(b)),
                        ),
                    ),
                    Infix::Minus,
                    Box::new(ExprS::Ident(c)),
                ),
            )
        }),
{
    let ts = seq![
        TokenS::Ident(a),
        TokenS::Minus,
        TokenS::Ident(b),
        TokenS::Minus,
        TokenS::Ident(c),
    ];
    let ea = ExprS::Ident(a);
    let eb = ExprS::Ident(b);
    let ec = ExprS::Ident(c);
    let eab = ExprS::Infix(Box::new(ea), Infix::Minus, Box::new(eb));
    let eabc = ExprS::Infix(Box::new(eab), Infix::Minus, Box::new(ec));
    // the right-hand side of the first minus stops before the second one
    let inner = crate::parser::sp_parse_expr(ts, 2, Precedence::Sum);
    assert(crate::parser::sp_prefix_dispatch(ts, 2).expr == Option::Some(eb));
    assert(crate::parser::sp_infix_chain(ts, 2, Option::Some(eb), Precedence::Sum).expr
        == Option::Some(eb));
    assert(inner.expr == Option::Some(eb) && inner.i == 2);
    let r1 = crate::parser::sp_parse_infix_expr(ts, 1, ea);
    assert(r1.expr == Option::Some(eab) && r1.i == 2);
    // the second minus folds into the already built left tree
    let inner2 = crate::parser::sp_parse_expr(ts, 4, Precedence::Sum);
    assert(crate::parser::sp_prefix_dispatch(ts, 4).expr == Option::Some(ec));
    assert(inner2.expr == Option::Some(ec) && inner2.i == 4);
    let r2 = crate::parser::sp_parse_infix_expr(ts, 3, eab);
    assert(r2.expr == Option::Some(eabc) && r2.i == 4);
    assert(crate::parser::sp_infix_chain(ts, 4, Option::Some(eabc), Precedence::Lowest).expr
        == Option::Some(eabc));
    assert(crate::parser::sp_infix_chain(ts, 2, Option::Some(eab), Precedence::Lowest).expr
        == Option::Some(eabc));
    assert(crate::parser::sp_infix_chain(ts, 0, Option::Some(ea), Precedence::Lowest).expr
        == Option::Some(eabc));
    assert(crate::parser::sp_prefix_dispatch(ts, 0).expr == Option::Some(ea));
    assert(crate::parser::sp_parse_expr(ts, 0, Precedence::Lowest).expr == Option::Some(eabc));
}

} // verus!
