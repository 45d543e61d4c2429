//! The precedence-climbing ("Pratt") parser: consumes the token stream and
//! builds an AST, recording non-fatal syntax errors as it goes. Each token
//! kind owns a prefix rule and, optionally, an infix rule; a numeric
//! precedence decides how far a left-hand expression extends before
//! yielding control to an enclosing parse.

use vstd::prelude::*;
use vstd::string::*;

use crate::ast::Expr;
use crate::ast::ExprS;
use crate::ast::Ident;
use crate::ast::Infix;
use crate::ast::Literal;
use crate::ast::Precedence;
use crate::ast::Prefix;
use crate::ast::Statement;
use crate::ast::StmtS;
use crate::ast::block_view;
use crate::ast::exprs_view;
use crate::ast::idents_view;
use crate::ast::lemma_exprs_view;
use crate::ast::prec_rank;
use crate::ast::stmt_view;
use crate::error::ParseError;
use crate::error::ParseErrorKind;
use crate::error::PErrS;
use crate::error::errs_view;
use crate::lexer::Lexer;
use crate::lexer::lemma_lex_tokens_step;
use crate::lexer::lex_tokens;
use crate::lexer::scan;
use crate::token::Token;
use crate::token::TokenS;
use crate::token::token_text;

verus! {

/// The token at index `i` of the stream; past the end, the stream holds
/// end-of-input tokens forever.
pub open spec fn tok_i(ts: Seq<TokenS>, i: int) -> TokenS {
    if 0 <= i < ts.len() {
        ts[i]
    } else {
        TokenS::Eof
    }
}

/// The index after moving one token forward; at the end the cursor stays.
pub open spec fn mv(ts: Seq<TokenS>, i: int) -> int {
    if i < ts.len() {
        i + 1
    } else {
        i
    }
}

/// The larger of two indices.
pub open spec fn at_least(j: int, i: int) -> int {
    if j < i {
        i
    } else {
        j
    }
}

/// An index forced into the range from `lo` to the stream's length: on the
/// indices parsing actually produces this changes nothing, and it keeps the
/// measure of the recursion well founded.
pub open spec fn clip_i(ts: Seq<TokenS>, j: int, lo: int) -> int {
    if j < lo {
        lo
    } else if j > ts.len() {
        ts.len() as int
    } else {
        j
    }
}

/// The precedence of a token in infix position: the single source of both
/// which tokens terminate an expression and how binary operators associate.
pub open spec fn sp_prec(t: TokenS) -> Precedence {
    match t {
        TokenS::Equal => Precedence::Equals,
        TokenS::NotEqual => Precedence::Equals,
        TokenS::LessThan => Precedence::LessGreater,
        TokenS::GreaterThan => Precedence::LessGreater,
        TokenS::LessThanEqual => Precedence::LessGreater,
        TokenS::GreaterThanEqual => Precedence::LessGreater,
        TokenS::Plus => Precedence::Sum,
        TokenS::Minus => Precedence::Sum,
        TokenS::Slash => Precedence::Product,
        TokenS::Asterisk => Precedence::Product,
        TokenS::LParen => Precedence::Call,
        _ => Precedence::Lowest,
    }
}

/// Whether a token has an infix rule for a binary operator.
pub open spec fn is_binary_op(t: TokenS) -> bool {
    match t {
        TokenS::Plus => true,
        TokenS::Minus => true,
        TokenS::Slash => true,
        TokenS::Asterisk => true,
        TokenS::Equal => true,
        TokenS::NotEqual => true,
        TokenS::LessThan => true,
        TokenS::LessThanEqual => true,
        TokenS::GreaterThan => true,
        TokenS::GreaterThanEqual => true,
        _ => false,
    }
}

/// The operator a binary token stands for.
pub open spec fn infix_of(t: TokenS) -> Infix {
    match t {
        TokenS::Plus => Infix::Plus,
        TokenS::Minus => Infix::Minus,
        TokenS::Slash => Infix::Divide,
        TokenS::Asterisk => Infix::Multiply,
        TokenS::Equal => Infix::Equal,
        TokenS::NotEqual => Infix::NotEqual,
        TokenS::LessThan => Infix::LessThan,
        TokenS::LessThanEqual => Infix::LessThanEqual,
        TokenS::GreaterThan => Infix::GreaterThan,
        _ => Infix::GreaterThanEqual,
    }
}

/// The text of an identifier token.
pub open spec fn ident_text(t: TokenS) -> Seq<char> {
    match t {
        TokenS::Ident(s) => s,
        _ => Seq::empty(),
    }
}

/// The description of a missing expected token.
pub open spec fn expect_err_text(expected: TokenS, got: TokenS) -> Seq<char> {
    "expected next token to be "@ + token_text(expected) + ", got "@ + token_text(got)
        + " instead."@
}

/// The error recorded when the next token is not the expected one.
pub open spec fn unexpected(expected: TokenS, got: TokenS) -> PErrS {
    PErrS { kind: ParseErrorKind::UnexpectedToken, msg: expect_err_text(expected, got) }
}

/// The description of a token with no prefix rule.
pub open spec fn no_prefix_text(t: TokenS) -> Seq<char> {
    "no prefix parse function for "@ + token_text(t) + " found"@
}

/// The error recorded when no prefix rule exists for the current token.
pub open spec fn no_prefix_err(t: TokenS) -> PErrS {
    PErrS { kind: ParseErrorKind::UnexpectedToken, msg: no_prefix_text(t) }
}

/// The placeholder named in the error for a missing identifier.
pub open spec fn ident_placeholder() -> TokenS {
    TokenS::Ident("<Identifier literal>"@)
}

/// What parsing an expression leaves: the expression if one could be built,
/// the index of its last token, and the errors recorded.
pub struct PE {
    pub expr: Option<ExprS>,
    pub i: int,
    pub errs: Seq<PErrS>,
}

/// What parsing a statement leaves.
pub struct PS {
    pub stmt: Option<StmtS>,
    pub i: int,
    pub errs: Seq<PErrS>,
}

/// What parsing a statement block leaves: a block is always returned, even
/// if empty.
pub struct PB {
    pub stmts: Seq<StmtS>,
    pub i: int,
    pub errs: Seq<PErrS>,
}

/// What parsing a parameter list leaves.
pub struct PIds {
    pub ids: Option<Seq<Seq<char>>>,
    pub i: int,
    pub errs: Seq<PErrS>,
}

/// What parsing an argument list leaves.
pub struct PArgs {
    pub args: Option<Seq<ExprS>>,
    pub i: int,
    pub errs: Seq<PErrS>,
}

/// A sequence with one optional element in front.
pub open spec fn opt_cons<A>(o: Option<A>, s: Seq<A>) -> Seq<A> {
    match o {
        Option::Some(x) => seq![x] + s,
        Option::None => s,
    }
}

/// The index of the next semicolon or end of input at or after `i`: a
/// return statement is tolerant of extra tokens after its value.
pub open spec fn sp_skip_to_semi(ts: Seq<TokenS>, i: int) -> int
    decreases ts.len() - i,
{
    if 0 <= i <= ts.len() && tok_i(ts, i) != TokenS::Semicolon && tok_i(ts, i) != TokenS::Eof {
        sp_skip_to_semi(ts, mv(ts, i))
    } else {
        i
    }
}

/// Parsing a prefix-operator expression: the operator, then its operand at
/// prefix precedence.
pub open spec fn sp_parse_prefix_expr(ts: Seq<TokenS>, i: int) -> PE
    decreases ts.len() - i, 4int,
{
    let op = match tok_i(ts, i) {
        TokenS::Bang => Prefix::Bang,
        TokenS::Minus => Prefix::Minus,
        _ => Prefix::Plus,
    };
    if tok_i(ts, i) == TokenS::Eof {
        PE { expr: Option::None, i, errs: Seq::empty() }
    } else {
        let r = sp_parse_expr(ts, mv(ts, i), Precedence::Prefix);
        match r.expr {
            Option::None => PE { expr: Option::None, i: r.i, errs: r.errs },
            Option::Some(e) => PE {
                expr: Option::Some(ExprS::Prefix(op, Box::new(e))),
                i: r.i,
                errs: r.errs,
            },
        }
    }
}

/// Parsing a parenthesized expression: the inner expression at lowest
/// precedence, then a required closing parenthesis.
pub open spec fn sp_parse_grouped_expr(ts: Seq<TokenS>, i: int) -> PE
    decreases ts.len() - i, 4int,
{
    if tok_i(ts, i) == TokenS::Eof {
        PE { expr: Option::None, i, errs: Seq::empty() }
    } else {
        let r = sp_parse_expr(ts, mv(ts, i), Precedence::Lowest);
        match r.expr {
            Option::None => PE { expr: Option::None, i: r.i, errs: r.errs },
            Option::Some(e) => if tok_i(ts, r.i + 1) == TokenS::RParen {
                PE { expr: Option::Some(e), i: mv(ts, at_least(r.i, 0)), errs: r.errs }
            } else {
                PE {
                    expr: Option::None,
                    i: r.i,
                    errs: r.errs + seq![unexpected(TokenS::RParen, tok_i(ts, r.i + 1))],
                }
            },
        }
    }
}

/// Parsing the statements of a brace-delimited block, until the closing
/// brace or the end of the input.
pub open spec fn sp_block_items(ts: Seq<TokenS>, i: int) -> PB
    decreases ts.len() - i, 9int,
{
    if !(0 <= i <= ts.len()) || tok_i(ts, i) == TokenS::RBrace || tok_i(ts, i) == TokenS::Eof {
        PB { stmts: Seq::empty(), i, errs: Seq::empty() }
    } else {
        let s = sp_parse_stmt(ts, i);
        let j = mv(ts, clip_i(ts, s.i, i));
        let rest = sp_block_items(ts, j);
        PB { stmts: opt_cons(s.stmt, rest.stmts), i: rest.i, errs: s.errs + rest.errs }
    }
}

/// Parsing a block after its opening brace: step past the brace, then the
/// statements.
pub open spec fn sp_parse_block(ts: Seq<TokenS>, i: int) -> PB
    decreases ts.len() - i, 10int,
{
    sp_block_items(ts, mv(ts, i))
}

/// Parsing a conditional: the parenthesized condition, a mandatory
/// brace-delimited consequence, and an optional else clause with its own
/// mandatory block.
pub open spec fn sp_parse_if_expr(ts: Seq<TokenS>, i: int) -> PE
    decreases ts.len() - i, 4int,
{
    if tok_i(ts, i + 1) != TokenS::LParen {
        PE { expr: Option::None, i, errs: seq![unexpected(TokenS::LParen, tok_i(ts, i + 1))] }
    } else {
        let i1 = mv(ts, i);
        let i2 = mv(ts, i1);
        let c = sp_parse_expr(ts, i2, Precedence::Lowest);
        match c.expr {
            Option::None => PE { expr: Option::None, i: c.i, errs: c.errs },
            Option::Some(cond) => if tok_i(ts, c.i + 1) != TokenS::RParen {
                PE {
                    expr: Option::None,
                    i: c.i,
                    errs: c.errs + seq![unexpected(TokenS::RParen, tok_i(ts, c.i + 1))],
                }
            } else {
                let i3 = mv(ts, clip_i(ts, c.i, i2));
                if tok_i(ts, i3 + 1) != TokenS::LBrace {
                    PE {
                        expr: Option::None,
                        i: i3,
                        errs: c.errs + seq![unexpected(TokenS::LBrace, tok_i(ts, i3 + 1))],
                    }
                } else {
                    let i4 = mv(ts, i3);
                    let cons = sp_parse_block(ts, i4);
                    if tok_i(ts, cons.i + 1) == TokenS::Else {
                        let i5 = mv(ts, clip_i(ts, cons.i, i4));
                        if tok_i(ts, i5 + 1) != TokenS::LBrace {
                            PE {
                                expr: Option::None,
                                i: i5,
                                errs: c.errs + cons.errs + seq![
                                    unexpected(TokenS::LBrace, tok_i(ts, i5 + 1)),
                                ],
                            }
                        } else {
                            let i6 = mv(ts, i5);
                            let alt = sp_parse_block(ts, i6);
                            PE {
                                expr: Option::Some(
                                    ExprS::If {
                                        condition: Box::new(cond),
                                        consequence: cons.stmts,
                                        alternative: Option::Some(alt.stmts),
                                    },
                                ),
                                i: alt.i,
                                errs: c.errs + cons.errs + alt.errs,
                            }
                        }
                    } else {
                        PE {
                            expr: Option::Some(
                                ExprS::If {
                                    condition: Box::new(cond),
                                    consequence: cons.stmts,
                                    alternative: Option::None,
                                },
                            ),
                            i: cons.i,
                            errs: c.errs + cons.errs,
                        }
                    }
                }
            },
        }
    }
}

/// Parsing the parameters after the first one: a comma-separated run of
/// identifiers, closed by a parenthesis.
pub open spec fn sp_params_rest(ts: Seq<TokenS>, i: int) -> PIds
    decreases ts.len() - i, 1int,
{
    if !(0 <= i <= ts.len()) {
        PIds { ids: Option::None, i, errs: Seq::empty() }
    } else if tok_i(ts, i + 1) == TokenS::Comma {
        let i1 = mv(ts, i);
        match tok_i(ts, i1 + 1) {
            TokenS::Ident(s) => {
                let i2 = mv(ts, i1);
                let rest = sp_params_rest(ts, i2);
                match rest.ids {
                    Option::None => PIds { ids: Option::None, i: rest.i, errs: rest.errs },
                    Option::Some(more) => PIds {
                        ids: Option::Some(seq![s] + more),
                        i: rest.i,
                        errs: rest.errs,
                    },
                }
            },
            _ => PIds {
                ids: Option::None,
                i: i1,
                errs: seq![unexpected(ident_placeholder(), tok_i(ts, i1 + 1))],
            },
        }
    } else if tok_i(ts, i + 1) == TokenS::RParen {
        PIds { ids: Option::Some(Seq::empty()), i: mv(ts, i), errs: Seq::empty() }
    } else {
        PIds { ids: Option::None, i, errs: seq![unexpected(TokenS::RParen, tok_i(ts, i + 1))] }
    }
}

/// Parsing a parameter list, standing on the opening parenthesis: possibly
/// empty, comma-separated identifiers.
pub open spec fn sp_parse_fn_params(ts: Seq<TokenS>, i: int) -> PIds
    decreases ts.len() - i, 2int,
{
    if tok_i(ts, i + 1) == TokenS::RParen {
        PIds { ids: Option::Some(Seq::empty()), i: mv(ts, i), errs: Seq::empty() }
    } else {
        match tok_i(ts, i + 1) {
            TokenS::Ident(s) => {
                let i1 = mv(ts, i);
                let rest = sp_params_rest(ts, i1);
                match rest.ids {
                    Option::None => PIds { ids: Option::None, i: rest.i, errs: rest.errs },
                    Option::Some(more) => PIds {
                        ids: Option::Some(seq![s] + more),
                        i: rest.i,
                        errs: rest.errs,
                    },
                }
            },
            _ => PIds {
                ids: Option::None,
                i,
                errs: seq![unexpected(ident_placeholder(), tok_i(ts, i + 1))],
            },
        }
    }
}

/// Parsing a function literal: `fn`, a parenthesized parameter list, and a
/// brace-delimited body.
pub open spec fn sp_parse_fn_expr(ts: Seq<TokenS>, i: int) -> PE
    decreases ts.len() - i, 4int,
{
    if tok_i(ts, i + 1) != TokenS::LParen {
        PE { expr: Option::None, i, errs: seq![unexpected(TokenS::LParen, tok_i(ts, i + 1))] }
    } else {
        let i1 = mv(ts, i);
        let ps = sp_parse_fn_params(ts, i1);
        match ps.ids {
            Option::None => PE { expr: Option::None, i: ps.i, errs: ps.errs },
            Option::Some(params) => if tok_i(ts, ps.i + 1) != TokenS::LBrace {
                PE {
                    expr: Option::None,
                    i: ps.i,
                    errs: ps.errs + seq![unexpected(TokenS::LBrace, tok_i(ts, ps.i + 1))],
                }
            } else {
                let i2 = mv(ts, clip_i(ts, ps.i, i1));
                let body = sp_parse_block(ts, i2);
                PE {
                    expr: Option::Some(ExprS::Function { params, body: body.stmts }),
                    i: body.i,
                    errs: ps.errs + body.errs,
                }
            },
        }
    }
}

/// Parsing the arguments after the first one: comma-separated expressions
/// at lowest precedence, closed by a parenthesis.
pub open spec fn sp_args_rest(ts: Seq<TokenS>, i: int) -> PArgs
    decreases ts.len() - i, 1int,
{
    if !(0 <= i <= ts.len()) {
        PArgs { args: Option::None, i, errs: Seq::empty() }
    } else if tok_i(ts, i + 1) == TokenS::Comma {
        let i1 = mv(ts, i);
        let i2 = mv(ts, i1);
        let e = sp_parse_expr(ts, i2, Precedence::Lowest);
        match e.expr {
            Option::None => PArgs { args: Option::None, i: e.i, errs: e.errs },
            Option::Some(a) => {
                let rest = sp_args_rest(ts, clip_i(ts, e.i, i2));
                match rest.args {
                    Option::None => PArgs {
                        args: Option::None,
                        i: rest.i,
                        errs: e.errs + rest.errs,
                    },
                    Option::Some(more) => PArgs {
                        args: Option::Some(seq![a] + more),
                        i: rest.i,
                        errs: e.errs + rest.errs,
                    },
                }
            },
        }
    } else if tok_i(ts, i + 1) == TokenS::RParen {
        PArgs { args: Option::Some(Seq::empty()), i: mv(ts, i), errs: Seq::empty() }
    } else {
        PArgs { args: Option::None, i, errs: seq![unexpected(TokenS::RParen, tok_i(ts, i + 1))] }
    }
}

/// Parsing an argument list, standing on the opening parenthesis: possibly
/// empty, comma-separated expressions at lowest precedence.
pub open spec fn sp_parse_call_args(ts: Seq<TokenS>, i: int) -> PArgs
    decreases ts.len() - i, 2int,
{
    if tok_i(ts, i + 1) == TokenS::RParen {
        PArgs { args: Option::Some(Seq::empty()), i: mv(ts, i), errs: Seq::empty() }
    } else if tok_i(ts, i) == TokenS::Eof {
        PArgs { args: Option::None, i, errs: Seq::empty() }
    } else {
        let i1 = mv(ts, i);
        let e = sp_parse_expr(ts, i1, Precedence::Lowest);
        match e.expr {
            Option::None => PArgs { args: Option::None, i: e.i, errs: e.errs },
            Option::Some(a) => {
                let rest = sp_args_rest(ts, clip_i(ts, e.i, i1));
                match rest.args {
                    Option::None => PArgs {
                        args: Option::None,
                        i: rest.i,
                        errs: e.errs + rest.errs,
                    },
                    Option::Some(more) => PArgs {
                        args: Option::Some(seq![a] + more),
                        i: rest.i,
                        errs: e.errs + rest.errs,
                    },
                }
            },
        }
    }
}

/// Parsing a call expression, standing on the opening parenthesis after an
/// already parsed callee.
pub open spec fn sp_parse_call_expr(ts: Seq<TokenS>, i: int, callee: ExprS) -> PE
    decreases ts.len() - i, 3int,
{
    let a = sp_parse_call_args(ts, i);
    match a.args {
        Option::None => PE { expr: Option::None, i: a.i, errs: a.errs },
        Option::Some(args) => PE {
            expr: Option::Some(ExprS::Call { function: Box::new(callee), arguments: args }),
            i: a.i,
            errs: a.errs,
        },
    }
}

/// Parsing the right-hand side of a binary operator: the recursive call
/// uses the operator's own precedence, so operators of equal precedence
/// bind left-associatively.
pub open spec fn sp_parse_infix_expr(ts: Seq<TokenS>, i: int, left: ExprS) -> PE
    decreases ts.len() - i, 3int,
{
    let op = infix_of(tok_i(ts, i));
    let prec = sp_prec(tok_i(ts, i));
    if tok_i(ts, i) == TokenS::Eof {
        PE { expr: Option::None, i, errs: Seq::empty() }
    } else {
        let r = sp_parse_expr(ts, mv(ts, i), prec);
        match r.expr {
            Option::None => PE { expr: Option::None, i: r.i, errs: r.errs },
            Option::Some(e) => PE {
                expr: Option::Some(ExprS::Infix(Box::new(left), op, Box::new(e))),
                i: r.i,
                errs: r.errs,
            },
        }
    }
}

/// The infix loop: while the next token is not a semicolon and binds more
/// tightly than `min_prec`, fold it into the left-hand expression.
pub open spec fn sp_infix_chain(
    ts: Seq<TokenS>,
    i: int,
    left: Option<ExprS>,
    min_prec: Precedence,
) -> PE
    decreases ts.len() - i, 4int,
{
    match left {
        Option::None => PE { expr: Option::None, i, errs: Seq::empty() },
        Option::Some(lv) => {
            if tok_i(ts, i + 1) == TokenS::Semicolon {
                PE { expr: left, i, errs: Seq::empty() }
            } else if !(prec_rank(min_prec) < prec_rank(sp_prec(tok_i(ts, i + 1)))) {
                PE { expr: left, i, errs: Seq::empty() }
            } else if is_binary_op(tok_i(ts, i + 1)) {
                let i1 = mv(ts, i);
                let r = sp_parse_infix_expr(ts, i1, lv);
                let rec = sp_infix_chain(ts, clip_i(ts, r.i, i + 1), r.expr, min_prec);
                PE { expr: rec.expr, i: rec.i, errs: r.errs + rec.errs }
            } else if tok_i(ts, i + 1) == TokenS::LParen {
                let i1 = mv(ts, i);
                let r = sp_parse_call_expr(ts, i1, lv);
                let rec = sp_infix_chain(ts, clip_i(ts, r.i, i + 1), r.expr, min_prec);
                PE { expr: rec.expr, i: rec.i, errs: r.errs + rec.errs }
            } else {
                PE { expr: left, i, errs: Seq::empty() }
            }
        },
    }
}

/// The prefix rule of the current token: the handler keyed by its kind, or
/// a recorded error where no handler exists.
pub open spec fn sp_prefix_dispatch(ts: Seq<TokenS>, i: int) -> PE
    decreases ts.len() - i, 5int,
{
    match tok_i(ts, i) {
        TokenS::Ident(s) => PE { expr: Option::Some(ExprS::Ident(s)), i, errs: Seq::empty() },
        TokenS::Int(v) => PE {
            expr: Option::Some(ExprS::Literal(Literal::Int(v))),
            i,
            errs: Seq::empty(),
        },
        TokenS::Bool(b) => PE {
            expr: Option::Some(ExprS::Literal(Literal::Bool(b))),
            i,
            errs: Seq::empty(),
        },
        TokenS::Minus => sp_parse_prefix_expr(ts, i),
        TokenS::Plus => sp_parse_prefix_expr(ts, i),
        TokenS::Bang => sp_parse_prefix_expr(ts, i),
        TokenS::LParen => sp_parse_grouped_expr(ts, i),
        TokenS::If => sp_parse_if_expr(ts, i),
        TokenS::Function => sp_parse_fn_expr(ts, i),
        _ => PE { expr: Option::None, i, errs: seq![no_prefix_err(tok_i(ts, i))] },
    }
}

/// Parsing one expression at a minimum precedence: first the prefix rule of
/// the current token, then the infix loop.
pub open spec fn sp_parse_expr(ts: Seq<TokenS>, i: int, min_prec: Precedence) -> PE
    decreases ts.len() - i, 6int,
{
    if !(0 <= i <= ts.len()) {
        PE { expr: Option::None, i, errs: Seq::empty() }
    } else {
        let pre = sp_prefix_dispatch(ts, i);
        let c = sp_infix_chain(ts, clip_i(ts, pre.i, i), pre.expr, min_prec);
        PE { expr: c.expr, i: c.i, errs: pre.errs + c.errs }
    }
}

/// Parsing a let statement: `let`, an identifier, `=`, the initializer at
/// lowest precedence, and an optional trailing semicolon.
pub open spec fn sp_parse_let_stmt(ts: Seq<TokenS>, i: int) -> PS
    decreases ts.len() - i, 7int,
{
    match tok_i(ts, i + 1) {
        TokenS::Ident(name) => {
            let i1 = mv(ts, i);
            if tok_i(ts, i1 + 1) != TokenS::Assign {
                PS {
                    stmt: Option::None,
                    i: i1,
                    errs: seq![unexpected(TokenS::Assign, tok_i(ts, i1 + 1))],
                }
            } else {
                let i2 = mv(ts, i1);
                let i3 = mv(ts, i2);
                let e = sp_parse_expr(ts, i3, Precedence::Lowest);
                match e.expr {
                    Option::None => PS { stmt: Option::None, i: e.i, errs: e.errs },
                    Option::Some(value) => PS {
                        stmt: Option::Some(StmtS::Let(name, value)),
                        i: if tok_i(ts, e.i + 1) == TokenS::Semicolon {
                            mv(ts, at_least(e.i, 0))
                        } else {
                            e.i
                        },
                        errs: e.errs,
                    },
                }
            }
        },
        _ => PS {
            stmt: Option::None,
            i,
            errs: seq![unexpected(ident_placeholder(), tok_i(ts, i + 1))],
        },
    }
}

/// Parsing a return statement: past `return`, the value at lowest
/// precedence, then tolerant advancing until a semicolon or the end.
pub open spec fn sp_parse_return_stmt(ts: Seq<TokenS>, i: int) -> PS
    decreases ts.len() - i, 7int,
{
    if tok_i(ts, i) == TokenS::Eof {
        PS { stmt: Option::None, i, errs: Seq::empty() }
    } else {
        let e = sp_parse_expr(ts, mv(ts, i), Precedence::Lowest);
        match e.expr {
            Option::None => PS { stmt: Option::None, i: e.i, errs: e.errs },
            Option::Some(value) => PS {
                stmt: Option::Some(StmtS::Return(value)),
                i: sp_skip_to_semi(ts, at_least(e.i, 0)),
                errs: e.errs,
            },
        }
    }
}

/// Parsing an expression statement: one expression, with an optional
/// trailing semicolon.
pub open spec fn sp_parse_expr_stmt(ts: Seq<TokenS>, i: int) -> PS
    decreases ts.len() - i, 7int,
{
    let e = sp_parse_expr(ts, i, Precedence::Lowest);
    match e.expr {
        Option::None => PS { stmt: Option::None, i: e.i, errs: e.errs },
        Option::Some(ex) => PS {
            stmt: Option::Some(StmtS::Expr(ex)),
            i: if tok_i(ts, e.i + 1) == TokenS::Semicolon {
                mv(ts, at_least(e.i, 0))
            } else {
                e.i
            },
            errs: e.errs,
        },
    }
}

/// Statement dispatch: `let`, `return`, or an expression statement.
pub open spec fn sp_parse_stmt(ts: Seq<TokenS>, i: int) -> PS
    decreases ts.len() - i, 8int,
{
    match tok_i(ts, i) {
        TokenS::Let => sp_parse_let_stmt(ts, i),
        TokenS::Return => sp_parse_return_stmt(ts, i),
        _ => sp_parse_expr_stmt(ts, i),
    }
}

/// What parsing a whole program leaves: the statements that could be
/// completed, the final cursor, and every error recorded along the way.
pub struct PProg {
    pub stmts: Seq<StmtS>,
    pub i: int,
    pub errs: Seq<PErrS>,
}

/// Parsing a program: statements until the end of the input. A statement
/// that could not be completed is omitted from the result; the error list
/// is the caller's signal that the output is incomplete.
pub open spec fn sp_parse_program(ts: Seq<TokenS>, i: int) -> PProg
    decreases ts.len() - i, 11int,
{
    if !(0 <= i <= ts.len()) || tok_i(ts, i) == TokenS::Eof {
        PProg { stmts: Seq::empty(), i, errs: Seq::empty() }
    } else {
        let s = sp_parse_stmt(ts, i);
        let j = mv(ts, clip_i(ts, s.i, i));
        let rest = sp_parse_program(ts, j);
        PProg { stmts: opt_cons(s.stmt, rest.stmts), i: rest.i, errs: s.errs + rest.errs }
    }
}

/// The tokens of the stream from index `j` on.
pub open spec fn rest_of(ts: Seq<TokenS>, j: int) -> Seq<TokenS> {
    ts.subrange(clip_i(ts, j, 0), ts.len() as int)
}

/// Appending an error to a list appends its shape to the list's shape.
proof fn lemma_errs_push(v: Seq<ParseError>, e: ParseError)
    ensures
        errs_view(v.push(e)) == errs_view(v).push(e@),
{
    assert(errs_view(v.push(e)) =~= errs_view(v).push(e@));
}

/// The parser: pulls the scanner lazily, one token at a time, keeping the
/// current token and one token of lookahead, and accumulates non-fatal
/// errors.
pub struct Parser {
    /// the scanner, on which the parser repeatedly pulls the next token
    lexer: Lexer,
    /// the last token read
    current_token: Token,
    /// one token of lookahead, to decide whether an expression continues
    next_token: Token,
    errors: Vec<ParseError>,
    /// the whole token stream of the input
    toks: Ghost<Seq<TokenS>>,
    /// the index of the current token in the stream
    idx: Ghost<int>,
}

impl Parser {
    /// The whole token stream the parser is consuming.
    pub closed spec fn toks(&self) -> Seq<TokenS> {
        self.toks@
    }

    /// The index of the current token.
    pub closed spec fn idx(&self) -> int {
        self.idx@
    }

    /// The errors recorded so far.
    pub closed spec fn errs(&self) -> Seq<PErrS> {
        errs_view(self.errors@)
    }

    /// The cursor sits in the stream, the two lookahead tokens match it,
    /// and the scanner still holds exactly the rest of the stream.
    pub closed spec fn wf(&self) -> bool {
        &&& self.lexer.wf()
        &&& 0 <= self.idx@ <= self.toks@.len()
        &&& self.current_token@ == tok_i(self.toks@, self.idx@)
        &&& self.next_token@ == tok_i(self.toks@, self.idx@ + 1)
        &&& lex_tokens(self.lexer@.bytes, self.lexer@.pos) == rest_of(self.toks@, self.idx@ + 2)
    }

    /// A parser over the given scanner, with both lookahead tokens
    /// pre-fetched and no errors recorded.
    pub fn new(lexer: Lexer) -> (r: Parser)
        requires
            lexer.wf(),
        ensures
            r.wf(),
            r.toks() == lex_tokens(lexer@.bytes, lexer@.pos),
            r.idx() == 0,
            r.errs() == Seq::<PErrS>::empty(),
    {
        let ghost ts = lex_tokens(lexer@.bytes, lexer@.pos);
        let mut lx = lexer;
        proof {
            lx.lemma_wf_bounds();
            lemma_lex_tokens_step(lx@.bytes, lx@.pos);
        }
        let cur = lx.move_to_next_tok();
        proof {
            lx.lemma_wf_bounds();
            lemma_lex_tokens_step(lx@.bytes, lx@.pos);
            if scan(lexer@.bytes, lexer@.pos).tok == TokenS::Eof {
                assert(ts =~= Seq::<TokenS>::empty());
            }
        }
        let nxt = lx.move_to_next_tok();
        let p = Parser {
            lexer: lx,
            current_token: cur,
            next_token: nxt,
            errors: Vec::new(),
            toks: Ghost(ts),
            idx: Ghost(0),
        };
        proof {
            assert(errs_view(Seq::<ParseError>::empty()) =~= Seq::<PErrS>::empty());
            if ts.len() == 0 {
                assert(lex_tokens(p.lexer@.bytes, p.lexer@.pos) =~= rest_of(ts, 2));
            } else if ts.len() == 1 {
                assert(cur@ == ts[0]);
                assert(lex_tokens(p.lexer@.bytes, p.lexer@.pos) =~= rest_of(ts, 2));
            } else {
                assert(cur@ == ts[0]);
                assert(nxt@ == ts[1]);
                assert(lex_tokens(p.lexer@.bytes, p.lexer@.pos) =~= rest_of(ts, 2));
            }
        }
        p
    }

    /// Moves the cursor to the next token, pulling one more token from the
    /// scanner into the lookahead.
    fn move_to_next_tok(&mut self)
        requires
            old(self).wf(),
        ensures
            final(self).wf(),
            final(self).toks() == old(self).toks(),
            final(self).errs() == old(self).errs(),
            final(self).idx() == mv(old(self).toks(), old(self).idx()),
    {
        proof {
            self.lexer.lemma_wf_bounds();
            lemma_lex_tokens_step(self.lexer@.bytes, self.lexer@.pos);
        }
        let ghost ts = self.toks@;
        let ghost i = self.idx@;
        let t = self.lexer.move_to_next_tok();
        let mut t2 = t;
        core::mem::swap(&mut self.next_token, &mut t2);
        self.current_token = t2;
        let ghost ni = mv(ts, i);
        self.idx = Ghost(ni);
        proof {
            let bytes = self.lexer@.bytes;
            let sc = scan(bytes, old(self).lexer@.pos);
            if i + 2 < ts.len() {
                assert(rest_of(ts, i + 2).len() > 0);
                assert(sc.tok != TokenS::Eof);
                assert(t@ == rest_of(ts, i + 2)[0]);
                assert(rest_of(ts, i + 2)[0] == ts[i + 2]);
                let tail = lex_tokens(bytes, sc.end);
                assert(seq![sc.tok] + tail == rest_of(ts, i + 2));
                assert(tail.len() == rest_of(ts, i + 3).len());
                assert forall|k: int| 0 <= k < tail.len() implies tail[k] == rest_of(
                    ts,
                    i + 3,
                )[k] by {
                    assert(tail[k] == (seq![sc.tok] + tail)[k + 1]);
                    assert(rest_of(ts, i + 2)[k + 1] == ts[i + 2 + k + 1]);
                }
                assert(lex_tokens(bytes, sc.end) =~= rest_of(ts, i + 3));
            } else {
                assert(rest_of(ts, i + 2) =~= Seq::<TokenS>::empty());
                if sc.tok != TokenS::Eof {
                    assert(lex_tokens(bytes, old(self).lexer@.pos).len() > 0);
                }
                assert(sc.tok == TokenS::Eof);
                assert(sc.end == bytes.len());
                assert(lex_tokens(bytes, sc.end) =~= Seq::<TokenS>::empty());
                assert(lex_tokens(bytes, sc.end) =~= rest_of(ts, ni + 2));
            }
        }
    }
}


impl Parser {
    /// Whether the current token is the given one.
    fn current_token_is(&self, tok: Token) -> (r: bool)
        requires
            self.wf(),
        ensures
            r == (tok_i(self.toks(), self.idx()) == tok@),
    {
        self.current_token.same_as(&tok)
    }

    /// Whether the lookahead token is the given one.
    fn next_token_is(&self, tok: &Token) -> (r: bool)
        requires
            self.wf(),
        ensures
            r == (tok_i(self.toks(), self.idx() + 1) == tok@),
    {
        self.next_token.same_as(tok)
    }

    /// Records that the lookahead token was not the expected one.
    fn error_next_token(&mut self, tok: Token)
        requires
            old(self).wf(),
        ensures
            final(self).wf(),
            final(self).toks() == old(self).toks(),
            final(self).idx() == old(self).idx(),
            final(self).errs() == old(self).errs().push(
                unexpected(tok@, tok_i(old(self).toks(), old(self).idx() + 1)),
            ),
    {
        let mut m = String::from_str("expected next token to be ");
        let d1 = tok.describe();
        m.append(d1.as_str());
        m.append(", got ");
        let d2 = self.next_token.describe();
        m.append(d2.as_str());
        m.append(" instead.");
        proof {
            assert(m@ =~= expect_err_text(tok@, old(self).next_token@));
        }
        let e = ParseError::new(ParseErrorKind::UnexpectedToken, m);
        proof {
            lemma_errs_push(self.errors@, e);
        }
        self.errors.push(e);
    }

    /// Records that no prefix rule exists for the current token.
    fn error_no_prefix_parser(&mut self)
        requires
            old(self).wf(),
        ensures
            final(self).wf(),
            final(self).toks() == old(self).toks(),
            final(self).idx() == old(self).idx(),
            final(self).errs() == old(self).errs().push(
                no_prefix_err(tok_i(old(self).toks(), old(self).idx())),
            ),
    {
        let mut m = String::from_str("no prefix parse function for ");
        let d = self.current_token.describe();
        m.append(d.as_str());
        m.append(" found");
        proof {
            assert(m@ =~= no_prefix_text(old(self).current_token@));
        }
        let e = ParseError::new(ParseErrorKind::UnexpectedToken, m);
        proof {
            lemma_errs_push(self.errors@, e);
        }
        self.errors.push(e);
    }

    /// If the lookahead token is the expected one, steps onto it; otherwise
    /// records an error and stays.
    fn expect_next_is(&mut self, tok: Token) -> (r: bool)
        requires
            old(self).wf(),
        ensures
            final(self).wf(),
            final(self).toks() == old(self).toks(),
            r == (tok_i(old(self).toks(), old(self).idx() + 1) == tok@),
            r ==> final(self).idx() == mv(old(self).toks(), old(self).idx())
                && final(self).errs() == old(self).errs(),
            !r ==> final(self).idx() == old(self).idx()
                && final(self).errs() == old(self).errs().push(
                unexpected(tok@, tok_i(old(self).toks(), old(self).idx() + 1))),
    {
        if self.next_token_is(&tok) {
            self.move_to_next_tok();
            true
        } else {
            self.error_next_token(tok);
            false
        }
    }

    /// The identifier node for the current token, where it is one.
    fn parse_ident(&self) -> (r: Option<Ident>)
        requires
            self.wf(),
        ensures
            match r {
                Option::Some(id) => tok_i(self.toks(), self.idx()) matches TokenS::Ident(s)
                    && id.0@ == s,
                Option::None => !(tok_i(self.toks(), self.idx()) matches TokenS::Ident(_)),
            },
    {
        match &self.current_token {
            Token::Ident(s) => Option::Some(Ident(s.clone())),
            _ => Option::None,
        }
    }

    /// The accumulated parse errors, in order.
    pub fn get_errors(&self) -> (r: Vec<ParseError>)
        requires
            self.wf(),
        ensures
            errs_view(r@) == self.errs(),
    {
        let mut out: Vec<ParseError> = Vec::new();
        let mut k: usize = 0;
        while k < self.errors.len()
            invariant
                k <= self.errors@.len(),
                errs_view(out@) == errs_view(self.errors@.subrange(0, k as int)),
            decreases self.errors@.len() - k,
        {
            let e = self.errors[k].duplicate();
            out.push(e);
            k = k + 1;
            proof {
                assert(self.errors@.subrange(0, k as int) =~= self.errors@.subrange(
                    0,
                    k as int - 1,
                ).push(self.errors@[k as int - 1]));
                lemma_errs_push(self.errors@.subrange(0, k as int - 1), self.errors@[k as int - 1]);
                assert(errs_view(out@) =~= errs_view(self.errors@.subrange(0, k as int)));
            }
        }
        proof {
            assert(self.errors@.subrange(0, self.errors@.len() as int) =~= self.errors@);
        }
        out
    }

    /// The precedence of a token in infix position.
    fn token_to_precedence(&self, tok: &Token) -> (r: Precedence)
        ensures
            r == sp_prec(tok@),
    {
        match tok {
            Token::Equal => Precedence::Equals,
            Token::NotEqual => Precedence::Equals,
            Token::LessThan => Precedence::LessGreater,
            Token::GreaterThan => Precedence::LessGreater,
            Token::LessThanEqual => Precedence::LessGreater,
            Token::GreaterThanEqual => Precedence::LessGreater,
            Token::Plus => Precedence::Sum,
            Token::Minus => Precedence::Sum,
            Token::Slash => Precedence::Product,
            Token::Asterisk => Precedence::Product,
            Token::LParen => Precedence::Call,
            _ => Precedence::Lowest,
        }
    }

    /// The precedence of the current token.
    fn current_token_precedence(&self) -> (r: Precedence)
        requires
            self.wf(),
        ensures
            r == sp_prec(tok_i(self.toks(), self.idx())),
    {
        self.token_to_precedence(&self.current_token)
    }

    /// The precedence of the lookahead token.
    fn next_token_precedence(&self) -> (r: Precedence)
        requires
            self.wf(),
        ensures
            r == sp_prec(tok_i(self.toks(), self.idx() + 1)),
    {
        self.token_to_precedence(&self.next_token)
    }
}


/// The shape of an optional expression node.
pub open spec fn opt_expr_view(r: Option<Expr>) -> Option<ExprS> {
    match r {
        Option::Some(e) => Option::Some(e@),
        Option::None => Option::None,
    }
}

/// The shape of an optional statement node.
pub open spec fn opt_stmt_view(r: Option<Statement>) -> Option<StmtS> {
    match r {
        Option::Some(st) => Option::Some(st@),
        Option::None => Option::None,
    }
}

/// What every parsing step guarantees: well-formedness kept, the same
/// stream, the cursor moved forward to where the matching piece of the
/// grammar ends, and exactly its errors appended.
pub open spec fn parse_step(pre: Parser, post: Parser, sp_i: int, sp_errs: Seq<PErrS>) -> bool {
    &&& post.wf()
    &&& post.toks() == pre.toks()
    &&& post.idx() >= pre.idx()
    &&& post.idx() == sp_i
    &&& post.errs() == pre.errs() + sp_errs
}

/// Whether a token has an infix rule for a binary operator.
fn is_binary_token(t: &Token) -> (r: bool)
    ensures
        r == is_binary_op(t@),
{
    match t {
        Token::Plus => true,
        Token::Minus => true,
        Token::Slash => true,
        Token::Asterisk => true,
        Token::Equal => true,
        Token::NotEqual => true,
        Token::LessThan => true,
        Token::LessThanEqual => true,
        Token::GreaterThan => true,
        Token::GreaterThanEqual => true,
        _ => false,
    }
}

impl Parser {
    /// The identifier expression for the current token.
    fn parse_ident_expr(&self) -> (r: Option<Expr>)
        requires
            self.wf(),
            tok_i(self.toks(), self.idx()) matches TokenS::Ident(_),
        ensures
            (opt_expr_view(r) matches Option::Some(e) && e == ExprS::Ident(
                ident_text(tok_i(self.toks(), self.idx())),
            )),
    {
        match &self.current_token {
            Token::Ident(s) => Option::Some(Expr::Ident(Ident(s.clone()))),
            _ => Option::None,
        }
    }

    /// The integer literal expression for the current token.
    fn parse_int_expr(&self) -> (r: Option<Expr>)
        requires
            self.wf(),
            tok_i(self.toks(), self.idx()) matches TokenS::Int(_),
        ensures
            (tok_i(self.toks(), self.idx()) matches TokenS::Int(v) && opt_expr_view(r)
                == Option::Some(ExprS::Literal(Literal::Int(v)))),
    {
        match &self.current_token {
            Token::Int(v) => Option::Some(Expr::Literal(Literal::Int(*v))),
            _ => Option::None,
        }
    }

    /// The boolean literal expression for the current token.
    fn parse_bool_expr(&self) -> (r: Option<Expr>)
        requires
            self.wf(),
            tok_i(self.toks(), self.idx()) matches TokenS::Bool(_),
        ensures
            (tok_i(self.toks(), self.idx()) matches TokenS::Bool(b) && opt_expr_view(r)
                == Option::Some(ExprS::Literal(Literal::Bool(b)))),
    {
        match &self.current_token {
            Token::Bool(b) => Option::Some(Expr::Literal(Literal::Bool(*b))),
            _ => Option::None,
        }
    }

    /// Parses a prefix-operator expression: the operator, then its operand
    /// at prefix precedence.
    fn parse_prefix_expr(&mut self) -> (r: Option<Expr>)
        requires
            old(self).wf(),
            tok_i(old(self).toks(), old(self).idx()) == TokenS::Bang || tok_i(
                old(self).toks(),
                old(self).idx(),
            ) == TokenS::Minus || tok_i(old(self).toks(), old(self).idx()) == TokenS::Plus,
        ensures
            ({
                let sp = sp_parse_prefix_expr(old(self).toks(), old(self).idx());
                parse_step(*old(self), *final(self), sp.i, sp.errs) && opt_expr_view(r) == sp.expr
            }),
        decreases self.toks().len() - self.idx(), 4int,
    {
        let prefix = if self.current_token_is(Token::Bang) {
            Prefix::Bang
        } else if self.current_token_is(Token::Minus) {
            Prefix::Minus
        } else {
            Prefix::Plus
        };
        self.move_to_next_tok();
        match self.parse_expr(Precedence::Prefix) {
            Option::Some(e) => Option::Some(Expr::Prefix(prefix, Box::new(e))),
            Option::None => Option::None,
        }
    }

    /// Parses a parenthesized expression: the inner expression at lowest
    /// precedence, then a required closing parenthesis.
    fn parse_grouped_expr(&mut self) -> (r: Option<Expr>)
        requires
            old(self).wf(),
            tok_i(old(self).toks(), old(self).idx()) == TokenS::LParen,
        ensures
            ({
                let sp = sp_parse_grouped_expr(old(self).toks(), old(self).idx());
                parse_step(*old(self), *final(self), sp.i, sp.errs) && opt_expr_view(r) == sp.expr
            }),
        decreases self.toks().len() - self.idx(), 4int,
    {
        self.move_to_next_tok();
        let e = match self.parse_expr(Precedence::Lowest) {
            Option::Some(e) => e,
            Option::None => {
                return Option::None;
            },
        };
        if !self.expect_next_is(Token::RParen) {
            proof {
                lemma_seq_concat_push::<PErrS>(
                    old(self).errs(),
                    sp_parse_expr(
                        old(self).toks(),
                        mv(old(self).toks(), old(self).idx()),
                        Precedence::Lowest,
                    ).errs,
                    unexpected(
                        TokenS::RParen,
                        tok_i(old(self).toks(), self.idx() + 1),
                    ),
                );
            }
            return Option::None;
        }
        Option::Some(e)
    }

    /// Parses the right-hand side of a binary operator at the operator's
    /// own precedence, so equal precedence binds left-associatively.
    fn parse_infix_expr(&mut self, left: Expr) -> (r: Option<Expr>)
        requires
            old(self).wf(),
            is_binary_op(tok_i(old(self).toks(), old(self).idx())),
        ensures
            ({
                let sp = sp_parse_infix_expr(old(self).toks(), old(self).idx(), left@);
                parse_step(*old(self), *final(self), sp.i, sp.errs) && opt_expr_view(r) == sp.expr
            }),
        decreases self.toks().len() - self.idx(), 3int,
    {
        let infix = if self.current_token_is(Token::Plus) {
            Infix::Plus
        } else if self.current_token_is(Token::Minus) {
            Infix::Minus
        } else if self.current_token_is(Token::Slash) {
            Infix::Divide
        } else if self.current_token_is(Token::Asterisk) {
            Infix::Multiply
        } else if self.current_token_is(Token::Equal) {
            Infix::Equal
        } else if self.current_token_is(Token::NotEqual) {
            Infix::NotEqual
        } else if self.current_token_is(Token::LessThan) {
            Infix::LessThan
        } else if self.current_token_is(Token::LessThanEqual) {
            Infix::LessThanEqual
        } else if self.current_token_is(Token::GreaterThan) {
            Infix::GreaterThan
        } else {
            Infix::GreaterThanEqual
        };
        let precedence = self.current_token_precedence();
        self.move_to_next_tok();
        match self.parse_expr(precedence) {
            Option::Some(e) => Option::Some(Expr::Infix(Box::new(left), infix, Box::new(e))),
            Option::None => Option::None,
        }
    }
}

/// Concatenation then one more element, reassociated.
proof fn lemma_seq_concat_push<A>(a: Seq<A>, b: Seq<A>, x: A)
    ensures
        (a + b).push(x) == a + (b + seq![x]),
{
    assert((a + b).push(x) =~= a + (b + seq![x]));
}


/// The shape of an optional expression list.
pub open spec fn opt_exprs_view(r: Option<Vec<Expr>>) -> Option<Seq<ExprS>> {
    match r {
        Option::Some(v) => Option::Some(exprs_view(v@)),
        Option::None => Option::None,
    }
}

/// The shape of an optional parameter list.
pub open spec fn opt_idents_view(r: Option<Vec<Ident>>) -> Option<Seq<Seq<char>>> {
    match r {
        Option::Some(v) => Option::Some(idents_view(v@)),
        Option::None => Option::None,
    }
}

impl Parser {
    /// Parses one expression at a minimum precedence: the prefix rule of
    /// the current token, then the infix loop, which folds operators into
    /// the left-hand expression while they bind more tightly.
    #[verifier::rlimit(100)]
    #[verifier::spinoff_prover]
    fn parse_expr(&mut self, precedence: Precedence) -> (r: Option<Expr>)
        requires
            old(self).wf(),
        ensures
            ({
                let sp = sp_parse_expr(old(self).toks(), old(self).idx(), precedence);
                parse_step(*old(self), *final(self), sp.i, sp.errs) && opt_expr_view(r) == sp.expr
            }),
        decreases self.toks().len() - self.idx(), 6int,
    {
        let ghost ts = self.toks@;
        let ghost i0 = self.idx@;
        let ghost errs0 = errs_view(self.errors@);
        let mut left: Option<Expr> = if matches!(&self.current_token, Token::Ident(_)) {
            self.parse_ident_expr()
        } else if matches!(&self.current_token, Token::Int(_)) {
            self.parse_int_expr()
        } else if matches!(&self.current_token, Token::Bool(_)) {
            self.parse_bool_expr()
        } else if self.current_token_is(Token::Minus) || self.current_token_is(Token::Plus)
            || self.current_token_is(Token::Bang) {
            self.parse_prefix_expr()
        } else if self.current_token_is(Token::LParen) {
            self.parse_grouped_expr()
        } else if self.current_token_is(Token::If) {
            self.parse_if_expr()
        } else if self.current_token_is(Token::Function) {
            self.parse_fn_expr()
        } else {
            self.error_no_prefix_parser();
            Option::None
        };
        proof {
            let pre = sp_prefix_dispatch(ts, i0);
            assert(errs0 + Seq::<PErrS>::empty() =~= errs0);
            assert(errs0.push(no_prefix_err(tok_i(ts, i0))) =~= errs0 + seq![
                no_prefix_err(tok_i(ts, i0)),
            ]);
            assert(self.idx@ == pre.i);
            assert(errs_view(self.errors@) == errs0 + pre.errs);
            assert(opt_expr_view(left) == pre.expr);
            assert(clip_i(ts, pre.i, i0) == pre.i);
            let c = sp_infix_chain(ts, pre.i, pre.expr, precedence);
            assert((errs0 + pre.errs) + c.errs =~= errs0 + (pre.errs + c.errs));
        }
        let mut done = false;
        while !done
            invariant
                self.wf(),
                self.toks@ == ts,
                old(self).toks@ == ts,
                old(self).idx@ == i0,
                errs_view(old(self).errors@) == errs0,
                0 <= i0 <= self.idx@,
                ({
                    let full = sp_parse_expr(ts, i0, precedence);
                    let rest = sp_infix_chain(ts, self.idx@, opt_expr_view(left), precedence);
                    &&& full.expr == rest.expr
                    &&& full.i == rest.i
                    &&& errs_view(self.errors@) + rest.errs == errs0 + full.errs
                }),
                done ==> (sp_infix_chain(ts, self.idx@, opt_expr_view(left), precedence) == PE {
                    expr: opt_expr_view(left),
                    i: self.idx@,
                    errs: Seq::<PErrS>::empty(),
                }),
            decreases ts.len() - self.idx@, (if done { 0int } else { 1int }),
        {
            let ghost ip = self.idx@;
            let ghost errs_p = errs_view(self.errors@);
            let semi = self.next_token_is(&Token::Semicolon);
            let np = self.next_token_precedence();
            let cont = !semi && precedence.binds_less_than(&np);
            match left {
                Option::None => {
                    left = Option::None;
                    done = true;
                },
                Option::Some(lv) => {
                    if !cont {
                        left = Option::Some(lv);
                        done = true;
                    } else if is_binary_token(&self.next_token) {
                        let ghost lvv = lv@;
                        self.move_to_next_tok();
                        left = self.parse_infix_expr(lv);
                        proof {
                            let r = sp_parse_infix_expr(ts, ip + 1, lvv);
                            let rec = sp_infix_chain(
                                ts,
                                self.idx@,
                                opt_expr_view(left),
                                precedence,
                            );
                            assert(clip_i(ts, r.i, ip + 1) == r.i);
                            assert(sp_infix_chain(ts, ip, Option::Some(lvv), precedence) == (PE {
                                expr: rec.expr,
                                i: rec.i,
                                errs: r.errs + rec.errs,
                            }));
                            assert((errs_p + r.errs) + rec.errs =~= errs_p + (r.errs + rec.errs));
                        }
                    } else if self.next_token_is(&Token::LParen) {
                        let ghost lvv = lv@;
                        self.move_to_next_tok();
                        left = self.parse_call_expr(lv);
                        proof {
                            let r = sp_parse_call_expr(ts, ip + 1, lvv);
                            let rec = sp_infix_chain(
                                ts,
                                self.idx@,
                                opt_expr_view(left),
                                precedence,
                            );
                            assert(clip_i(ts, r.i, ip + 1) == r.i);
                            assert(sp_infix_chain(ts, ip, Option::Some(lvv), precedence) == (PE {
                                expr: rec.expr,
                                i: rec.i,
                                errs: r.errs + rec.errs,
                            }));
                            assert((errs_p + r.errs) + rec.errs =~= errs_p + (r.errs + rec.errs));
                        }
                    } else {
                        left = Option::Some(lv);
                        done = true;
                    }
                },
            }
        }
        proof {
            assert(errs_view(self.errors@) + Seq::<PErrS>::empty() =~= errs_view(self.errors@));
        }
        left
    }

    /// Parses a call expression, standing on the opening parenthesis after
    /// an already parsed callee.
    fn parse_call_expr(&mut self, function: Expr) -> (r: Option<Expr>)
        requires
            old(self).wf(),
            tok_i(old(self).toks(), old(self).idx()) == TokenS::LParen,
        ensures
            ({
                let sp = sp_parse_call_expr(old(self).toks(), old(self).idx(), function@);
                parse_step(*old(self), *final(self), sp.i, sp.errs) && opt_expr_view(r) == sp.expr
            }),
        decreases self.toks().len() - self.idx(), 3int,
    {
        match self.parse_call_args() {
            Option::Some(arguments) => Option::Some(
                Expr::Call { function: Box::new(function), arguments },
            ),
            Option::None => Option::None,
        }
    }

    /// Parses an argument list, standing on the opening parenthesis:
    /// possibly empty, comma-separated expressions at lowest precedence,
    /// closed by a parenthesis.
    fn parse_call_args(&mut self) -> (r: Option<Vec<Expr>>)
        requires
            old(self).wf(),
            tok_i(old(self).toks(), old(self).idx()) == TokenS::LParen,
        ensures
            ({
                let sp = sp_parse_call_args(old(self).toks(), old(self).idx());
                parse_step(*old(self), *final(self), sp.i, sp.errs) && opt_exprs_view(r) == sp.args
            }),
        decreases self.toks().len() - self.idx(), 2int,
    {
        if self.next_token_is(&Token::RParen) {
            self.move_to_next_tok();
            let out: Vec<Expr> = Vec::new();
            proof {
                assert(exprs_view(out@) =~= Seq::<ExprS>::empty());
                assert(old(self).errs() + Seq::<PErrS>::empty() =~= old(self).errs());
            }
            return Option::Some(out);
        }
        let ghost ts = self.toks@;
        let ghost i0 = self.idx@;
        let ghost errs0 = errs_view(self.errors@);
        self.move_to_next_tok();
        let first = match self.parse_expr(Precedence::Lowest) {
            Option::Some(e) => e,
            Option::None => {
                return Option::None;
            },
        };
        let ghost e = sp_parse_expr(ts, mv(ts, i0), Precedence::Lowest);
        proof {
            assert(clip_i(ts, e.i, mv(ts, i0)) == e.i);
        }
        let ghost fv = first@;
        let ghost restsp = sp_args_rest(ts, e.i);
        proof {
            assert((errs0 + e.errs) + restsp.errs =~= errs0 + (e.errs + restsp.errs));
        }
        match self.parse_args_rest() {
            Option::Some(more) => {
                let ghost mr = more@;
                let mut out = more;
                out.insert(0, first);
                proof {
                    assert(out@.subrange(1, out@.len() as int) =~= mr);
                    lemma_exprs_view(out@);
                    lemma_exprs_view(mr);
                    assert(exprs_view(out@) =~= seq![fv] + exprs_view(mr));
                }
                Option::Some(out)
            },
            Option::None => Option::None,
        }
    }

    /// Parses the arguments after the first one: a comma-separated run of
    /// expressions, and the required closing parenthesis.
    fn parse_args_rest(&mut self) -> (r: Option<Vec<Expr>>)
        requires
            old(self).wf(),
        ensures
            ({
                let sp = sp_args_rest(old(self).toks(), old(self).idx());
                parse_step(*old(self), *final(self), sp.i, sp.errs) && opt_exprs_view(r) == sp.args
            }),
        decreases self.toks().len() - self.idx(), 1int,
    {
        if self.next_token_is(&Token::Comma) {
            let ghost ts = self.toks@;
            let ghost i0 = self.idx@;
            let ghost errs0 = errs_view(self.errors@);
            self.move_to_next_tok();
            self.move_to_next_tok();
            let e = match self.parse_expr(Precedence::Lowest) {
                Option::Some(e) => e,
                Option::None => {
                    return Option::None;
                },
            };
            let ghost ev = e@;
            let ghost esp = sp_parse_expr(ts, mv(ts, mv(ts, i0)), Precedence::Lowest);
            proof {
                assert(clip_i(ts, esp.i, mv(ts, mv(ts, i0))) == esp.i);
            }
            let ghost restsp = sp_args_rest(ts, esp.i);
            proof {
                assert((errs0 + esp.errs) + restsp.errs =~= errs0 + (esp.errs + restsp.errs));
            }
            match self.parse_args_rest() {
                Option::Some(more) => {
                    let ghost mr = more@;
                    let mut out = more;
                    out.insert(0, e);
                    proof {
                        assert(out@.subrange(1, out@.len() as int) =~= mr);
                        lemma_exprs_view(out@);
                        lemma_exprs_view(mr);
                        assert(exprs_view(out@) =~= seq![ev] + exprs_view(mr));
                    }
                    Option::Some(out)
                },
                Option::None => Option::None,
            }
        } else if self.next_token_is(&Token::RParen) {
            self.move_to_next_tok();
            let out: Vec<Expr> = Vec::new();
            proof {
                assert(exprs_view(out@) =~= Seq::<ExprS>::empty());
                assert(old(self).errs() + Seq::<PErrS>::empty() =~= old(self).errs());
            }
            Option::Some(out)
        } else {
            self.error_next_token(Token::RParen);
            proof {
                assert(old(self).errs().push(
                    unexpected(
                        TokenS::RParen,
                        tok_i(old(self).toks(), old(self).idx() + 1),
                    ),
                ) =~= old(self).errs() + seq![
                    unexpected(TokenS::RParen, tok_i(old(self).toks(), old(self).idx() + 1)),
                ]);
            }
            Option::None
        }
    }
}


impl Parser {
    /// Parses a conditional: the parenthesized condition, a mandatory
    /// brace-delimited consequence, and an optional else clause with its
    /// own mandatory block.
    #[verifier::rlimit(100)]
    #[verifier::spinoff_prover]
    fn parse_if_expr(&mut self) -> (r: Option<Expr>)
        requires
            old(self).wf(),
            tok_i(old(self).toks(), old(self).idx()) == TokenS::If,
        ensures
            ({
                let sp = sp_parse_if_expr(old(self).toks(), old(self).idx());
                parse_step(*old(self), *final(self), sp.i, sp.errs) && opt_expr_view(r) == sp.expr
            }),
        decreases self.toks().len() - self.idx(), 4int,
    {
        let ghost ts = self.toks@;
        let ghost i0 = self.idx@;
        let ghost errs0 = errs_view(self.errors@);
        if !self.expect_next_is(Token::LParen) {
            proof {
                assert(errs0.push(unexpected(TokenS::LParen, tok_i(ts, i0 + 1))) =~= errs0 + seq![
                    unexpected(TokenS::LParen, tok_i(ts, i0 + 1)),
                ]);
            }
            return Option::None;
        }
        self.move_to_next_tok();
        let ghost i2 = self.idx@;
        let cond = match self.parse_expr(Precedence::Lowest) {
            Option::Some(e) => e,
            Option::None => {
                return Option::None;
            },
        };
        let ghost c = sp_parse_expr(ts, i2, Precedence::Lowest);
        if !self.expect_next_is(Token::RParen) {
            proof {
                lemma_seq_concat_push::<PErrS>(
                    errs0,
                    c.errs,
                    unexpected(TokenS::RParen, tok_i(ts, c.i + 1)),
                );
            }
            return Option::None;
        }
        proof {
            assert(clip_i(ts, c.i, i2) == c.i);
        }
        let ghost i3 = self.idx@;
        if !self.expect_next_is(Token::LBrace) {
            proof {
                lemma_seq_concat_push::<PErrS>(
                    errs0,
                    c.errs,
                    unexpected(TokenS::LBrace, tok_i(ts, i3 + 1)),
                );
            }
            return Option::None;
        }
        let consequence = self.parse_block_stmt();
        let ghost i4 = mv(ts, i3);
        let ghost cons = sp_parse_block(ts, i4);
        proof {
            assert((errs0 + c.errs) + cons.errs =~= errs0 + (c.errs + cons.errs));
        }
        if self.next_token_is(&Token::Else) {
            self.move_to_next_tok();
            proof {
                assert(clip_i(ts, cons.i, i4) == cons.i);
            }
            let ghost i5 = self.idx@;
            if !self.expect_next_is(Token::LBrace) {
                proof {
                    lemma_seq_concat_push::<PErrS>(
                        errs0 + c.errs,
                        cons.errs,
                        unexpected(TokenS::LBrace, tok_i(ts, i5 + 1)),
                    );
                    assert((errs0 + c.errs) + (cons.errs + seq![
                        unexpected(TokenS::LBrace, tok_i(ts, i5 + 1)),
                    ]) =~= errs0 + (c.errs + cons.errs + seq![
                        unexpected(TokenS::LBrace, tok_i(ts, i5 + 1)),
                    ]));
                }
                return Option::None;
            }
            let alternative = self.parse_block_stmt();
            let ghost i6 = mv(ts, i5);
            let ghost alt = sp_parse_block(ts, i6);
            proof {
                assert(((errs0 + c.errs) + cons.errs) + alt.errs =~= errs0 + (c.errs + cons.errs
                    + alt.errs));
            }
            Option::Some(
                Expr::If {
                    condition: Box::new(cond),
                    consequence,
                    alternative: Option::Some(alternative),
                },
            )
        } else {
            Option::Some(
                Expr::If { condition: Box::new(cond), consequence, alternative: Option::None },
            )
        }
    }

    /// Parses a function literal: `fn`, a parenthesized parameter list, and
    /// a brace-delimited body.
    #[verifier::rlimit(100)]
    #[verifier::spinoff_prover]
    fn parse_fn_expr(&mut self) -> (r: Option<Expr>)
        requires
            old(self).wf(),
            tok_i(old(self).toks(), old(self).idx()) == TokenS::Function,
        ensures
            ({
                let sp = sp_parse_fn_expr(old(self).toks(), old(self).idx());
                parse_step(*old(self), *final(self), sp.i, sp.errs) && opt_expr_view(r) == sp.expr
            }),
        decreases self.toks().len() - self.idx(), 4int,
    {
        let ghost ts = self.toks@;
        let ghost i0 = self.idx@;
        let ghost errs0 = errs_view(self.errors@);
        if !self.expect_next_is(Token::LParen) {
            proof {
                assert(errs0.push(unexpected(TokenS::LParen, tok_i(ts, i0 + 1))) =~= errs0 + seq![
                    unexpected(TokenS::LParen, tok_i(ts, i0 + 1)),
                ]);
            }
            return Option::None;
        }
        let ghost i1 = self.idx@;
        let params = match self.parse_fn_params() {
            Option::Some(ps) => ps,
            Option::None => {
                return Option::None;
            },
        };
        let ghost ps = sp_parse_fn_params(ts, i1);
        if !self.expect_next_is(Token::LBrace) {
            proof {
                lemma_seq_concat_push::<PErrS>(
                    errs0,
                    ps.errs,
                    unexpected(TokenS::LBrace, tok_i(ts, ps.i + 1)),
                );
            }
            return Option::None;
        }
        proof {
            assert(clip_i(ts, ps.i, i1) == ps.i);
        }
        let body = self.parse_block_stmt();
        proof {
            let body_sp = sp_parse_block(ts, mv(ts, ps.i));
            assert((errs0 + ps.errs) + body_sp.errs =~= errs0 + (ps.errs + body_sp.errs));
        }
        Option::Some(Expr::Function { params, body })
    }

    /// Parses a parameter list, standing on the opening parenthesis:
    /// possibly empty, comma-separated identifiers, closed by a
    /// parenthesis.
    fn parse_fn_params(&mut self) -> (r: Option<Vec<Ident>>)
        requires
            old(self).wf(),
            tok_i(old(self).toks(), old(self).idx()) == TokenS::LParen,
        ensures
            ({
                let sp = sp_parse_fn_params(old(self).toks(), old(self).idx());
                parse_step(*old(self), *final(self), sp.i, sp.errs) && opt_idents_view(r) == sp.ids
            }),
        decreases self.toks().len() - self.idx(), 2int,
    {
        if self.next_token_is(&Token::RParen) {
            self.move_to_next_tok();
            let out: Vec<Ident> = Vec::new();
            proof {
                assert(idents_view(out@) =~= Seq::<Seq<char>>::empty());
                assert(old(self).errs() + Seq::<PErrS>::empty() =~= old(self).errs());
            }
            return Option::Some(out);
        }
        if !(matches!(&self.next_token, Token::Ident(_))) {
            self.error_next_token(Token::Ident(String::from_str("<Identifier literal>")));
            proof {
                assert(old(self).errs().push(
                    unexpected(
                        ident_placeholder(),
                        tok_i(old(self).toks(), old(self).idx() + 1),
                    ),
                ) =~= old(self).errs() + seq![
                    unexpected(ident_placeholder(), tok_i(old(self).toks(), old(self).idx() + 1)),
                ]);
            }
            return Option::None;
        }
        self.move_to_next_tok();
        let name = match self.parse_ident() {
            Option::Some(n) => n,
            Option::None => {
                return Option::None;
            },
        };
        let ghost nv = name.0@;
        match self.parse_params_rest() {
            Option::Some(more) => {
                let ghost mr = more@;
                let mut out = more;
                out.insert(0, name);
                proof {
                    assert(out@.subrange(1, out@.len() as int) =~= mr);
                    assert(idents_view(out@) =~= seq![nv] + idents_view(mr));
                }
                Option::Some(out)
            },
            Option::None => Option::None,
        }
    }

    /// Parses the parameters after the first one: a comma-separated run of
    /// identifiers, and the required closing parenthesis.
    fn parse_params_rest(&mut self) -> (r: Option<Vec<Ident>>)
        requires
            old(self).wf(),
        ensures
            ({
                let sp = sp_params_rest(old(self).toks(), old(self).idx());
                parse_step(*old(self), *final(self), sp.i, sp.errs) && opt_idents_view(r) == sp.ids
            }),
        decreases self.toks().len() - self.idx(), 1int,
    {
        if self.next_token_is(&Token::Comma) {
            self.move_to_next_tok();
            if !(matches!(&self.next_token, Token::Ident(_))) {
                self.error_next_token(Token::Ident(String::from_str("<Identifier literal>")));
                proof {
                    assert(old(self).errs().push(
                        unexpected(
                            ident_placeholder(),
                            tok_i(old(self).toks(), self.idx@ + 1),
                        ),
                    ) =~= old(self).errs() + seq![
                        unexpected(ident_placeholder(), tok_i(old(self).toks(), self.idx@ + 1)),
                    ]);
                }
                return Option::None;
            }
            self.move_to_next_tok();
            let name = match self.parse_ident() {
                Option::Some(n) => n,
                Option::None => {
                    return Option::None;
                },
            };
            let ghost nv = name.0@;
            match self.parse_params_rest() {
                Option::Some(more) => {
                    let ghost mr = more@;
                    let mut out = more;
                    out.insert(0, name);
                    proof {
                        assert(out@.subrange(1, out@.len() as int) =~= mr);
                        assert(idents_view(out@) =~= seq![nv] + idents_view(mr));
                    }
                    Option::Some(out)
                },
                Option::None => Option::None,
            }
        } else if self.next_token_is(&Token::RParen) {
            self.move_to_next_tok();
            let out: Vec<Ident> = Vec::new();
            proof {
                assert(idents_view(out@) =~= Seq::<Seq<char>>::empty());
                assert(old(self).errs() + Seq::<PErrS>::empty() =~= old(self).errs());
            }
            Option::Some(out)
        } else {
            self.error_next_token(Token::RParen);
            proof {
                assert(old(self).errs().push(
                    unexpected(
                        TokenS::RParen,
                        tok_i(old(self).toks(), old(self).idx() + 1),
                    ),
                ) =~= old(self).errs() + seq![
                    unexpected(TokenS::RParen, tok_i(old(self).toks(), old(self).idx() + 1)),
                ]);
            }
            Option::None
        }
    }

    /// Parses a brace-delimited block: steps past the brace, then
    /// statements until the closing brace or the end of the input. A block
    /// is always returned, even if empty.
    fn parse_block_stmt(&mut self) -> (r: Vec<Statement>)
        requires
            old(self).wf(),
        ensures
            ({
                let sp = sp_parse_block(old(self).toks(), old(self).idx());
                parse_step(*old(self), *final(self), sp.i, sp.errs) && block_view(r@) == sp.stmts
            }),
        decreases self.toks().len() - self.idx(), 10int,
    {
        self.move_to_next_tok();
        self.parse_block_items()
    }

    /// Parses statements until the closing brace or the end of the input.
    #[verifier::rlimit(100)]
    #[verifier::spinoff_prover]
    fn parse_block_items(&mut self) -> (r: Vec<Statement>)
        requires
            old(self).wf(),
        ensures
            ({
                let sp = sp_block_items(old(self).toks(), old(self).idx());
                parse_step(*old(self), *final(self), sp.i, sp.errs) && block_view(r@) == sp.stmts
            }),
        decreases self.toks().len() - self.idx(), 9int,
    {
        let ghost ts = self.toks@;
        let ghost i0 = self.idx@;
        let ghost errs0 = errs_view(self.errors@);
        if self.current_token_is(Token::RBrace) || self.current_token_is(Token::Eof) {
            let out: Vec<Statement> = Vec::new();
            proof {
                assert(block_view(out@) =~= Seq::<StmtS>::empty());
                assert(errs0 + Seq::<PErrS>::empty() =~= errs0);
            }
            return out;
        }
        let st = self.parse_stmt();
        let ghost s = sp_parse_stmt(ts, i0);
        proof {
            assert(clip_i(ts, s.i, i0) == s.i);
        }
        self.move_to_next_tok();
        let rest = self.parse_block_items();
        let ghost restsp = sp_block_items(ts, mv(ts, s.i));
        proof {
            assert((errs0 + s.errs) + restsp.errs =~= errs0 + (s.errs + restsp.errs));
        }
        match st {
            Option::Some(stm) => {
                let ghost sv = stm@;
                let ghost rv = rest@;
                let mut out = rest;
                out.insert(0, stm);
                proof {
                    assert(out@.drop_first() =~= rv);
                    assert(out@[0] == stm);
                    assert(block_view(out@) == seq![stmt_view(out@[0])] + block_view(
                        out@.drop_first(),
                    ));
                    assert(block_view(out@) =~= seq![sv] + restsp.stmts);
                }
                out
            },
            Option::None => rest,
        }
    }

    /// Statement dispatch: `let`, `return`, or an expression statement.
    fn parse_stmt(&mut self) -> (r: Option<Statement>)
        requires
            old(self).wf(),
        ensures
            ({
                let sp = sp_parse_stmt(old(self).toks(), old(self).idx());
                parse_step(*old(self), *final(self), sp.i, sp.errs) && opt_stmt_view(r) == sp.stmt
            }),
        decreases self.toks().len() - self.idx(), 8int,
    {
        if self.current_token_is(Token::Let) {
            self.parse_let_stmt()
        } else if self.current_token_is(Token::Return) {
            self.parse_return_stmt()
        } else {
            self.parse_expr_stmt()
        }
    }

    /// Parses a let statement: `let`, an identifier, `=`, the initializer
    /// at lowest precedence, and an optional trailing semicolon.
    #[verifier::rlimit(100)]
    #[verifier::spinoff_prover]
    fn parse_let_stmt(&mut self) -> (r: Option<Statement>)
        requires
            old(self).wf(),
        ensures
            ({
                let sp = sp_parse_let_stmt(old(self).toks(), old(self).idx());
                parse_step(*old(self), *final(self), sp.i, sp.errs) && opt_stmt_view(r) == sp.stmt
            }),
        decreases self.toks().len() - self.idx(), 7int,
    {
        let ghost ts = self.toks@;
        let ghost i0 = self.idx@;
        let ghost errs0 = errs_view(self.errors@);
        if !(matches!(&self.next_token, Token::Ident(_))) {
            self.error_next_token(Token::Ident(String::from_str("<Identifier literal>")));
            proof {
                assert(errs0.push(unexpected(ident_placeholder(), tok_i(ts, i0 + 1))) =~= errs0
                    + seq![unexpected(ident_placeholder(), tok_i(ts, i0 + 1))]);
            }
            return Option::None;
        }
        self.move_to_next_tok();
        let name = match self.parse_ident() {
            Option::Some(n) => n,
            Option::None => {
                return Option::None;
            },
        };
        if !self.expect_next_is(Token::Assign) {
            proof {
                assert(errs0.push(unexpected(TokenS::Assign, tok_i(ts, i0 + 2))) =~= errs0 + seq![
                    unexpected(TokenS::Assign, tok_i(ts, i0 + 2)),
                ]);
            }
            return Option::None;
        }
        self.move_to_next_tok();
        let ghost i3 = self.idx@;
        let value = match self.parse_expr(Precedence::Lowest) {
            Option::Some(e) => e,
            Option::None => {
                return Option::None;
            },
        };
        proof {
            let e = sp_parse_expr(ts, i3, Precedence::Lowest);
            assert(at_least(e.i, 0) == e.i);
        }
        if self.next_token_is(&Token::Semicolon) {
            self.move_to_next_tok();
        }
        Option::Some(Statement::Let(name, value))
    }

    /// Parses a return statement: past `return`, the value at lowest
    /// precedence, then tolerant advancing until a semicolon or the end of
    /// the input.
    fn parse_return_stmt(&mut self) -> (r: Option<Statement>)
        requires
            old(self).wf(),
            tok_i(old(self).toks(), old(self).idx()) == TokenS::Return,
        ensures
            ({
                let sp = sp_parse_return_stmt(old(self).toks(), old(self).idx());
                parse_step(*old(self), *final(self), sp.i, sp.errs) && opt_stmt_view(r) == sp.stmt
            }),
        decreases self.toks().len() - self.idx(), 7int,
    {
        let ghost ts = self.toks@;
        let ghost i0 = self.idx@;
        self.move_to_next_tok();
        let value = match self.parse_expr(Precedence::Lowest) {
            Option::Some(e) => e,
            Option::None => {
                return Option::None;
            },
        };
        let ghost e = sp_parse_expr(ts, mv(ts, i0), Precedence::Lowest);
        proof {
            assert(at_least(e.i, 0) == e.i);
        }
        while !self.current_token_is(Token::Semicolon) && !self.current_token_is(Token::Eof)
            invariant
                self.wf(),
                self.toks@ == ts,
                i0 <= self.idx@,
                errs_view(self.errors@) == errs_view(old(self).errors@) + e.errs,
                sp_skip_to_semi(ts, self.idx@) == sp_skip_to_semi(ts, e.i),
            decreases ts.len() - self.idx@,
        {
            self.move_to_next_tok();
        }
        Option::Some(Statement::Return(value))
    }

    /// Parses an expression statement: one expression, with an optional
    /// trailing semicolon.
    fn parse_expr_stmt(&mut self) -> (r: Option<Statement>)
        requires
            old(self).wf(),
        ensures
            ({
                let sp = sp_parse_expr_stmt(old(self).toks(), old(self).idx());
                parse_step(*old(self), *final(self), sp.i, sp.errs) && opt_stmt_view(r) == sp.stmt
            }),
        decreases self.toks().len() - self.idx(), 7int,
    {
        let ghost ts = self.toks@;
        let ghost i0 = self.idx@;
        let value = match self.parse_expr(Precedence::Lowest) {
            Option::Some(e) => e,
            Option::None => {
                return Option::None;
            },
        };
        proof {
            let e = sp_parse_expr(ts, i0, Precedence::Lowest);
            assert(at_least(e.i, 0) == e.i);
        }
        if self.next_token_is(&Token::Semicolon) {
            self.move_to_next_tok();
        }
        Option::Some(Statement::Expr(value))
    }

    /// Parses statements until the end of the input.
    #[verifier::rlimit(100)]
    fn parse_items(&mut self) -> (r: Vec<Statement>)
        requires
            old(self).wf(),
        ensures
            ({
                let sp = sp_parse_program(old(self).toks(), old(self).idx());
                parse_step(*old(self), *final(self), sp.i, sp.errs) && block_view(r@) == sp.stmts
            }),
        decreases self.toks().len() - self.idx(), 11int,
    {
        let ghost ts = self.toks@;
        let ghost i0 = self.idx@;
        let ghost errs0 = errs_view(self.errors@);
        if self.current_token_is(Token::Eof) {
            let out: Vec<Statement> = Vec::new();
            proof {
                assert(block_view(out@) =~= Seq::<StmtS>::empty());
                assert(errs0 + Seq::<PErrS>::empty() =~= errs0);
            }
            return out;
        }
        let st = self.parse_stmt();
        let ghost s = sp_parse_stmt(ts, i0);
        proof {
            assert(clip_i(ts, s.i, i0) == s.i);
        }
        self.move_to_next_tok();
        let rest = self.parse_items();
        let ghost restsp = sp_parse_program(ts, mv(ts, s.i));
        proof {
            assert((errs0 + s.errs) + restsp.errs =~= errs0 + (s.errs + restsp.errs));
        }
        match st {
            Option::Some(stm) => {
                let ghost sv = stm@;
                let ghost rv = rest@;
                let mut out = rest;
                out.insert(0, stm);
                proof {
                    assert(out@.drop_first() =~= rv);
                    assert(out@[0] == stm);
                    assert(block_view(out@) == seq![stmt_view(out@[0])] + block_view(
                        out@.drop_first(),
                    ));
                    assert(block_view(out@) =~= seq![sv] + restsp.stmts);
                }
                out
            },
            Option::None => rest,
        }
    }

    /// Parses a whole program: statements until the end of the input. A
    /// statement that could not be completed is omitted from the result;
    /// the error list is the caller's signal that the output is incomplete.
    pub fn parse(&mut self) -> (r: Vec<Statement>)
        requires
            old(self).wf(),
        ensures
            final(self).wf(),
            ({
                let sp = sp_parse_program(old(self).toks(), old(self).idx());
                &&& block_view(r@) == sp.stmts
                &&& final(self).errs() == old(self).errs() + sp.errs
                &&& final(self).toks() == old(self).toks()
            }),
    {
        self.parse_items()
    }
}

/// A parser over the given scanner, with both lookahead tokens pre-fetched.
pub fn new(lexer: Lexer) -> (r: Parser)
    requires
        lexer.wf(),
    ensures
        r.wf(),
        r.toks() == lex_tokens(lexer@.bytes, lexer@.pos),
        r.idx() == 0,
        r.errs() == Seq::<PErrS>::empty(),
{
    Parser::new(lexer)
}


} // verus!
