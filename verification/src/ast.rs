//! The node types produced by parsing: expressions, statements, and the
//! precedence levels that drive the precedence-climbing parser. Nodes, once
//! built, are never mutated — evaluation only reads them.

use vstd::prelude::*;

use crate::render::push_char;

verus! {

/// An identifier, as a kind of AST node (unlike `Token::Ident`, which is a
/// kind of token).
#[derive(PartialEq, Debug, Clone)]
pub struct Ident(pub String);

/// An operator "in front of" its operand. Any expression can follow a prefix
/// operator as operand.
#[derive(PartialEq, Eq, Structural, Debug, Clone, Copy)]
pub enum Prefix {
    Bang,
    Minus,
    Plus,
}

/// A literal is an expression consisting of a single token that directly
/// denotes the value it evaluates to.
#[derive(PartialEq, Eq, Structural, Debug, Clone, Copy)]
pub enum Literal {
    Int(i64),
    Bool(bool),
}

/// An infix operator sits between its two operands.
#[derive(PartialEq, Eq, Structural, Debug, Clone, Copy)]
pub enum Infix {
    Plus,
    Minus,
    Multiply,
    Divide,
    GreaterThan,
    LessThan,
    Equal,
    NotEqual,
    GreaterThanEqual,
    LessThanEqual,
}

/// How far an infix chain extends before yielding to an enclosing
/// expression: a strictly ordered enumeration.
#[derive(PartialEq, Eq, Structural, Debug, Clone, Copy)]
pub enum Precedence {
    Lowest,
    /// `==` or `!=`
    Equals,
    /// `>` or `<`
    LessGreater,
    /// `+` or `-`
    Sum,
    /// `*` or `/`
    Product,
    /// `-a` or `!a`
    Prefix,
    /// `foo()`
    Call,
    /// `slice[index]`
    Index,
}

/// The numeric rank of a precedence level; the enumeration is ordered by it.
pub open spec fn prec_rank(p: Precedence) -> int {
    match p {
        Precedence::Lowest => 0,
        Precedence::Equals => 1,
        Precedence::LessGreater => 2,
        Precedence::Sum => 3,
        Precedence::Product => 4,
        Precedence::Prefix => 5,
        Precedence::Call => 6,
        Precedence::Index => 7,
    }
}

impl Precedence {
    /// Whether this level binds less tightly than `other`.
    pub fn binds_less_than(&self, other: &Precedence) -> (r: bool)
        ensures
            r == (prec_rank(*self) < prec_rank(*other)),
    {
        self.rank() < other.rank()
    }

    fn rank(&self) -> (r: u8)
        ensures
            r as int == prec_rank(*self),
    {
        match self {
            Precedence::Lowest => 0,
            Precedence::Equals => 1,
            Precedence::LessGreater => 2,
            Precedence::Sum => 3,
            Precedence::Product => 4,
            Precedence::Prefix => 5,
            Precedence::Call => 6,
            Precedence::Index => 7,
        }
    }
}

/// An expression node.
#[derive(PartialEq, Debug)]
pub enum Expr {
    Ident(Ident),
    /// A literal directly describes a number or boolean value.
    Literal(Literal),
    /// `<prefix operator><expression>`
    Prefix(Prefix, Box<Expr>),
    /// `<expression><infix operator><expression>`
    Infix(Box<Expr>, Infix, Box<Expr>),
    /// `if (<condition>) <consequence> else <alternative>`
    If {
        condition: Box<Expr>,
        consequence: Vec<Statement>,
        alternative: Option<Vec<Statement>>,
    },
    /// `fn (<parameters>) <block statements>`
    Function { params: Vec<Ident>, body: Vec<Statement> },
    /// `<expression>(<comma separated expressions>)`
    Call { function: Box<Expr>, arguments: Vec<Expr> },
}

/// A statement node: a let-binding, a return, or a bare expression used for
/// its value.
#[derive(PartialEq, Debug)]
pub enum Statement {
    Let(Ident, Expr),
    Return(Expr),
    Expr(Expr),
}

/// The mathematical shape of an expression: identifier text as character
/// sequences, statement blocks as sequences.
pub enum ExprS {
    Ident(Seq<char>),
    Literal(Literal),
    Prefix(Prefix, Box<ExprS>),
    Infix(Box<ExprS>, Infix, Box<ExprS>),
    If { condition: Box<ExprS>, consequence: Seq<StmtS>, alternative: Option<Seq<StmtS>> },
    Function { params: Seq<Seq<char>>, body: Seq<StmtS> },
    Call { function: Box<ExprS>, arguments: Seq<ExprS> },
}

/// The mathematical shape of a statement.
pub enum StmtS {
    Let(Seq<char>, ExprS),
    Return(ExprS),
    Expr(ExprS),
}

/// The shape of an expression node.
pub open spec fn expr_view(e: Expr) -> ExprS
    decreases e,
{
    match e {
        Expr::Ident(id) => ExprS::Ident(id.0@),
        Expr::Literal(l) => ExprS::Literal(l),
        Expr::Prefix(op, inner) => ExprS::Prefix(op, Box::new(expr_view(*inner))),
        Expr::Infix(left, op, right) => ExprS::Infix(
            Box::new(expr_view(*left)),
            op,
            Box::new(expr_view(*right)),
        ),
        Expr::If { condition, consequence, alternative } => ExprS::If {
            condition: Box::new(expr_view(*condition)),
            consequence: block_view(consequence@),
            alternative: match alternative {
                Option::Some(b) => Option::Some(block_view(b@)),
                Option::None => Option::None,
            },
        },
        Expr::Function { params, body } => ExprS::Function {
            params: idents_view(params@),
            body: block_view(body@),
        },
        Expr::Call { function, arguments } => ExprS::Call {
            function: Box::new(expr_view(*function)),
            arguments: exprs_view(arguments@),
        },
    }
}

/// The shape of a statement node.
pub open spec fn stmt_view(s: Statement) -> StmtS
    decreases s,
{
    match s {
        Statement::Let(id, e) => StmtS::Let(id.0@, expr_view(e)),
        Statement::Return(e) => StmtS::Return(expr_view(e)),
        Statement::Expr(e) => StmtS::Expr(expr_view(e)),
    }
}

/// The shape of a parameter list: each identifier's text.
pub open spec fn idents_view(ids: Seq<Ident>) -> Seq<Seq<char>> {
    ids.map_values(|p: Ident| p.0@)
}

/// The shape of a statement block, statement by statement.
pub open spec fn block_view(b: Seq<Statement>) -> Seq<StmtS>
    decreases b,
{
    if b.len() == 0 {
        Seq::empty()
    } else {
        seq![stmt_view(b[0])] + block_view(b.drop_first())
    }
}

/// The shape of an expression list, expression by expression.
pub open spec fn exprs_view(es: Seq<Expr>) -> Seq<ExprS>
    decreases es,
{
    if es.len() == 0 {
        Seq::empty()
    } else {
        seq![expr_view(es[0])] + exprs_view(es.drop_first())
    }
}

impl View for Expr {
    type V = ExprS;

    open spec fn view(&self) -> ExprS {
        expr_view(*self)
    }
}

impl View for Statement {
    type V = StmtS;

    open spec fn view(&self) -> StmtS {
        stmt_view(*self)
    }
}

/// `block_view` maps the block statement by statement.
pub proof fn lemma_block_view(b: Seq<Statement>)
    ensures
        block_view(b).len() == b.len(),
        forall|i: int| 0 <= i < b.len() ==> block_view(b)[i] == stmt_view(#[trigger] b[i]),
    decreases b,
{
    if b.len() > 0 {
        lemma_block_view(b.drop_first());
        assert forall|i: int| 0 <= i < b.len() implies block_view(b)[i] == stmt_view(
            #[trigger] b[i],
        ) by {
            if i > 0 {
                assert(block_view(b)[i] == block_view(b.drop_first())[i - 1]);
                assert(b.drop_first()[i - 1] == b[i]);
            }
        }
    }
}

/// `exprs_view` maps the list expression by expression.
pub proof fn lemma_exprs_view(es: Seq<Expr>)
    ensures
        exprs_view(es).len() == es.len(),
        forall|i: int| 0 <= i < es.len() ==> exprs_view(es)[i] == expr_view(#[trigger] es[i]),
    decreases es,
{
    if es.len() > 0 {
        lemma_exprs_view(es.drop_first());
        assert forall|i: int| 0 <= i < es.len() implies exprs_view(es)[i] == expr_view(
            #[trigger] es[i],
        ) by {
            if i > 0 {
                assert(exprs_view(es)[i] == exprs_view(es.drop_first())[i - 1]);
                assert(es.drop_first()[i - 1] == es[i]);
            }
        }
    }
}

impl Prefix {
    /// The operator's written form.
    pub fn render(&self) -> (r: String)
        ensures
            r@ == prefix_text(*self),
    {
        let mut r = String::new();
        match self {
            Prefix::Plus => push_char(&mut r, '+'),
            Prefix::Minus => push_char(&mut r, '-'),
            Prefix::Bang => push_char(&mut r, '!'),
        }
        proof {
            assert(r@ =~= prefix_text(*self));
        }
        r
    }
}

/// The written form of a prefix operator.
pub open spec fn prefix_text(p: Prefix) -> Seq<char> {
    match p {
        Prefix::Plus => seq!['+'],
        Prefix::Minus => seq!['-'],
        Prefix::Bang => seq!['!'],
    }
}

impl Infix {
    /// The operator's written form.
    pub fn render(&self) -> (r: String)
        ensures
            r@ == infix_text(*self),
    {
        let mut r = String::new();
        match self {
            Infix::Plus => push_char(&mut r, '+'),
            Infix::Minus => push_char(&mut r, '-'),
            Infix::Multiply => push_char(&mut r, '\u{00d7}'),
            Infix::Divide => push_char(&mut r, '\u{00f7}'),
            Infix::GreaterThan => push_char(&mut r, '>'),
            Infix::LessThan => push_char(&mut r, '<'),
            Infix::Equal => push_char(&mut r, '='),
            Infix::NotEqual => push_char(&mut r, '\u{2260}'),
            Infix::GreaterThanEqual => push_char(&mut r, '\u{2265}'),
            Infix::LessThanEqual => push_char(&mut r, '\u{2264}'),
        }
        proof {
            assert(r@ =~= infix_text(*self));
        }
        r
    }
}

/// The written form of an infix operator.
pub open spec fn infix_text(op: Infix) -> Seq<char> {
    match op {
        Infix::Plus => seq!['+'],
        Infix::Minus => seq!['-'],
        Infix::Multiply => seq!['\u{00d7}'],
        Infix::Divide => seq!['\u{00f7}'],
        Infix::GreaterThan => seq!['>'],
        Infix::LessThan => seq!['<'],
        Infix::Equal => seq!['='],
        Infix::NotEqual => seq!['\u{2260}'],
        Infix::GreaterThanEqual => seq!['\u{2265}'],
        Infix::LessThanEqual => seq!['\u{2264}'],
    }
}

} // verus!
