//! The tree-walking evaluator: walks the AST recursively, dispatching per
//! node kind, producing a runtime value or a propagated error. Evaluation of
//! a statement block stops at the first error or return signal and
//! propagates it upward unchanged.

use vstd::prelude::*;
use vstd::string::*;

use crate::ast::Expr;
use crate::ast::ExprS;
use crate::ast::Ident;
use crate::ast::Infix;
use crate::ast::Literal;
use crate::ast::Prefix;
use crate::ast::Statement;
use crate::ast::StmtS;
use crate::ast::block_view;
use crate::ast::lemma_block_view;
use crate::environment::Environment;
use crate::object::ObjS;
use crate::object::Object;
use crate::object::obj_text;
use crate::object::op_err_text;
use crate::object::sp_add;
use crate::object::sp_div;
use crate::object::sp_mul;
use crate::object::sp_sub;

verus! {

/// What evaluating one piece of the tree leaves behind: the binding
/// environment afterwards, and the value produced, if any.
pub struct EvalR {
    pub env: Map<Seq<char>, ObjS>,
    pub val: Option<ObjS>,
}

/// What evaluating a whole program leaves behind: the environment and the
/// session's result — the final value, or the message of the error that
/// stopped it.
pub struct EvalOut {
    pub env: Map<Seq<char>, ObjS>,
    pub result: Result<ObjS, Seq<char>>,
}

/// Whether a value is the error kind.
pub open spec fn sp_is_error(o: ObjS) -> bool {
    match o {
        ObjS::Error(_) => true,
        _ => false,
    }
}

/// The truthiness of a value: a boolean by its truth, an integer by being
/// nonzero, everything else truthy.
pub open spec fn sp_truthy(o: ObjS) -> bool {
    match o {
        ObjS::Bool(b) => b,
        ObjS::Int(v) => v != 0,
        _ => true,
    }
}

/// The result of prefix `!`: `false` and `0` are the falsy values, so they
/// map to `true`; every other value maps to `false`.
pub open spec fn sp_bang(o: ObjS) -> ObjS {
    match o {
        ObjS::Bool(b) => ObjS::Bool(!b),
        ObjS::Int(v) => ObjS::Bool(v == 0),
        _ => ObjS::Bool(false),
    }
}

/// The message of an illegal prefix operation.
pub open spec fn prefix_err_text(opc: char, o: ObjS) -> Seq<char> {
    "Illegal syntax: "@ + seq![opc] + obj_text(o)
}

/// The result of prefix `-`: negates an integer; on a non-integer operand,
/// or on the one integer whose negation does not fit, an error describing
/// the illegal operation.
pub open spec fn sp_neg(o: ObjS) -> ObjS {
    match o {
        ObjS::Int(v) => if v == i64::MIN {
            ObjS::Error(prefix_err_text('-', o))
        } else {
            ObjS::Int((-v) as i64)
        },
        _ => ObjS::Error(prefix_err_text('-', o)),
    }
}

/// The result of prefix `+`: identity on an integer, an error on anything
/// else.
pub open spec fn sp_pos(o: ObjS) -> ObjS {
    match o {
        ObjS::Int(_) => o,
        _ => ObjS::Error(prefix_err_text('+', o)),
    }
}

/// The result of a prefix operator on an already evaluated operand.
pub open spec fn sp_prefix(op: Prefix, o: ObjS) -> ObjS {
    match op {
        Prefix::Bang => sp_bang(o),
        Prefix::Minus => sp_neg(o),
        Prefix::Plus => sp_pos(o),
    }
}

/// The result of an ordering comparison: defined when both operands are
/// integers, an error naming the operands otherwise.
pub open spec fn sp_cmp(op: Infix, l: ObjS, r: ObjS) -> ObjS {
    match (l, r) {
        (ObjS::Int(a), ObjS::Int(b)) => match op {
            Infix::LessThan => ObjS::Bool(a < b),
            Infix::LessThanEqual => ObjS::Bool(a <= b),
            Infix::GreaterThan => ObjS::Bool(a > b),
            Infix::GreaterThanEqual => ObjS::Bool(a >= b),
            _ => ObjS::Null,
        },
        _ => ObjS::Error(op_err_text(l, cmp_op_text(op), r)),
    }
}

/// The written form of an ordering operator, for error messages.
pub open spec fn cmp_op_text(op: Infix) -> Seq<char> {
    match op {
        Infix::LessThan => "<"@,
        Infix::LessThanEqual => "<="@,
        Infix::GreaterThan => ">"@,
        Infix::GreaterThanEqual => ">="@,
        _ => ""@,
    }
}

/// The result of an infix operator on two already evaluated, non-error
/// operands: equality compares by value across all kinds, ordering and
/// arithmetic are defined on integers.
pub open spec fn sp_infix_op(op: Infix, l: ObjS, r: ObjS) -> ObjS {
    match op {
        Infix::Equal => ObjS::Bool(l == r),
        Infix::NotEqual => ObjS::Bool(l != r),
        Infix::LessThan => sp_cmp(op, l, r),
        Infix::LessThanEqual => sp_cmp(op, l, r),
        Infix::GreaterThan => sp_cmp(op, l, r),
        Infix::GreaterThanEqual => sp_cmp(op, l, r),
        Infix::Plus => sp_add(l, r),
        Infix::Minus => sp_sub(l, r),
        Infix::Multiply => sp_mul(l, r),
        Infix::Divide => sp_div(l, r),
    }
}

/// The result of an infix operator once both operands are evaluated: an
/// error operand propagates, the left one first.
pub open spec fn sp_infix(op: Infix, l: ObjS, r: ObjS) -> ObjS {
    if sp_is_error(l) {
        l
    } else if sp_is_error(r) {
        r
    } else {
        sp_infix_op(op, l, r)
    }
}

/// The message of a lookup miss.
pub open spec fn not_found_text(name: Seq<char>) -> Seq<char> {
    "Identifier not found: "@ + name
}

/// The value of an identifier reference: the bound value, or an error for a
/// lookup miss.
pub open spec fn sp_ident(env: Map<Seq<char>, ObjS>, name: Seq<char>) -> ObjS {
    if env.contains_key(name) {
        env[name]
    } else {
        ObjS::Error(not_found_text(name))
    }
}

/// The value a literal denotes.
pub open spec fn sp_literal(l: Literal) -> ObjS {
    match l {
        Literal::Int(v) => ObjS::Int(v),
        Literal::Bool(b) => ObjS::Bool(b),
    }
}

/// Evaluation of one expression against an environment. Sub-blocks of a
/// conditional run in the same flat environment, so evaluation threads the
/// environment through.
pub open spec fn sp_eval_expr(env: Map<Seq<char>, ObjS>, e: ExprS) -> EvalR
    decreases e, 0int,
{
    match e {
        ExprS::Literal(l) => EvalR { env, val: Option::Some(sp_literal(l)) },
        ExprS::Ident(name) => EvalR { env, val: Option::Some(sp_ident(env, name)) },
        ExprS::Prefix(op, inner) => {
            let r = sp_eval_expr(env, *inner);
            match r.val {
                Option::Some(v) => EvalR { env: r.env, val: Option::Some(sp_prefix(op, v)) },
                Option::None => EvalR { env: r.env, val: Option::None },
            }
        },
        ExprS::Infix(l, op, rgt) => {
            let rl = sp_eval_expr(env, *l);
            match rl.val {
                Option::None => EvalR { env: rl.env, val: Option::None },
                Option::Some(lv) => {
                    let rr = sp_eval_expr(rl.env, *rgt);
                    match rr.val {
                        Option::None => EvalR { env: rr.env, val: Option::None },
                        Option::Some(rv) => EvalR {
                            env: rr.env,
                            val: Option::Some(sp_infix(op, lv, rv)),
                        },
                    }
                },
            }
        },
        ExprS::If { condition, consequence, alternative } => {
            let rc = sp_eval_expr(env, *condition);
            match rc.val {
                Option::None => EvalR { env: rc.env, val: Option::None },
                Option::Some(cv) => match cv {
                    ObjS::Bool(b) => if b {
                        sp_eval_block(rc.env, consequence, 0, Option::None)
                    } else {
                        match alternative {
                            Option::Some(alt) => sp_eval_block(rc.env, alt, 0, Option::None),
                            Option::None => EvalR { env: rc.env, val: Option::None },
                        }
                    },
                    ObjS::Int(v) => if v != 0 {
                        sp_eval_block(rc.env, consequence, 0, Option::None)
                    } else {
                        match alternative {
                            Option::Some(alt) => sp_eval_block(rc.env, alt, 0, Option::None),
                            Option::None => EvalR { env: rc.env, val: Option::None },
                        }
                    },
                    _ => EvalR { env: rc.env, val: Option::None },
                },
            }
        },
        ExprS::Function { params, body } => EvalR { env, val: Option::None },
        ExprS::Call { function, arguments } => EvalR { env, val: Option::None },
    }
}

/// Evaluation of one statement against an environment.
pub open spec fn sp_eval_stmt(env: Map<Seq<char>, ObjS>, s: StmtS) -> EvalR
    decreases s, 0int,
{
    match s {
        StmtS::Expr(e) => sp_eval_expr(env, e),
        StmtS::Let(name, e) => {
            let r = sp_eval_expr(env, e);
            match r.val {
                Option::None => EvalR { env: r.env, val: Option::None },
                Option::Some(v) => if sp_is_error(v) {
                    EvalR { env: r.env, val: Option::Some(v) }
                } else {
                    EvalR { env: r.env.insert(name, v), val: Option::Some(v) }
                },
            }
        },
        StmtS::Return(e) => {
            let r = sp_eval_expr(env, e);
            match r.val {
                Option::None => EvalR { env: r.env, val: Option::None },
                Option::Some(v) => if sp_is_error(v) {
                    EvalR { env: r.env, val: Option::Some(v) }
                } else {
                    EvalR { env: r.env, val: Option::Some(ObjS::ReturnValue(Box::new(v))) }
                },
            }
        },
    }
}

/// Evaluation of a statement block from statement `k` on, with `res` the
/// value of the last statement so far. An error or return signal stops the
/// block at once; a statement that produces no value leaves the running
/// result untouched.
pub open spec fn sp_eval_block(
    env: Map<Seq<char>, ObjS>,
    b: Seq<StmtS>,
    k: int,
    res: Option<ObjS>,
) -> EvalR
    decreases b, b.len() - k,
{
    if k < 0 || k >= b.len() {
        EvalR { env, val: res }
    } else {
        let r = sp_eval_stmt(env, b[k]);
        match r.val {
            Option::Some(ObjS::ReturnValue(v)) => EvalR { env: r.env, val: r.val },
            Option::Some(ObjS::Error(m)) => EvalR { env: r.env, val: r.val },
            Option::Some(v) => sp_eval_block(r.env, b, k + 1, Option::Some(v)),
            Option::None => sp_eval_block(r.env, b, k + 1, res),
        }
    }
}

/// Evaluation of a whole program: a return signal is unwrapped into the
/// session's value, an error value becomes the session's failure, a block
/// that produced nothing yields the unit marker.
pub open spec fn sp_eval(env: Map<Seq<char>, ObjS>, prog: Seq<StmtS>) -> EvalOut {
    let r = sp_eval_block(env, prog, 0, Option::None);
    match r.val {
        Option::Some(ObjS::ReturnValue(v)) => EvalOut { env: r.env, result: Result::Ok(*v) },
        Option::Some(ObjS::Error(m)) => EvalOut { env: r.env, result: Result::Err(m) },
        Option::Some(v) => EvalOut { env: r.env, result: Result::Ok(v) },
        Option::None => EvalOut { env: r.env, result: Result::Ok(ObjS::Null) },
    }
}

/// The shape of an optional value.
pub open spec fn opt_obj_view(r: Option<Object>) -> Option<ObjS> {
    match r {
        Option::Some(o) => Option::Some(o@),
        Option::None => Option::None,
    }
}

/// `!` is involutive on the truthiness encoding: two bangs yield exactly
/// the boolean truthiness of the value itself.
pub proof fn lemma_bang_involutive(o: ObjS)
    ensures
        sp_bang(sp_bang(o)) == ObjS::Bool(sp_truthy(o)),
{
}

/// A statement block stops at the first error or return signal and
/// propagates it upward unchanged, whatever statements follow.
pub proof fn lemma_block_stops_early(
    env: Map<Seq<char>, ObjS>,
    b: Seq<StmtS>,
    k: int,
    res: Option<ObjS>,
)
    requires
        0 <= k < b.len(),
        (sp_eval_stmt(env, b[k]).val matches Option::Some(v) && (v matches ObjS::Error(_)
            || v matches ObjS::ReturnValue(_))),
    ensures
        (sp_eval_block(env, b, k, res) == EvalR {
            env: sp_eval_stmt(env, b[k]).env,
            val: sp_eval_stmt(env, b[k]).val,
        }),
{
}

/// A conditional whose condition is false and which has no alternative
/// yields no value — the session then ends in the unit marker, not in an
/// error.
pub proof fn lemma_if_false_without_alternative(
    env: Map<Seq<char>, ObjS>,
    condition: ExprS,
    consequence: Seq<StmtS>,
)
    requires
        sp_eval_expr(env, condition).val == Option::Some(ObjS::Bool(false)) || sp_eval_expr(
            env,
            condition,
        ).val == Option::Some(ObjS::Int(0)),
    ensures
        (sp_eval_expr(
            env,
            ExprS::If {
                condition: Box::new(condition),
                consequence,
                alternative: Option::None,
            },
        ) == EvalR { env: sp_eval_expr(env, condition).env, val: Option::None }),
{
}

/// The evaluator: owns the session's environment and walks statement
/// blocks against it.
pub struct Evaluator {
    environment: Environment,
}

impl View for Evaluator {
    type V = Map<Seq<char>, ObjS>;

    closed spec fn view(&self) -> Map<Seq<char>, ObjS> {
        self.environment@
    }
}

impl Evaluator {
    /// An evaluator with an empty environment.
    pub fn new() -> (r: Evaluator)
        ensures
            r@ == Map::<Seq<char>, ObjS>::empty(),
    {
        Evaluator { environment: Environment::new() }
    }

    /// Evaluates a program: the statements in order, stopping at the first
    /// error or return; a return's value is unwrapped, an error's message is
    /// the failure, and a program that produced nothing yields the unit
    /// marker.
    pub fn eval(&mut self, stmts: Vec<Statement>) -> (r: Result<Object, String>)
        ensures
            ({
                let sp = sp_eval(old(self)@, block_view(stmts@));
                &&& final(self)@ == sp.env
                &&& match (r, sp.result) {
                    (Result::Ok(o), Result::Ok(v)) => o@ == v,
                    (Result::Err(m), Result::Err(t)) => m@ == t,
                    _ => false,
                }
            }),
    {
        match self.eval_block_stmt(&stmts) {
            Option::Some(o) => match o {
                Object::ReturnValue(v) => Result::Ok(*v),
                Object::Error(m) => Result::Err(m),
                other => Result::Ok(other),
            },
            Option::None => Result::Ok(Object::Null),
        }
    }

    /// Evaluates one statement.
    fn eval_stmt(&mut self, s: &Statement) -> (r: Option<Object>)
        ensures
            ({
                let sp = sp_eval_stmt(old(self)@, s@);
                final(self)@ == sp.env && opt_obj_view(r) == sp.val
            }),
        decreases s, 0int,
    {
        match s {
            Statement::Expr(e) => self.eval_expr(e),
            Statement::Let(id, e) => self.eval_let_stmt(id, e),
            Statement::Return(e) => self.eval_return_stmt(e),
        }
    }

    /// Evaluates a statement block, tracking the running result.
    fn eval_block_stmt(&mut self, stmts: &Vec<Statement>) -> (r: Option<Object>)
        ensures
            ({
                let sp = sp_eval_block(old(self)@, block_view(stmts@), 0, Option::None);
                final(self)@ == sp.env && opt_obj_view(r) == sp.val
            }),
        decreases stmts, 0int,
    {
        let ghost b = block_view(stmts@);
        proof {
            lemma_block_view(stmts@);
        }
        let mut res: Option<Object> = Option::None;
        let mut k: usize = 0;
        while k < stmts.len()
            invariant
                0 <= k <= stmts@.len(),
                b == block_view(stmts@),
                b.len() == stmts@.len(),
                forall|i: int| 0 <= i < stmts@.len() ==> b[i] == (#[trigger] stmts@[i])@,
                sp_eval_block(old(self)@, b, 0, Option::None) == sp_eval_block(
                    self@,
                    b,
                    k as int,
                    opt_obj_view(res),
                ),
            decreases stmts@.len() - k,
        {
            match self.eval_stmt(&stmts[k]) {
                Option::Some(o) => match o {
                    Object::ReturnValue(v) => {
                        return Option::Some(Object::ReturnValue(v));
                    },
                    Object::Error(m) => {
                        return Option::Some(Object::Error(m));
                    },
                    other => {
                        res = Option::Some(other);
                    },
                },
                Option::None => {},
            }
            k = k + 1;
        }
        res
    }

    /// Evaluates one expression. Sub-blocks of a conditional run in the
    /// same flat environment.
    fn eval_expr(&mut self, e: &Expr) -> (r: Option<Object>)
        ensures
            ({
                let sp = sp_eval_expr(old(self)@, e@);
                final(self)@ == sp.env && opt_obj_view(r) == sp.val
            }),
        decreases e, 0int,
    {
        match e {
            Expr::Literal(l) => self.eval_literal(l),
            Expr::Ident(id) => self.eval_ident(id),
            Expr::Prefix(op, inner) => match self.eval_expr(inner) {
                Option::Some(v) => Option::Some(Self::eval_prefix_expr(op, v)),
                Option::None => Option::None,
            },
            Expr::Infix(l, op, rgt) => match self.eval_expr(l) {
                Option::None => Option::None,
                Option::Some(lv) => match self.eval_expr(rgt) {
                    Option::None => Option::None,
                    Option::Some(rv) => Option::Some(Self::eval_infix_expr(lv, op, rv)),
                },
            },
            Expr::If { condition, consequence, alternative } => {
                match self.eval_expr(condition) {
                    Option::None => Option::None,
                    Option::Some(cv) => {
                        let truth: Option<bool> = match &cv {
                            Object::Bool(bv) => Option::Some(*bv),
                            Object::Int(v) => Option::Some(*v != 0),
                            _ => Option::None,
                        };
                        match truth {
                            Option::None => Option::None,
                            Option::Some(t) => {
                                if t {
                                    self.eval_block_stmt(consequence)
                                } else {
                                    match alternative {
                                        Option::Some(alt) => self.eval_block_stmt(alt),
                                        Option::None => Option::None,
                                    }
                                }
                            },
                        }
                    },
                }
            },
            Expr::Function { params, body } => Option::None,
            Expr::Call { function, arguments } => Option::None,
        }
    }

    /// The value a literal evaluates to.
    fn eval_literal(&self, l: &Literal) -> (r: Option<Object>)
        ensures
            opt_obj_view(r) == Option::Some(sp_literal(*l)),
    {
        match l {
            Literal::Int(v) => Option::Some(Object::Int(*v)),
            Literal::Bool(b) => Option::Some(Object::Bool(*b)),
        }
    }

    /// The value an identifier reference evaluates to: the bound value, or
    /// an error for a lookup miss.
    fn eval_ident(&self, ident: &Ident) -> (r: Option<Object>)
        ensures
            opt_obj_view(r) == Option::Some(sp_ident(self@, ident.0@)),
    {
        match self.environment.get(ident.0.as_str()) {
            Option::Some(v) => Option::Some(v),
            Option::None => {
                let mut m = String::from_str("Identifier not found: ");
                m.append(ident.0.as_str());
                proof {
                    assert(m@ =~= not_found_text(ident.0@));
                }
                Option::Some(Self::error(m))
            },
        }
    }

    /// An error value carrying the given message.
    fn error(message: String) -> (r: Object)
        ensures
            r@ == ObjS::Error(message@),
    {
        Object::Error(message)
    }

    /// Whether a value is the error kind.
    fn is_error(object: &Object) -> (r: bool)
        ensures
            r == sp_is_error(object@),
    {
        match object {
            Object::Error(_) => true,
            _ => false,
        }
    }

    /// Evaluates a return statement: a non-error value is wrapped in the
    /// return signal before propagating.
    fn eval_return_stmt(&mut self, expr: &Expr) -> (r: Option<Object>)
        ensures
            ({
                let sp = sp_eval_stmt(old(self)@, StmtS::Return(expr@));
                final(self)@ == sp.env && opt_obj_view(r) == sp.val
            }),
        decreases expr, 1int,
    {
        match self.eval_expr(expr) {
            Option::None => Option::None,
            Option::Some(v) => {
                if Self::is_error(&v) {
                    Option::Some(v)
                } else {
                    Option::Some(Object::ReturnValue(Box::new(v)))
                }
            },
        }
    }

    /// Evaluates a let statement: an error initializer short-circuits
    /// without binding; otherwise the name is bound and the bound value is
    /// also the statement's value.
    fn eval_let_stmt(&mut self, ident: &Ident, expr: &Expr) -> (r: Option<Object>)
        ensures
            ({
                let sp = sp_eval_stmt(old(self)@, StmtS::Let(ident.0@, expr@));
                final(self)@ == sp.env && opt_obj_view(r) == sp.val
            }),
        decreases expr, 1int,
    {
        match self.eval_expr(expr) {
            Option::None => Option::None,
            Option::Some(v) => {
                if Self::is_error(&v) {
                    return Option::Some(v);
                }
                let dup = v.duplicate();
                self.environment.set(ident.0.as_str(), dup);
                Option::Some(v)
            },
        }
    }

    /// The result of a prefix operator on an already evaluated operand.
    fn eval_prefix_expr(prefix: &Prefix, obj: Object) -> (r: Object)
        ensures
            r@ == sp_prefix(*prefix, obj@),
    {
        match prefix {
            Prefix::Bang => match &obj {
                Object::Bool(b) => Object::Bool(!*b),
                Object::Int(v) => Object::Bool(*v == 0),
                _ => Object::Bool(false),
            },
            Prefix::Minus => match &obj {
                Object::Int(v) => {
                    if *v == i64::MIN {
                        Self::prefix_error('-', &obj)
                    } else {
                        Object::Int(-*v)
                    }
                },
                _ => Self::prefix_error('-', &obj),
            },
            Prefix::Plus => match &obj {
                Object::Int(_) => obj,
                _ => Self::prefix_error('+', &obj),
            },
        }
    }

    /// The error value of an illegal prefix operation.
    fn prefix_error(opc: char, o: &Object) -> (e: Object)
        ensures
            e@ == ObjS::Error(prefix_err_text(opc, o@)),
    {
        let mut m = String::from_str("Illegal syntax: ");
        crate::render::push_char(&mut m, opc);
        let t = o.render();
        m.append(t.as_str());
        proof {
            assert(m@ =~= prefix_err_text(opc, o@));
        }
        Object::Error(m)
    }

    /// The result of an infix operator once both operands are evaluated: an
    /// error operand propagates, the left one first; equality compares by
    /// value, ordering and arithmetic are defined on integers.
    fn eval_infix_expr(left: Object, infix: &Infix, right: Object) -> (r: Object)
        ensures
            r@ == sp_infix(*infix, left@, right@),
    {
        if Self::is_error(&left) {
            return left;
        }
        if Self::is_error(&right) {
            return right;
        }
        match infix {
            Infix::Equal => Object::Bool(left.same_as(&right)),
            Infix::NotEqual => Object::Bool(!left.same_as(&right)),
            Infix::LessThan => Self::eval_cmp_expr(left, infix, right),
            Infix::LessThanEqual => Self::eval_cmp_expr(left, infix, right),
            Infix::GreaterThan => Self::eval_cmp_expr(left, infix, right),
            Infix::GreaterThanEqual => Self::eval_cmp_expr(left, infix, right),
            Infix::Plus => left.add(right),
            Infix::Minus => left.sub(right),
            Infix::Multiply => left.mul(right),
            Infix::Divide => left.div(right),
        }
    }

    /// The result of an ordering comparison on two non-error operands.
    fn eval_cmp_expr(left: Object, infix: &Infix, right: Object) -> (r: Object)
        requires
            (infix matches Infix::LessThan) || (infix matches Infix::LessThanEqual) || (
            infix matches Infix::GreaterThan) || (infix matches Infix::GreaterThanEqual),
        ensures
            r@ == sp_cmp(*infix, left@, right@),
    {
        match (&left, &right) {
            (Object::Int(a), Object::Int(b)) => match infix {
                Infix::LessThan => Object::Bool(*a < *b),
                Infix::LessThanEqual => Object::Bool(*a <= *b),
                Infix::GreaterThan => Object::Bool(*a > *b),
                Infix::GreaterThanEqual => Object::Bool(*a >= *b),
                _ => Object::Null,
            },
            _ => {
                let op = match infix {
                    Infix::LessThan => "<",
                    Infix::LessThanEqual => "<=",
                    Infix::GreaterThan => ">",
                    _ => ">=",
                };
                let mut m = String::from_str("Couldn't perform operation: ");
                let lt = left.render();
                m.append(lt.as_str());
                m.append(" ");
                m.append(op);
                m.append(" ");
                let rt = right.render();
                m.append(rt.as_str());
                proof {
                    assert(m@ =~= op_err_text(left@, cmp_op_text(*infix), right@));
                }
                Object::Error(m)
            },
        }
    }
}

} // verus!
