//! The tagged union of runtime values the evaluator produces and operates
//! on. Values are immutable and cheaply copyable; the boxed return wrapper
//! owns its single inner value exclusively.

use vstd::prelude::*;
use vstd::string::*;

use crate::render::i64_text;
use crate::render::int_text;

verus! {

/// A runtime value: an integer, a boolean, a runtime error carrying its
/// message, a wrapper that unwinds a statement block early, or the
/// unit/"no value" marker.
#[derive(PartialEq, Debug)]
pub enum Object {
    Int(i64),
    Bool(bool),
    Error(String),
    ReturnValue(Box<Object>),
    Null,
}

/// The mathematical shape of a runtime value: message text as a character
/// sequence.
pub enum ObjS {
    Int(i64),
    Bool(bool),
    Error(Seq<char>),
    ReturnValue(Box<ObjS>),
    Null,
}

/// The shape of a runtime value.
pub open spec fn obj_view(o: Object) -> ObjS
    decreases o,
{
    match o {
        Object::Int(v) => ObjS::Int(v),
        Object::Bool(b) => ObjS::Bool(b),
        Object::Error(m) => ObjS::Error(m@),
        Object::ReturnValue(v) => ObjS::ReturnValue(Box::new(obj_view(*v))),
        Object::Null => ObjS::Null,
    }
}

impl View for Object {
    type V = ObjS;

    open spec fn view(&self) -> ObjS {
        obj_view(*self)
    }
}

/// The text a value renders to: an integer as its decimal value, a boolean
/// as `true`/`false`, an error as its raw message, a return wrapper as its
/// inner value, the unit marker as `null`.
pub open spec fn obj_text(o: ObjS) -> Seq<char>
    decreases o,
{
    match o {
        ObjS::Int(v) => int_text(v as int),
        ObjS::Bool(b) => if b {
            "true"@
        } else {
            "false"@
        },
        ObjS::Error(m) => m,
        ObjS::ReturnValue(v) => obj_text(*v),
        ObjS::Null => "null"@,
    }
}

/// The message of a failed binary operation, naming the two operand values
/// and the operator.
pub open spec fn op_err_text(l: ObjS, op: Seq<char>, r: ObjS) -> Seq<char> {
    "Couldn't perform operation: "@ + obj_text(l) + " "@ + op + " "@ + obj_text(r)
}

/// The result of `+` on two values: integer addition when both operands are
/// integers and the sum fits in 64 bits, otherwise an error naming the
/// operands.
pub open spec fn sp_add(l: ObjS, r: ObjS) -> ObjS {
    match (l, r) {
        (ObjS::Int(a), ObjS::Int(b)) => match a.checked_add(b) {
            Option::Some(v) => ObjS::Int(v),
            Option::None => ObjS::Error(op_err_text(l, "+"@, r)),
        },
        _ => ObjS::Error(op_err_text(l, "+"@, r)),
    }
}

/// The result of `-` on two values, as `sp_add`.
pub open spec fn sp_sub(l: ObjS, r: ObjS) -> ObjS {
    match (l, r) {
        (ObjS::Int(a), ObjS::Int(b)) => match a.checked_sub(b) {
            Option::Some(v) => ObjS::Int(v),
            Option::None => ObjS::Error(op_err_text(l, "-"@, r)),
        },
        _ => ObjS::Error(op_err_text(l, "-"@, r)),
    }
}

/// The result of `*` on two values, as `sp_add`.
pub open spec fn sp_mul(l: ObjS, r: ObjS) -> ObjS {
    match (l, r) {
        (ObjS::Int(a), ObjS::Int(b)) => match a.checked_mul(b) {
            Option::Some(v) => ObjS::Int(v),
            Option::None => ObjS::Error(op_err_text(l, "*"@, r)),
        },
        _ => ObjS::Error(op_err_text(l, "*"@, r)),
    }
}

/// The result of `/` on two values: truncating integer division when both
/// operands are integers, the divisor is not zero and the quotient fits,
/// otherwise an error naming the operands.
pub open spec fn sp_div(l: ObjS, r: ObjS) -> ObjS {
    match (l, r) {
        (ObjS::Int(a), ObjS::Int(b)) => match a.checked_div(b) {
            Option::Some(v) => ObjS::Int(v),
            Option::None => ObjS::Error(op_err_text(l, "/"@, r)),
        },
        _ => ObjS::Error(op_err_text(l, "/"@, r)),
    }
}

impl Object {
    /// The text this value renders to.
    pub fn render(&self) -> (r: String)
        ensures
            r@ == obj_text(self@),
        decreases self,
    {
        match self {
            Object::Int(v) => i64_text(*v),
            Object::Bool(b) => {
                if *b {
                    String::from_str("true")
                } else {
                    String::from_str("false")
                }
            },
            Object::Error(m) => m.clone(),
            Object::ReturnValue(v) => v.render(),
            Object::Null => String::from_str("null"),
        }
    }

    /// An exact copy of this value.
    pub fn duplicate(&self) -> (r: Object)
        ensures
            r@ == self@,
        decreases self,
    {
        match self {
            Object::Int(v) => Object::Int(*v),
            Object::Bool(b) => Object::Bool(*b),
            Object::Error(m) => Object::Error(m.clone()),
            Object::ReturnValue(v) => Object::ReturnValue(Box::new(v.duplicate())),
            Object::Null => Object::Null,
        }
    }

    /// Whether two values are equal, compared by value across all kinds.
    pub fn same_as(&self, other: &Object) -> (r: bool)
        ensures
            r == (self@ == other@),
        decreases self,
    {
        match (self, other) {
            (Object::Int(a), Object::Int(b)) => *a == *b,
            (Object::Bool(a), Object::Bool(b)) => *a == *b,
            (Object::Error(a), Object::Error(b)) => a.eq(b),
            (Object::ReturnValue(a), Object::ReturnValue(b)) => a.same_as(b),
            (Object::Null, Object::Null) => true,
            _ => false,
        }
    }

    /// The error value of a failed binary operation on these operands.
    fn op_error(l: &Object, op: &str, r: &Object) -> (e: Object)
        ensures
            e@ == ObjS::Error(op_err_text(l@, op@, r@)),
    {
        let mut m = String::from_str("Couldn't perform operation: ");
        let lt = l.render();
        m.append(lt.as_str());
        m.append(" ");
        m.append(op);
        m.append(" ");
        let rt = r.render();
        m.append(rt.as_str());
        proof {
            assert(m@ =~= op_err_text(l@, op@, r@));
        }
        Object::Error(m)
    }

    /// The sum of two values: integer addition where defined, an error
    /// naming the operands otherwise.
    pub fn add(self, rhs: Object) -> (r: Object)
        ensures
            r@ == sp_add(self@, rhs@),
    {
        match (&self, &rhs) {
            (Object::Int(a), Object::Int(b)) => match (*a).checked_add(*b) {
                Option::Some(v) => Object::Int(v),
                Option::None => Self::op_error(&self, "+", &rhs),
            },
            _ => Self::op_error(&self, "+", &rhs),
        }
    }

    /// The difference of two values, as `add`.
    pub fn sub(self, rhs: Object) -> (r: Object)
        ensures
            r@ == sp_sub(self@, rhs@),
    {
        match (&self, &rhs) {
            (Object::Int(a), Object::Int(b)) => match (*a).checked_sub(*b) {
                Option::Some(v) => Object::Int(v),
                Option::None => Self::op_error(&self, "-", &rhs),
            },
            _ => Self::op_error(&self, "-", &rhs),
        }
    }

    /// The product of two values, as `add`.
    pub fn mul(self, rhs: Object) -> (r: Object)
        ensures
            r@ == sp_mul(self@, rhs@),
    {
        match (&self, &rhs) {
            (Object::Int(a), Object::Int(b)) => match (*a).checked_mul(*b) {
                Option::Some(v) => Object::Int(v),
                Option::None => Self::op_error(&self, "*", &rhs),
            },
            _ => Self::op_error(&self, "*", &rhs),
        }
    }

    /// The truncating quotient of two values; division by zero is an
    /// ordinary runtime error naming the operands, not a fault.
    pub fn div(self, rhs: Object) -> (r: Object)
        ensures
            r@ == sp_div(self@, rhs@),
    {
        match (&self, &rhs) {
            (Object::Int(a), Object::Int(b)) => match (*a).checked_div(*b) {
                Option::Some(v) => Object::Int(v),
                Option::None => Self::op_error(&self, "/", &rhs),
            },
            _ => Self::op_error(&self, "/", &rhs),
        }
    }
}

} // verus!
