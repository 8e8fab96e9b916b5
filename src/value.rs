//! The value evaluator: an evaluated constant expression and its declared
//! type become a tagged literal.
use vstd::prelude::*;
use crate::ast::{CTypeKind, Entity, Evaluation};
use crate::diag::{Diagnostic, Reason};
use crate::schema::Value;

verus! {

/// Integer kinds whose values are read as unsigned.
pub open spec fn unsigned_kind(k: CTypeKind) -> bool {
    k is CharU || k is UChar || k is UShort || k is UInt || k is ULong || k is ULongLong || k is Bool
}

/// Integer kinds whose values are read as signed.
pub open spec fn signed_kind(k: CTypeKind) -> bool {
    k is CharS || k is SChar || k is WChar || k is Short || k is Int || k is Long || k is LongLong
}

/// The literal for an evaluation result under the declared type kind `k`.
pub open spec fn literal(k: CTypeKind, ev: Evaluation) -> Option<Value> {
    match ev {
        Evaluation::Signed(i) => if unsigned_kind(k) {
            Some(Value::UInt(i as u64))
        } else if signed_kind(k) {
            Some(Value::Int(i))
        } else {
            None
        },
        Evaluation::Unsigned(u) => if unsigned_kind(k) {
            Some(Value::UInt(u))
        } else if signed_kind(k) {
            Some(Value::Int(u as i64))
        } else {
            None
        },
        Evaluation::Float { double_bits, single_bits } => if k is Float {
            Some(Value::Float(single_bits))
        } else if k is Double {
            Some(Value::Double(double_bits))
        } else {
            None
        },
        Evaluation::Str(s) => Some(Value::String(s)),
        Evaluation::Other => None,
    }
}

/// The value of a constant expression, and what is reported on the way: an
/// expression with a type and an evaluation that yields no literal is
/// reported.
pub open spec fn value_outcome(exp: Entity) -> (Option<Value>, Seq<Diagnostic>) {
    match (exp.ty, exp.evaluation) {
        (Some(t), Some(ev)) => match literal(t.kind, ev) {
            Some(v) => (Some(v), seq![]),
            None => (
                None,
                seq![Diagnostic { reason: Reason::UnsupportedEvaluation, subject: exp.name, context: None }],
            ),
        },
        _ => (None, seq![]),
    }
}

fn is_unsigned_kind(k: CTypeKind) -> (r: bool)
    ensures
        r == unsigned_kind(k),
{
    match k {
        CTypeKind::CharU | CTypeKind::UChar | CTypeKind::UShort | CTypeKind::UInt | CTypeKind::ULong
        | CTypeKind::ULongLong | CTypeKind::Bool => true,
        _ => false,
    }
}

fn is_signed_kind(k: CTypeKind) -> (r: bool)
    ensures
        r == signed_kind(k),
{
    match k {
        CTypeKind::CharS | CTypeKind::SChar | CTypeKind::WChar | CTypeKind::Short | CTypeKind::Int
        | CTypeKind::Long | CTypeKind::LongLong => true,
        _ => false,
    }
}

pub(crate) fn clone_name(n: &Option<String>) -> (r: Option<String>)
    ensures
        r == *n,
{
    match n {
        Some(s) => Some(s.clone()),
        None => None,
    }
}

/// Evaluates a constant expression to a literal, by the signedness and
/// width of its declared type.
pub fn parse_value(exp: &Entity, diags: &mut Vec<Diagnostic>) -> (r: Option<Value>)
    ensures
        r == value_outcome(*exp).0,
        final(diags)@ == old(diags)@ + value_outcome(*exp).1,
{
    let (k, ev) = match (&exp.ty, &exp.evaluation) {
        (Some(t), Some(ev)) => (t.kind, ev),
        _ => {
            proof { assert(old(diags)@ + seq![] =~= old(diags)@); }
            return None;
        },
    };
    let v = match ev {
        Evaluation::Signed(i) => if is_unsigned_kind(k) {
            Some(Value::UInt(*i as u64))
        } else if is_signed_kind(k) {
            Some(Value::Int(*i))
        } else {
            None
        },
        Evaluation::Unsigned(u) => if is_unsigned_kind(k) {
            Some(Value::UInt(*u))
        } else if is_signed_kind(k) {
            Some(Value::Int(*u as i64))
        } else {
            None
        },
        Evaluation::Float { double_bits, single_bits } => if k == CTypeKind::Float {
            Some(Value::Float(*single_bits))
        } else if k == CTypeKind::Double {
            Some(Value::Double(*double_bits))
        } else {
            None
        },
        Evaluation::Str(s) => Some(Value::String(s.clone())),
        Evaluation::Other => None,
    };
    match v {
        Some(v) => {
            proof { assert(old(diags)@ + seq![] =~= old(diags)@); }
            Some(v)
        },
        None => {
            diags.push(
                Diagnostic { reason: Reason::UnsupportedEvaluation, subject: clone_name(&exp.name), context: None },
            );
            proof {
                assert(final(diags)@ =~= old(diags)@ + value_outcome(*exp).1);
            }
            None
        },
    }
}

} // verus!
