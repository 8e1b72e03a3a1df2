//! Checked types as values: comparing, copying, and printing them the way
//! the checker's messages do.
use vstd::prelude::*;
use crate::constraints::BinOp;
use crate::text::{push_str, str_eq};
use crate::types::CheckedType;

verus! {

/// What std's `Debug` prints for a string: the string quoted, with quotes,
/// backslashes and control characters escaped.
pub uninterp spec fn debug_quoted(s: Seq<char>) -> Seq<char>;

/// std's `Debug` for `str`, through `format!("{:?}")`. Its output is named
/// `debug_quoted` and depends on the string's contents alone; how
/// characters are escaped is not stated here.
#[verifier::external_body]
fn debug_str(s: &str) -> (r: String)
    ensures
        r@ == debug_quoted(s@),
{
    format!("{:?}", s)
}

/// Two checked types are the same: same shape, same names.
pub open spec fn same_checked(a: CheckedType, b: CheckedType) -> bool
    decreases a,
{
    match a {
        CheckedType::Bool => b is Bool,
        CheckedType::I32 => b is I32,
        CheckedType::I64 => b is I64,
        CheckedType::F32 => b is F32,
        CheckedType::F64 => b is F64,
        CheckedType::String => b is String,
        CheckedType::Named(x) => b matches CheckedType::Named(y) && x@ == y@,
        CheckedType::Interface(x) => b matches CheckedType::Interface(y) && x@ == y@,
        CheckedType::List(x) => b matches CheckedType::List(y) && same_checked(*x, *y),
        CheckedType::Option(x) => b matches CheckedType::Option(y) && same_checked(*x, *y),
        CheckedType::Result { ok, err } => match b {
            CheckedType::Result { ok: ok2, err: err2 } => same_opt(ok, ok2) && same_opt(err, err2),
            _ => false,
        },
        CheckedType::Future(x) => b matches CheckedType::Future(y) && same_opt(x, y),
        CheckedType::ThreadId => b is ThreadId,
        CheckedType::Shared => b is Shared,
        CheckedType::V128 => b is V128,
        CheckedType::Unknown => b is Unknown,
    }
}

/// Two optional checked types are the same.
pub open spec fn same_opt(a: Option<Box<CheckedType>>, b: Option<Box<CheckedType>>) -> bool
    decreases a,
{
    match a {
        Some(x) => match b {
            Some(y) => same_checked(*x, *y),
            None => false,
        },
        None => b is None,
    }
}

/// Whether two checked types are the same.
pub fn checked_eq(a: &CheckedType, b: &CheckedType) -> (r: bool)
    ensures
        r == same_checked(*a, *b),
    decreases a,
{
    match a {
        CheckedType::Bool => matches!(b, CheckedType::Bool),
        CheckedType::I32 => matches!(b, CheckedType::I32),
        CheckedType::I64 => matches!(b, CheckedType::I64),
        CheckedType::F32 => matches!(b, CheckedType::F32),
        CheckedType::F64 => matches!(b, CheckedType::F64),
        CheckedType::String => matches!(b, CheckedType::String),
        CheckedType::Named(x) => match b {
            CheckedType::Named(y) => str_eq(x.as_str(), y.as_str()),
            _ => false,
        },
        CheckedType::Interface(x) => match b {
            CheckedType::Interface(y) => str_eq(x.as_str(), y.as_str()),
            _ => false,
        },
        CheckedType::List(x) => match b {
            CheckedType::List(y) => checked_eq(x, y),
            _ => false,
        },
        CheckedType::Option(x) => match b {
            CheckedType::Option(y) => checked_eq(x, y),
            _ => false,
        },
        CheckedType::Result { ok, err } => match b {
            CheckedType::Result { ok: ok2, err: err2 } => opt_eq(ok, ok2) && opt_eq(err, err2),
            _ => false,
        },
        CheckedType::Future(x) => match b {
            CheckedType::Future(y) => opt_eq(x, y),
            _ => false,
        },
        CheckedType::ThreadId => matches!(b, CheckedType::ThreadId),
        CheckedType::Shared => matches!(b, CheckedType::Shared),
        CheckedType::V128 => matches!(b, CheckedType::V128),
        CheckedType::Unknown => matches!(b, CheckedType::Unknown),
    }
}

fn opt_eq(a: &Option<Box<CheckedType>>, b: &Option<Box<CheckedType>>) -> (r: bool)
    ensures
        r == same_opt(*a, *b),
    decreases a,
{
    match a {
        Some(x) => match b {
            Some(y) => checked_eq(x, y),
            None => false,
        },
        None => b.is_none(),
    }
}

/// A copy of a checked type.
pub fn clone_checked(t: &CheckedType) -> (r: CheckedType)
    ensures
        r == *t,
    decreases t,
{
    match t {
        CheckedType::Bool => CheckedType::Bool,
        CheckedType::I32 => CheckedType::I32,
        CheckedType::I64 => CheckedType::I64,
        CheckedType::F32 => CheckedType::F32,
        CheckedType::F64 => CheckedType::F64,
        CheckedType::String => CheckedType::String,
        CheckedType::Named(x) => CheckedType::Named(x.clone()),
        CheckedType::Interface(x) => CheckedType::Interface(x.clone()),
        CheckedType::List(x) => CheckedType::List(Box::new(clone_checked(x))),
        CheckedType::Option(x) => CheckedType::Option(Box::new(clone_checked(x))),
        CheckedType::Result { ok, err } => CheckedType::Result {
            ok: clone_opt(ok),
            err: clone_opt(err),
        },
        CheckedType::Future(x) => CheckedType::Future(clone_opt(x)),
        CheckedType::ThreadId => CheckedType::ThreadId,
        CheckedType::Shared => CheckedType::Shared,
        CheckedType::V128 => CheckedType::V128,
        CheckedType::Unknown => CheckedType::Unknown,
    }
}

fn clone_opt(o: &Option<Box<CheckedType>>) -> (r: Option<Box<CheckedType>>)
    ensures
        r == *o,
    decreases o,
{
    match o {
        Some(x) => Some(Box::new(clone_checked(x))),
        None => None,
    }
}

/// How a checked type prints in messages (Rust's debug notation).
pub open spec fn checked_debug(t: CheckedType) -> Seq<char>
    decreases t,
{
    match t {
        CheckedType::Bool => "Bool"@,
        CheckedType::I32 => "I32"@,
        CheckedType::I64 => "I64"@,
        CheckedType::F32 => "F32"@,
        CheckedType::F64 => "F64"@,
        CheckedType::String => "String"@,
        CheckedType::Named(x) => "Named("@ + debug_quoted(x@) + ")"@,
        CheckedType::Interface(x) => "Interface("@ + debug_quoted(x@) + ")"@,
        CheckedType::List(x) => "List("@ + checked_debug(*x) + ")"@,
        CheckedType::Option(x) => "Option("@ + checked_debug(*x) + ")"@,
        CheckedType::Result { ok, err } => "Result { ok: "@ + opt_debug(ok) + ", err: "@ + opt_debug(
            err,
        ) + " }"@,
        CheckedType::Future(x) => "Future("@ + opt_debug(x) + ")"@,
        CheckedType::ThreadId => "ThreadId"@,
        CheckedType::Shared => "Shared"@,
        CheckedType::V128 => "V128"@,
        CheckedType::Unknown => "Unknown"@,
    }
}

/// How an optional checked type prints in messages.
pub open spec fn opt_debug(o: Option<Box<CheckedType>>) -> Seq<char>
    decreases o,
{
    match o {
        Some(x) => "Some("@ + checked_debug(*x) + ")"@,
        None => "None"@,
    }
}

fn push_string(out: &mut Vec<char>, s: &String)
    ensures
        final(out)@ == old(out)@ + s@,
{
    push_str(out, s.as_str());
}

/// Appends how a checked type prints.
pub fn push_checked_debug(out: &mut Vec<char>, t: &CheckedType)
    ensures
        final(out)@ == old(out)@ + checked_debug(*t),
    decreases t,
{
    let ghost start = out@;
    match t {
        CheckedType::Bool => push_str(out, "Bool"),
        CheckedType::I32 => push_str(out, "I32"),
        CheckedType::I64 => push_str(out, "I64"),
        CheckedType::F32 => push_str(out, "F32"),
        CheckedType::F64 => push_str(out, "F64"),
        CheckedType::String => push_str(out, "String"),
        CheckedType::Named(x) => {
            push_str(out, "Named(");
            push_string(out, &debug_str(x.as_str()));
            push_str(out, ")");
        },
        CheckedType::Interface(x) => {
            push_str(out, "Interface(");
            push_string(out, &debug_str(x.as_str()));
            push_str(out, ")");
        },
        CheckedType::List(x) => {
            push_str(out, "List(");
            push_checked_debug(out, x);
            push_str(out, ")");
        },
        CheckedType::Option(x) => {
            push_str(out, "Option(");
            push_checked_debug(out, x);
            push_str(out, ")");
        },
        CheckedType::Result { ok, err } => {
            push_str(out, "Result { ok: ");
            push_opt_debug(out, ok);
            push_str(out, ", err: ");
            push_opt_debug(out, err);
            push_str(out, " }");
        },
        CheckedType::Future(x) => {
            push_str(out, "Future(");
            push_opt_debug(out, x);
            push_str(out, ")");
        },
        CheckedType::ThreadId => push_str(out, "ThreadId"),
        CheckedType::Shared => push_str(out, "Shared"),
        CheckedType::V128 => push_str(out, "V128"),
        CheckedType::Unknown => push_str(out, "Unknown"),
    }
    assert(out@ =~= start + checked_debug(*t));
}

fn push_opt_debug(out: &mut Vec<char>, o: &Option<Box<CheckedType>>)
    ensures
        final(out)@ == old(out)@ + opt_debug(*o),
    decreases o,
{
    let ghost start = out@;
    match o {
        Some(x) => {
            push_str(out, "Some(");
            push_checked_debug(out, x);
            push_str(out, ")");
        },
        None => push_str(out, "None"),
    }
    assert(out@ =~= start + opt_debug(*o));
}

/// How an operator prints in messages (Rust's debug notation).
pub open spec fn binop_debug(op: BinOp) -> Seq<char> {
    match op {
        BinOp::Add => "Add"@,
        BinOp::Sub => "Sub"@,
        BinOp::Mul => "Mul"@,
        BinOp::Div => "Div"@,
        BinOp::Eq => "Eq"@,
        BinOp::Ne => "Ne"@,
        BinOp::Lt => "Lt"@,
        BinOp::Le => "Le"@,
        BinOp::Gt => "Gt"@,
        BinOp::Ge => "Ge"@,
        BinOp::And => "And"@,
        BinOp::Or => "Or"@,
    }
}

/// Appends how an operator prints.
pub fn push_binop_debug(out: &mut Vec<char>, op: BinOp)
    ensures
        final(out)@ == old(out)@ + binop_debug(op),
{
    match op {
        BinOp::Add => push_str(out, "Add"),
        BinOp::Sub => push_str(out, "Sub"),
        BinOp::Mul => push_str(out, "Mul"),
        BinOp::Div => push_str(out, "Div"),
        BinOp::Eq => push_str(out, "Eq"),
        BinOp::Ne => push_str(out, "Ne"),
        BinOp::Lt => push_str(out, "Lt"),
        BinOp::Le => push_str(out, "Le"),
        BinOp::Gt => push_str(out, "Gt"),
        BinOp::Ge => push_str(out, "Ge"),
        BinOp::And => push_str(out, "And"),
        BinOp::Or => push_str(out, "Or"),
    }
}

} // verus!
