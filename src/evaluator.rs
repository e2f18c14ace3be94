use vstd::prelude::*;
use vstd::std_specs::iter::IteratorSpec;
use crate::types::{DataValue, DataSchema, DataField, ErrorCode, field_index, lemma_field_index};
use crate::expression::{Expression, UnaryOp, BinaryOp, ScalarFunc};

verus! {

/// The meaning given to operators and functions that the evaluator treats as
/// opaque (`BinaryOp::Other`, `ScalarFunc::Other`): any function of the whole
/// call expression and the row it is evaluated on.
pub type OpaqueSemantics = spec_fn(Expression, Seq<DataField>, Seq<DataValue>) -> Result<DataValue, ErrorCode>;

/// The executable evaluator knows no opaque function.
pub open spec fn no_opaque() -> OpaqueSemantics {
    |e: Expression, f: Seq<DataField>, r: Seq<DataValue>| Err::<DataValue, ErrorCode>(ErrorCode::UnknownFunction)
}

/// Three-valued truth of a value: `Some(Some(b))` for a boolean, `Some(None)`
/// for null, `None` for a value that is no truth value.
pub open spec fn truth(v: DataValue) -> Option<Option<bool>> {
    match v {
        DataValue::Boolean(b) => Some(Some(b)),
        DataValue::Null => Some(None),
        _ => None,
    }
}

pub open spec fn and_value(l: DataValue, r: DataValue) -> Result<DataValue, ErrorCode> {
    if truth(l) is None || truth(r) is None {
        Err(ErrorCode::BadDataValueType)
    } else if l == DataValue::Boolean(false) || r == DataValue::Boolean(false) {
        Ok(DataValue::Boolean(false))
    } else if l == DataValue::Boolean(true) && r == DataValue::Boolean(true) {
        Ok(DataValue::Boolean(true))
    } else {
        Ok(DataValue::Null)
    }
}

pub open spec fn or_value(l: DataValue, r: DataValue) -> Result<DataValue, ErrorCode> {
    if truth(l) is None || truth(r) is None {
        Err(ErrorCode::BadDataValueType)
    } else if l == DataValue::Boolean(true) || r == DataValue::Boolean(true) {
        Ok(DataValue::Boolean(true))
    } else if l == DataValue::Boolean(false) && r == DataValue::Boolean(false) {
        Ok(DataValue::Boolean(false))
    } else {
        Ok(DataValue::Null)
    }
}

/// Lexicographic comparison of two strings by character code: negative,
/// zero or positive as `a` is before, equal to or after `b`.
pub open spec fn seq_cmp(a: Seq<char>, b: Seq<char>) -> int
    decreases a.len(),
{
    if a.len() == 0 {
        if b.len() == 0 {
            0
        } else {
            -1
        }
    } else if b.len() == 0 {
        1
    } else if a[0] != b[0] {
        if (a[0] as int) < (b[0] as int) {
            -1
        } else {
            1
        }
    } else {
        seq_cmp(a.drop_first(), b.drop_first())
    }
}

/// The ordering keys of two non-null values that can be compared: integers
/// by value, booleans with `false < true`, strings lexicographically (as the
/// sign of their comparison against zero).
pub open spec fn order_keys(l: DataValue, r: DataValue) -> Option<(int, int)> {
    match (l, r) {
        (DataValue::String(a), DataValue::String(b)) => Some((seq_cmp(a@, b@), 0)),
        (DataValue::Int64(a), DataValue::Int64(b)) => Some((a as int, b as int)),
        (DataValue::Int64(a), DataValue::UInt64(b)) => Some((a as int, b as int)),
        (DataValue::UInt64(a), DataValue::Int64(b)) => Some((a as int, b as int)),
        (DataValue::UInt64(a), DataValue::UInt64(b)) => Some((a as int, b as int)),
        (DataValue::Boolean(a), DataValue::Boolean(b)) => Some(
            (if a { 1int } else { 0int }, if b { 1int } else { 0int }),
        ),
        _ => None,
    }
}

pub open spec fn is_comparison(op: BinaryOp) -> bool {
    op is Lt || op is LtEq || op is Gt || op is GtEq || op is Eq || op is NotEq
}

pub open spec fn compare_keys(op: BinaryOp, a: int, b: int) -> bool {
    match op {
        BinaryOp::Lt => a < b,
        BinaryOp::LtEq => a <= b,
        BinaryOp::Gt => a > b,
        BinaryOp::GtEq => a >= b,
        BinaryOp::Eq => a == b,
        _ => a != b,
    }
}

/// A comparison is null when either side is null.
pub open spec fn compare_value(op: BinaryOp, l: DataValue, r: DataValue) -> Result<DataValue, ErrorCode> {
    if l is Null || r is Null {
        Ok(DataValue::Null)
    } else {
        match order_keys(l, r) {
            Some((a, b)) => Ok(DataValue::Boolean(compare_keys(op, a, b))),
            None => Err(ErrorCode::BadDataValueType),
        }
    }
}

pub open spec fn binary_value(op: BinaryOp, l: DataValue, r: DataValue) -> Result<DataValue, ErrorCode> {
    match op {
        BinaryOp::And => and_value(l, r),
        BinaryOp::Or => or_value(l, r),
        BinaryOp::Other(_) => Err(ErrorCode::UnknownFunction),
        _ => compare_value(op, l, r),
    }
}

pub open spec fn unary_value(op: UnaryOp, v: DataValue) -> Result<DataValue, ErrorCode> {
    match (op, v) {
        (_, DataValue::Null) => Ok(DataValue::Null),
        (UnaryOp::Negate, DataValue::Int64(x)) => if x == i64::MIN {
            Err(ErrorCode::Overflow)
        } else {
            Ok(DataValue::Int64((-x) as i64))
        },
        (UnaryOp::Not, DataValue::Boolean(b)) => Ok(DataValue::Boolean(!b)),
        _ => Err(ErrorCode::BadDataValueType),
    }
}

/// Value of `e` on one row whose columns are `fields`; operands are
/// evaluated left to right and the first error is returned.
pub open spec fn eval_expr(
    e: Expression,
    fields: Seq<DataField>,
    row: Seq<DataValue>,
    opaque: OpaqueSemantics,
) -> Result<DataValue, ErrorCode>
    decreases e,
{
    match e {
        Expression::Column(name) => match field_index(fields, name@) {
            Some(i) => if i < row.len() {
                Ok(row[i])
            } else {
                Err(ErrorCode::BadDataValueType)
            },
            None => Err(ErrorCode::UnknownColumn),
        },
        Expression::Literal(v) => Ok(v),
        Expression::UnaryExpression { op, expr } => match eval_expr(*expr, fields, row, opaque) {
            Ok(v) => unary_value(op, v),
            Err(x) => Err(x),
        },
        Expression::BinaryExpression { left, op, right } => if op is Other {
            opaque(e, fields, row)
        } else {
            match eval_expr(*left, fields, row, opaque) {
                Ok(l) => match eval_expr(*right, fields, row, opaque) {
                    Ok(r) => binary_value(op, l, r),
                    Err(x) => Err(x),
                },
                Err(x) => Err(x),
            }
        },
        Expression::ScalarFunction { op, args } => if op is Other {
            opaque(e, fields, row)
        } else if args.len() != 1 {
            Err(ErrorCode::BadArguments)
        } else {
            match eval_expr(args[0], fields, row, opaque) {
                Ok(v) => Ok(DataValue::Boolean(if op is IsNull { v is Null } else { !(v is Null) })),
                Err(x) => Err(x),
            }
        },
    }
}

fn truth_of(v: &DataValue) -> (r: Option<Option<bool>>)
    ensures
        r == truth(*v),
{
    match v {
        DataValue::Boolean(b) => Some(Some(*b)),
        DataValue::Null => Some(None),
        _ => None,
    }
}

fn compare_strings(a: &String, b: &String) -> (r: i8)
    ensures
        r as int == seq_cmp(a@, b@),
{
    let mut ia = a.as_str().chars();
    let mut ib = b.as_str().chars();
    let ghost mut k: int = 0;
    loop
        invariant
            0 <= k <= a@.len(),
            k <= b@.len(),
            ia.remaining() == a@.skip(k),
            ib.remaining() == b@.skip(k),
            seq_cmp(a@, b@) == seq_cmp(a@.skip(k), b@.skip(k)),
        decreases a@.len() - k,
    {
        let ghost sa = a@.skip(k);
        let ghost sb = b@.skip(k);
        let ca = ia.next();
        let cb = ib.next();
        match (ca, cb) {
            (None, None) => {
                return 0;
            },
            (None, Some(_)) => {
                return -1;
            },
            (Some(_), None) => {
                return 1;
            },
            (Some(x), Some(y)) => {
                if x != y {
                    return if x < y {
                        -1
                    } else {
                        1
                    };
                }
            },
        }
        proof {
            assert(sa.drop_first() =~= a@.skip(k + 1));
            assert(sb.drop_first() =~= b@.skip(k + 1));
            k = k + 1;
        }
    }
}

fn order_keys_of(l: &DataValue, r: &DataValue) -> (res: Option<(i128, i128)>)
    ensures
        match order_keys(*l, *r) {
            Some((a, b)) => res matches Some((x, y)) && x == a && y == b,
            None => res is None,
        },
{
    match (l, r) {
        (DataValue::String(a), DataValue::String(b)) => Some((compare_strings(a, b) as i128, 0)),
        (DataValue::Int64(a), DataValue::Int64(b)) => Some((*a as i128, *b as i128)),
        (DataValue::Int64(a), DataValue::UInt64(b)) => Some((*a as i128, *b as i128)),
        (DataValue::UInt64(a), DataValue::Int64(b)) => Some((*a as i128, *b as i128)),
        (DataValue::UInt64(a), DataValue::UInt64(b)) => Some((*a as i128, *b as i128)),
        (DataValue::Boolean(a), DataValue::Boolean(b)) => Some(
            (if *a { 1i128 } else { 0i128 }, if *b { 1i128 } else { 0i128 }),
        ),
        _ => None,
    }
}

fn apply_binary(op: &BinaryOp, l: DataValue, r: DataValue) -> (res: Result<DataValue, ErrorCode>)
    ensures
        res == binary_value(*op, l, r),
{
    match op {
        BinaryOp::And | BinaryOp::Or => {
            let tl = truth_of(&l);
            let tr = truth_of(&r);
            match (tl, tr) {
                (Some(a), Some(b)) => {
                    let is_and = match op {
                        BinaryOp::And => true,
                        _ => false,
                    };
                    let absorbing = !is_and;
                    if a == Some(absorbing) || b == Some(absorbing) {
                        Ok(DataValue::Boolean(absorbing))
                    } else if a == Some(!absorbing) && b == Some(!absorbing) {
                        Ok(DataValue::Boolean(!absorbing))
                    } else {
                        Ok(DataValue::Null)
                    }
                },
                _ => Err(ErrorCode::BadDataValueType),
            }
        },
        BinaryOp::Other(_) => Err(ErrorCode::UnknownFunction),
        _ => {
            if l.is_null() || r.is_null() {
                Ok(DataValue::Null)
            } else {
                match order_keys_of(&l, &r) {
                    Some((a, b)) => {
                        let c = match op {
                            BinaryOp::Lt => a < b,
                            BinaryOp::LtEq => a <= b,
                            BinaryOp::Gt => a > b,
                            BinaryOp::GtEq => a >= b,
                            BinaryOp::Eq => a == b,
                            _ => a != b,
                        };
                        Ok(DataValue::Boolean(c))
                    },
                    None => Err(ErrorCode::BadDataValueType),
                }
            }
        },
    }
}

fn apply_unary(op: UnaryOp, v: DataValue) -> (res: Result<DataValue, ErrorCode>)
    ensures
        res == unary_value(op, v),
{
    match (op, v) {
        (_, DataValue::Null) => Ok(DataValue::Null),
        (UnaryOp::Negate, DataValue::Int64(x)) => if x == i64::MIN {
            Err(ErrorCode::Overflow)
        } else {
            Ok(DataValue::Int64(-x))
        },
        (UnaryOp::Not, DataValue::Boolean(b)) => Ok(DataValue::Boolean(!b)),
        _ => Err(ErrorCode::BadDataValueType),
    }
}

/// Evaluates `expr` on one row whose columns are described by `schema`.
/// Opaque operators and functions fail with `UnknownFunction`.
pub fn evaluate(expr: &Expression, schema: &DataSchema, row: &Vec<DataValue>) -> (r: Result<
    DataValue,
    ErrorCode,
>)
    ensures
        r == eval_expr(*expr, schema.fields@, row@, no_opaque()),
    decreases expr,
{
    match expr {
        Expression::Column(name) => {
            proof {
                lemma_field_index(schema.fields@, name@);
            }
            match schema.index_of(name) {
                Ok(i) => if i < row.len() {
                    Ok(row[i].copied())
                } else {
                    Err(ErrorCode::BadDataValueType)
                },
                Err(x) => Err(x),
            }
        },
        Expression::Literal(v) => Ok(v.copied()),
        Expression::UnaryExpression { op, expr: inner } => {
            match evaluate(inner, schema, row) {
                Ok(v) => apply_unary(*op, v),
                Err(x) => Err(x),
            }
        },
        Expression::BinaryExpression { left, op, right } => {
            if let BinaryOp::Other(_) = op {
                return Err(ErrorCode::UnknownFunction);
            }
            match evaluate(left, schema, row) {
                Ok(l) => match evaluate(right, schema, row) {
                    Ok(r) => apply_binary(op, l, r),
                    Err(x) => Err(x),
                },
                Err(x) => Err(x),
            }
        },
        Expression::ScalarFunction { op, args } => {
            if let ScalarFunc::Other(_) = op {
                return Err(ErrorCode::UnknownFunction);
            }
            if args.len() != 1 {
                return Err(ErrorCode::BadArguments);
            }
            let v = match evaluate(&args[0], schema, row) {
                Ok(v) => v,
                Err(x) => {
                    return Err(x);
                },
            };
            let null = v.is_null();
            let is_null_fn = match op {
                ScalarFunc::IsNull => true,
                _ => false,
            };
            Ok(DataValue::Boolean(if is_null_fn { null } else { !null }))
        },
    }
}

} // verus!
