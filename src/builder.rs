use vstd::prelude::*;
use vstd::string::*;
use crate::types::{DataValue, DataSchema, DataField, DataType, ErrorCode, field_index, lemma_field_index};
use crate::expression::{Expression, UnaryOp, BinaryOp, ScalarFunc};
use crate::evaluator::is_comparison;

verus! {

/// Which statistic of a column a synthetic column holds.
#[derive(Clone, Copy, Debug, PartialEq, Eq, Structural)]
pub enum StatType {
    Min,
    Max,
    Nulls,
}

/// A synthetic statistic column: one statistic of the column at
/// `column_index`, exposed under the field `stat_field` (`min_x`, `max_x`,
/// `nulls_x`).
#[derive(Clone, Debug)]
pub struct StatColumn {
    pub column_index: usize,
    pub stat_type: StatType,
    pub stat_field: DataField,
}

pub type StatColumns = Vec<StatColumn>;

pub open spec fn stat_prefix(t: StatType) -> Seq<char> {
    match t {
        StatType::Min => "min_"@,
        StatType::Max => "max_"@,
        StatType::Nulls => "nulls_"@,
    }
}

/// Name of the synthetic column holding statistic `t` of column `name`.
pub open spec fn stat_name(t: StatType, name: Seq<char>) -> Seq<char> {
    stat_prefix(t) + name
}

/// A stat column is valid for `fields` when it names the first field of its
/// column's name, and its field is named and typed after that statistic.
pub open spec fn valid_stat_column(c: StatColumn, fields: Seq<DataField>) -> bool {
    &&& c.column_index < fields.len()
    &&& field_index(fields, fields[c.column_index as int].name@) == Some(c.column_index as int)
    &&& c.stat_field.name@ == stat_name(c.stat_type, fields[c.column_index as int].name@)
    &&& c.stat_field.data_type == (if c.stat_type is Nulls {
        DataType::UInt64
    } else {
        fields[c.column_index as int].data_type
    })
    &&& c.stat_field.nullable
}

pub open spec fn all_valid(cols: Seq<StatColumn>, fields: Seq<DataField>) -> bool {
    forall|i: int| 0 <= i < cols.len() ==> valid_stat_column(#[trigger] cols[i], fields)
}

pub open spec fn stat_key(c: StatColumn) -> (int, StatType) {
    (c.column_index as int, c.stat_type)
}

pub open spec fn stat_keys(cols: Seq<StatColumn>) -> Seq<(int, StatType)> {
    cols.map_values(|c: StatColumn| stat_key(c))
}

pub open spec fn flip(t: StatType) -> StatType {
    match t {
        StatType::Min => StatType::Max,
        StatType::Max => StatType::Min,
        StatType::Nulls => StatType::Nulls,
    }
}

/// The column under a chain of zero or more negations.
pub open spec fn chain_column(e: Expression) -> Option<Seq<char>>
    decreases e,
{
    match e {
        Expression::Column(n) => Some(n@),
        Expression::UnaryExpression { op, expr } => if op == UnaryOp::Negate {
            chain_column(*expr)
        } else {
            None
        },
        _ => None,
    }
}

/// The statistic of the chain's column that gives bound `t` (`Min` for the
/// lower bound, `Max` for the upper bound) of the whole chain: each negation
/// swaps the bounds.
pub open spec fn column_kind(e: Expression, t: StatType) -> StatType
    decreases e,
{
    match e {
        Expression::UnaryExpression { op, expr } => column_kind(*expr, flip(t)),
        _ => t,
    }
}

/// `out` is bound `t` of the chain `e` over column `name`: the chain with
/// its column replaced by the synthetic column of statistic
/// `column_kind(e, t)`; `-(upper of x)` is the lower bound of `-x`.
pub open spec fn bound_of(e: Expression, t: StatType, name: Seq<char>, out: Expression) -> bool
    decreases e,
{
    match e {
        Expression::Column(_) => out matches Expression::Column(s) && s@ == stat_name(t, name),
        Expression::UnaryExpression { op, expr } => match out {
            Expression::UnaryExpression { op: o2, expr: e2 } => op == UnaryOp::Negate && o2
                == UnaryOp::Negate && bound_of(*expr, flip(t), name, *e2),
            _ => false,
        },
        _ => false,
    }
}

pub open spec fn mirror(op: BinaryOp) -> BinaryOp {
    match op {
        BinaryOp::Lt => BinaryOp::Gt,
        BinaryOp::LtEq => BinaryOp::GtEq,
        BinaryOp::Gt => BinaryOp::Lt,
        BinaryOp::GtEq => BinaryOp::LtEq,
        _ => op,
    }
}

/// A comparison between a negation chain and a literal, as
/// `(operator, chain, literal)` with the chain on the left.
pub open spec fn comparison_parts(e: Expression) -> Option<(BinaryOp, Expression, DataValue)> {
    match e {
        Expression::BinaryExpression { left, op, right } => if !is_comparison(op) {
            None
        } else if chain_column(*left) is Some && *right is Literal {
            Some((op, *left, right->Literal_0))
        } else if *left is Literal && chain_column(*right) is Some {
            Some((mirror(op), *right, left->Literal_0))
        } else {
            None
        },
        _ => None,
    }
}

/// The column of a null test `isNull(c)` / `isNotNull(c)` on a bare column.
pub open spec fn null_test_column(e: Expression) -> Option<Seq<char>> {
    match e {
        Expression::ScalarFunction { op, args } => if !(op is Other) && args.len() == 1
            && args[0] is Column {
            Some(args[0]->Column_0@)
        } else {
            None
        },
        _ => None,
    }
}

pub open spec fn is_and_or(op: BinaryOp) -> bool {
    op is And || op is Or
}

pub open spec fn literal_rewrite(v: DataValue) -> DataValue {
    match v {
        DataValue::Null => DataValue::Boolean(false),
        DataValue::Boolean(b) => DataValue::Boolean(b),
        _ => DataValue::Boolean(true),
    }
}

pub open spec fn binary(left: Expression, op: BinaryOp, right: Expression) -> Expression {
    Expression::BinaryExpression { left: Box::new(left), op: op, right: Box::new(right) }
}

/// `out` is `(lower o v)` or `(upper o v)`, as the operator asks.
pub open spec fn bound_compare(
    ch: Expression,
    t: StatType,
    name: Seq<char>,
    o: BinaryOp,
    v: DataValue,
    out: Expression,
) -> bool {
    out matches Expression::BinaryExpression { left: l2, op: o2, right: r2 } && o2 == o
        && bound_of(ch, t, name, *l2) && *r2 == Expression::Literal(v)
}

/// The rewriting of the comparison `ch o v` over column `name`.
pub open spec fn comparison_rewrite(
    o: BinaryOp,
    ch: Expression,
    v: DataValue,
    name: Seq<char>,
    out: Expression,
) -> bool {
    match o {
        BinaryOp::Lt | BinaryOp::LtEq => bound_compare(ch, StatType::Min, name, o, v, out),
        BinaryOp::Gt | BinaryOp::GtEq => bound_compare(ch, StatType::Max, name, o, v, out),
        BinaryOp::Eq => out matches Expression::BinaryExpression { left: l2, op: o2, right: r2 }
            && o2 is And && bound_compare(ch, StatType::Min, name, BinaryOp::LtEq, v, *l2)
            && bound_compare(ch, StatType::Max, name, BinaryOp::GtEq, v, *r2),
        _ => out matches Expression::BinaryExpression { left: l2, op: o2, right: r2 } && o2 is Or
            && bound_compare(ch, StatType::Min, name, BinaryOp::NotEq, v, *l2)
            && bound_compare(ch, StatType::Max, name, BinaryOp::NotEq, v, *r2),
    }
}

/// The rewriting hits a column that is absent from `fields`.
pub open spec fn rewrite_error(e: Expression, fields: Seq<DataField>) -> bool
    decreases e,
{
    match e {
        Expression::BinaryExpression { left, op, right } => if is_and_or(op) {
            rewrite_error(*left, fields) || rewrite_error(*right, fields)
        } else {
            match comparison_parts(e) {
                Some((o, ch, v)) => field_index(fields, chain_column(ch)->0) is None,
                None => false,
            }
        },
        Expression::ScalarFunction { .. } => match null_test_column(e) {
            Some(n) => field_index(fields, n) is None,
            None => false,
        },
        _ => false,
    }
}

/// `out` is the verifiable expression of `e`: an expression over literals
/// and synthetic statistic columns alone.
pub open spec fn rewrites(e: Expression, fields: Seq<DataField>, out: Expression) -> bool
    decreases e,
{
    match e {
        Expression::Literal(v) => out == Expression::Literal(literal_rewrite(v)),
        Expression::BinaryExpression { left, op, right } => if is_and_or(op) {
            out matches Expression::BinaryExpression { left: l2, op: o2, right: r2 } && o2 == op
                && rewrites(*left, fields, *l2) && rewrites(*right, fields, *r2)
        } else {
            match comparison_parts(e) {
                Some((o, ch, v)) => comparison_rewrite(o, ch, v, chain_column(ch)->0, out),
                None => out == Expression::Literal(DataValue::Boolean(true)),
            }
        },
        Expression::ScalarFunction { op, args } => match null_test_column(e) {
            Some(n) => if op is IsNull {
                match out {
                    Expression::BinaryExpression { left: l2, op: o2, right: r2 } => o2 is Gt && (
                    *l2 matches Expression::Column(s) && s@ == stat_name(StatType::Nulls, n)) && *r2
                        == Expression::Literal(DataValue::UInt64(0)),
                    _ => false,
                }
            } else {
                match out {
                    Expression::ScalarFunction { op: o2, args: a2 } => o2 is IsNotNull && a2.len()
                        == 1 && (a2[0] matches Expression::Column(s) && s@ == stat_name(
                        StatType::Min,
                        n,
                    )),
                    _ => false,
                }
            },
            None => out == Expression::Literal(DataValue::Boolean(true)),
        },
        _ => out == Expression::Literal(DataValue::Boolean(true)),
    }
}

/// Records `k` unless it is already recorded.
pub open spec fn add_key(keys: Seq<(int, StatType)>, k: (int, StatType)) -> Seq<(int, StatType)> {
    if keys.contains(k) {
        keys
    } else {
        keys.push(k)
    }
}

/// The stat columns that the comparison `ch o v` on the column at `i` reads.
pub open spec fn comparison_keys(o: BinaryOp, ch: Expression, i: int, keys: Seq<(int, StatType)>) -> Seq<
    (int, StatType),
> {
    let lo = (i, column_kind(ch, StatType::Min));
    let hi = (i, column_kind(ch, StatType::Max));
    match o {
        BinaryOp::Lt | BinaryOp::LtEq => add_key(keys, lo),
        BinaryOp::Gt | BinaryOp::GtEq => add_key(keys, hi),
        _ => add_key(add_key(keys, lo), hi),
    }
}

/// The stat columns recorded while rewriting `e`, after those of `keys`, in
/// first-use order and without repetition.
pub open spec fn collect_keys(e: Expression, fields: Seq<DataField>, keys: Seq<(int, StatType)>) -> Seq<
    (int, StatType),
>
    decreases e,
{
    match e {
        Expression::BinaryExpression { left, op, right } => if is_and_or(op) {
            collect_keys(*right, fields, collect_keys(*left, fields, keys))
        } else {
            match comparison_parts(e) {
                Some((o, ch, v)) => comparison_keys(
                    o,
                    ch,
                    field_index(fields, chain_column(ch)->0)->0,
                    keys,
                ),
                None => keys,
            }
        },
        Expression::ScalarFunction { op, args } => match null_test_column(e) {
            Some(n) => {
                let i = field_index(fields, n)->0;
                if op is IsNull {
                    add_key(keys, (i, StatType::Nulls))
                } else {
                    add_key(keys, (i, StatType::Min))
                }
            },
            None => keys,
        },
        _ => keys,
    }
}

fn stat_name_string(t: StatType, name: &String) -> (r: String)
    ensures
        r@ == stat_name(t, name@),
{
    let mut s = match t {
        StatType::Min => String::from_str("min_"),
        StatType::Max => String::from_str("max_"),
        StatType::Nulls => String::from_str("nulls_"),
    };
    s.append(name.as_str());
    s
}

fn flip_of(t: StatType) -> (r: StatType)
    ensures
        r == flip(t),
{
    match t {
        StatType::Min => StatType::Max,
        StatType::Max => StatType::Min,
        StatType::Nulls => StatType::Nulls,
    }
}

fn chain_name(e: &Expression) -> (r: Option<&String>)
    ensures
        match chain_column(*e) {
            Some(n) => r matches Some(s) && s@ == n,
            None => r is None,
        },
    decreases e,
{
    match e {
        Expression::Column(n) => Some(n),
        Expression::UnaryExpression { op: UnaryOp::Negate, expr } => chain_name(expr),
        _ => None,
    }
}

fn column_kind_of(e: &Expression, t: StatType) -> (r: StatType)
    ensures
        r == column_kind(*e, t),
    decreases e,
{
    match e {
        Expression::UnaryExpression { op: _, expr } => column_kind_of(expr, flip_of(t)),
        _ => t,
    }
}

fn bound_expr(e: &Expression, t: StatType, name: &String) -> (r: Expression)
    requires
        chain_column(*e) is Some,
    ensures
        bound_of(*e, t, name@, r),
    decreases e,
{
    match e {
        Expression::UnaryExpression { op: _, expr } => {
            let inner = bound_expr(expr, flip_of(t), name);
            Expression::UnaryExpression { op: UnaryOp::Negate, expr: Box::new(inner) }
        },
        _ => Expression::Column(stat_name_string(t, name)),
    }
}

/// Records statistic `t` of the column at `idx` unless already recorded.
fn add_stat(cols: &mut Vec<StatColumn>, schema: &DataSchema, idx: usize, t: StatType)
    requires
        all_valid(old(cols)@, schema.fields@),
        idx < schema.fields@.len(),
        field_index(schema.fields@, schema.fields@[idx as int].name@) == Some(idx as int),
    ensures
        all_valid(final(cols)@, schema.fields@),
        stat_keys(final(cols)@) == add_key(stat_keys(old(cols)@), (idx as int, t)),
{
    let mut j: usize = 0;
    while j < cols.len()
        invariant
            0 <= j <= cols@.len(),
            cols@ == old(cols)@,
            all_valid(cols@, schema.fields@),
            forall|k: int| 0 <= k < j ==> stat_keys(cols@)[k] != (idx as int, t),
        decreases cols@.len() - j,
    {
        if cols[j].column_index == idx && cols[j].stat_type == t {
            assert(stat_keys(cols@)[j as int] == (idx as int, t));
            return;
        }
        j = j + 1;
    }
    let field = &schema.fields[idx];
    let data_type = match t {
        StatType::Nulls => DataType::UInt64,
        _ => field.data_type,
    };
    let stat_field = DataField { name: stat_name_string(t, &field.name), data_type, nullable: true };
    let c = StatColumn { column_index: idx, stat_type: t, stat_field };
    let ghost before = cols@;
    cols.push(c);
    assert(stat_keys(cols@) =~= stat_keys(before).push((idx as int, t)));
}

fn comparison_op(op: &BinaryOp) -> (r: Option<BinaryOp>)
    ensures
        is_comparison(*op) ==> r == Some(*op),
        !is_comparison(*op) ==> r is None,
{
    match op {
        BinaryOp::Lt => Some(BinaryOp::Lt),
        BinaryOp::LtEq => Some(BinaryOp::LtEq),
        BinaryOp::Gt => Some(BinaryOp::Gt),
        BinaryOp::GtEq => Some(BinaryOp::GtEq),
        BinaryOp::Eq => Some(BinaryOp::Eq),
        BinaryOp::NotEq => Some(BinaryOp::NotEq),
        _ => None,
    }
}

fn mirror_of(op: BinaryOp) -> (r: BinaryOp)
    ensures
        r == mirror(op),
{
    match op {
        BinaryOp::Lt => BinaryOp::Gt,
        BinaryOp::LtEq => BinaryOp::GtEq,
        BinaryOp::Gt => BinaryOp::Lt,
        BinaryOp::GtEq => BinaryOp::LtEq,
        _ => op,
    }
}

fn comparison_of(e: &Expression) -> (r: Option<(BinaryOp, &Expression, &DataValue)>)
    ensures
        match comparison_parts(*e) {
            Some((o, ch, v)) => r matches Some((o2, ch2, v2)) && o2 == o && *ch2 == ch && *v2 == v,
            None => r is None,
        },
{
    match e {
        Expression::BinaryExpression { left, op, right } => {
            match comparison_op(op) {
                None => None,
                Some(o) => {
                    if chain_name(left).is_some() {
                        if let Expression::Literal(v) = &**right {
                            return Some((o, &**left, v));
                        }
                    }
                    if let Expression::Literal(v) = &**left {
                        if chain_name(right).is_some() {
                            return Some((mirror_of(o), &**right, v));
                        }
                    }
                    None
                },
            }
        },
        _ => None,
    }
}

fn bound_compare_expr(ch: &Expression, t: StatType, name: &String, o: BinaryOp, v: &DataValue) -> (r:
    Expression)
    requires
        chain_column(*ch) is Some,
    ensures
        bound_compare(*ch, t, name@, o, *v, r),
{
    let b = bound_expr(ch, t, name);
    Expression::BinaryExpression { left: Box::new(b), op: o, right: Box::new(Expression::Literal(v.copied())) }
}

fn rewrite_comparison(
    o: BinaryOp,
    ch: &Expression,
    v: &DataValue,
    schema: &DataSchema,
    cols: &mut Vec<StatColumn>,
) -> (r: Result<Expression, ErrorCode>)
    requires
        is_comparison(o),
        chain_column(*ch) is Some,
        all_valid(old(cols)@, schema.fields@),
    ensures
        all_valid(final(cols)@, schema.fields@),
        match r {
            Ok(out) => field_index(schema.fields@, chain_column(*ch)->0) matches Some(i)
                && comparison_rewrite(o, *ch, *v, chain_column(*ch)->0, out) && stat_keys(final(cols)@)
                == comparison_keys(o, *ch, i, stat_keys(old(cols)@)),
            Err(x) => x == ErrorCode::UnknownColumn && field_index(schema.fields@, chain_column(*ch)->0) is None,
        },
{
    let name = match chain_name(ch) {
        Some(n) => n,
        None => {
            return Err(ErrorCode::UnknownColumn);
        },
    };
    let idx = match schema.index_of(name) {
        Ok(i) => i,
        Err(x) => {
            return Err(x);
        },
    };
    proof {
        lemma_field_index(schema.fields@, name@);
    }
    let lo = column_kind_of(ch, StatType::Min);
    let hi = column_kind_of(ch, StatType::Max);
    match o {
        BinaryOp::Lt | BinaryOp::LtEq => {
            add_stat(cols, schema, idx, lo);
            Ok(bound_compare_expr(ch, StatType::Min, name, o, v))
        },
        BinaryOp::Gt | BinaryOp::GtEq => {
            add_stat(cols, schema, idx, hi);
            Ok(bound_compare_expr(ch, StatType::Max, name, o, v))
        },
        BinaryOp::Eq => {
            add_stat(cols, schema, idx, lo);
            add_stat(cols, schema, idx, hi);
            let l = bound_compare_expr(ch, StatType::Min, name, BinaryOp::LtEq, v);
            let r = bound_compare_expr(ch, StatType::Max, name, BinaryOp::GtEq, v);
            Ok(Expression::BinaryExpression { left: Box::new(l), op: BinaryOp::And, right: Box::new(r) })
        },
        _ => {
            add_stat(cols, schema, idx, lo);
            add_stat(cols, schema, idx, hi);
            let l = bound_compare_expr(ch, StatType::Min, name, BinaryOp::NotEq, v);
            let r = bound_compare_expr(ch, StatType::Max, name, BinaryOp::NotEq, v);
            Ok(Expression::BinaryExpression { left: Box::new(l), op: BinaryOp::Or, right: Box::new(r) })
        },
    }
}

fn rewrite_null_test(
    is_null: bool,
    name: &String,
    schema: &DataSchema,
    cols: &mut Vec<StatColumn>,
) -> (r: Result<Expression, ErrorCode>)
    requires
        all_valid(old(cols)@, schema.fields@),
    ensures
        all_valid(final(cols)@, schema.fields@),
        match r {
            Ok(out) => field_index(schema.fields@, name@) matches Some(i) && (if is_null {
                (out matches Expression::BinaryExpression { left: l2, op: o2, right: r2 } && o2 is Gt && (
                *l2 matches Expression::Column(s) && s@ == stat_name(StatType::Nulls, name@)) && *r2
                    == Expression::Literal(DataValue::UInt64(0))) && stat_keys(final(cols)@) == add_key(
                    stat_keys(old(cols)@),
                    (i, StatType::Nulls),
                )
            } else {
                (out matches Expression::ScalarFunction { op: o2, args: a2 } && o2 is IsNotNull && a2.len()
                    == 1 && (a2[0] matches Expression::Column(s) && s@ == stat_name(StatType::Min, name@)))
                    && stat_keys(final(cols)@) == add_key(stat_keys(old(cols)@), (i, StatType::Min))
            }),
            Err(x) => x == ErrorCode::UnknownColumn && field_index(schema.fields@, name@) is None,
        },
{
    let idx = match schema.index_of(name) {
        Ok(i) => i,
        Err(x) => {
            return Err(x);
        },
    };
    proof {
        lemma_field_index(schema.fields@, name@);
    }
    if is_null {
        add_stat(cols, schema, idx, StatType::Nulls);
        let c = Expression::Column(stat_name_string(StatType::Nulls, name));
        Ok(
            Expression::BinaryExpression {
                left: Box::new(c),
                op: BinaryOp::Gt,
                right: Box::new(Expression::Literal(DataValue::UInt64(0))),
            },
        )
    } else {
        add_stat(cols, schema, idx, StatType::Min);
        let c = Expression::Column(stat_name_string(StatType::Min, name));
        Ok(Expression::ScalarFunction { op: ScalarFunc::IsNotNull, args: vec![c] })
    }
}

fn rewrite_expr(e: &Expression, schema: &DataSchema, cols: &mut Vec<StatColumn>) -> (r: Result<
    Expression,
    ErrorCode,
>)
    requires
        all_valid(old(cols)@, schema.fields@),
    ensures
        all_valid(final(cols)@, schema.fields@),
        match r {
            Ok(out) => !rewrite_error(*e, schema.fields@) && rewrites(*e, schema.fields@, out)
                && stat_keys(final(cols)@) == collect_keys(*e, schema.fields@, stat_keys(old(cols)@)),
            Err(x) => x == ErrorCode::UnknownColumn && rewrite_error(*e, schema.fields@),
        },
    decreases e,
{
    match e {
        Expression::Literal(v) => {
            let b = match v {
                DataValue::Null => false,
                DataValue::Boolean(b) => *b,
                _ => true,
            };
            Ok(Expression::Literal(DataValue::Boolean(b)))
        },
        Expression::BinaryExpression { left, op, right } => {
            let and_or: Option<bool> = match op {
                BinaryOp::And => Some(true),
                BinaryOp::Or => Some(false),
                _ => None,
            };
            match and_or {
                Some(is_and) => {
                    let l = match rewrite_expr(left, schema, cols) {
                        Ok(l) => l,
                        Err(x) => {
                            return Err(x);
                        },
                    };
                    let r = match rewrite_expr(right, schema, cols) {
                        Ok(r) => r,
                        Err(x) => {
                            return Err(x);
                        },
                    };
                    let o = if is_and {
                        BinaryOp::And
                    } else {
                        BinaryOp::Or
                    };
                    Ok(Expression::BinaryExpression { left: Box::new(l), op: o, right: Box::new(r) })
                },
                None => match comparison_of(e) {
                    Some((o, ch, v)) => rewrite_comparison(o, ch, v, schema, cols),
                    None => Ok(Expression::Literal(DataValue::Boolean(true))),
                },
            }
        },
        Expression::ScalarFunction { op, args } => {
            let is_null: Option<bool> = match op {
                ScalarFunc::IsNull => Some(true),
                ScalarFunc::IsNotNull => Some(false),
                _ => None,
            };
            if let Some(is_null) = is_null {
                if args.len() == 1 {
                    if let Expression::Column(n) = &args[0] {
                        return rewrite_null_test(is_null, n, schema, cols);
                    }
                }
            }
            Ok(Expression::Literal(DataValue::Boolean(true)))
        },
        _ => Ok(Expression::Literal(DataValue::Boolean(true))),
    }
}

/// Rewrites `expr` into its verifiable expression, recording after the
/// entries of `stat_columns` each statistic column it reads, once, in
/// first-use order. Fails with `UnknownColumn` exactly when a column that the
/// rewriting resolves is absent from `schema`.
pub fn build_verifiable_expr(expr: &Expression, schema: &DataSchema, stat_columns: &mut StatColumns) -> (r:
    Result<Expression, ErrorCode>)
    requires
        all_valid(old(stat_columns)@, schema.fields@),
    ensures
        all_valid(final(stat_columns)@, schema.fields@),
        match r {
            Ok(out) => !rewrite_error(*expr, schema.fields@) && rewrites(*expr, schema.fields@, out)
                && stat_keys(final(stat_columns)@) == collect_keys(
                *expr,
                schema.fields@,
                stat_keys(old(stat_columns)@),
            ),
            Err(x) => x == ErrorCode::UnknownColumn && rewrite_error(*expr, schema.fields@),
        },
{
    rewrite_expr(expr, schema, stat_columns)
}

} // verus!
