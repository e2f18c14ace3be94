use vstd::prelude::*;
use crate::types::{DataValue, DataField, ErrorCode, field_index, lemma_field_index};
use crate::expression::{Expression, UnaryOp, BinaryOp};
use crate::evaluator::{
    OpaqueSemantics, eval_expr, no_opaque, compare_value, order_keys, and_value, is_comparison, seq_cmp,
};
use crate::builder::{
    StatType, StatColumn, all_valid, valid_stat_column, stat_keys, stat_name, stat_prefix, flip,
    chain_column, column_kind, bound_of, mirror, comparison_rewrite, comparison_parts, null_test_column, is_and_or,
    binary, rewrites, rewrite_error, collect_keys, add_key,
};
use crate::filter::{ColStats, has_stats, stat_fields, stat_row, stat_value, verdict};

verus! {

/// `a <= b` holds of two comparable non-null values.
pub open spec fn value_le(a: DataValue, b: DataValue) -> bool {
    compare_value(BinaryOp::LtEq, a, b) == Ok::<DataValue, ErrorCode>(DataValue::Boolean(true))
}

/// Statistics `cs` describe a value `v` of their column: a null is counted,
/// a non-null value lies between the minimum and the maximum.
pub open spec fn describes(cs: ColStats, v: DataValue) -> bool {
    if v is Null {
        cs.null_count > 0
    } else {
        value_le(cs.min, v) && value_le(v, cs.max)
    }
}

/// `row` is a row of a block whose statistics are `stats`: every column that
/// has statistics is described by them.
pub open spec fn row_in_block(fields: Seq<DataField>, row: Seq<DataValue>, stats: Map<u32, ColStats>) -> bool {
    &&& row.len() == fields.len()
    &&& forall|i: int|
        0 <= i < row.len() && i <= u32::MAX && #[trigger] stats.contains_key(i as u32) ==> describes(
            stats[i as u32],
            row[i],
        )
}

/// The stat column `k` is read by the verifiable expression of `e`.
pub open spec fn needs(e: Expression, fields: Seq<DataField>, k: (int, StatType)) -> bool
    decreases e,
{
    match e {
        Expression::BinaryExpression { left, op, right } => if is_and_or(op) {
            needs(*left, fields, k) || needs(*right, fields, k)
        } else {
            match comparison_parts(e) {
                Some((o, ch, v)) => {
                    let i = field_index(fields, chain_column(ch)->0)->0;
                    let lo = (i, column_kind(ch, StatType::Min));
                    let hi = (i, column_kind(ch, StatType::Max));
                    match o {
                        BinaryOp::Lt | BinaryOp::LtEq => k == lo,
                        BinaryOp::Gt | BinaryOp::GtEq => k == hi,
                        _ => k == lo || k == hi,
                    }
                },
                None => false,
            }
        },
        Expression::ScalarFunction { op, args } => match null_test_column(e) {
            Some(n) => k == (
                field_index(fields, n)->0,
                if op is IsNull {
                    StatType::Nulls
                } else {
                    StatType::Min
                },
            ),
            None => false,
        },
        _ => false,
    }
}

proof fn lemma_add_key(keys: Seq<(int, StatType)>, k: (int, StatType))
    ensures
        add_key(keys, k).contains(k),
        forall|j: (int, StatType)| keys.contains(j) ==> add_key(keys, k).contains(j),
{
    if !keys.contains(k) {
        assert(keys.push(k)[keys.len() as int] == k);
        assert forall|j: (int, StatType)| keys.contains(j) implies keys.push(k).contains(j) by {
            let w = choose|w: int| 0 <= w < keys.len() && keys[w] == j;
            assert(keys.push(k)[w] == j);
        }
    }
}

proof fn lemma_collect_covers(e: Expression, fields: Seq<DataField>, keys: Seq<(int, StatType)>)
    ensures
        forall|k: (int, StatType)|
            keys.contains(k) || needs(e, fields, k) ==> #[trigger] collect_keys(e, fields, keys).contains(k),
    decreases e,
{
    match e {
        Expression::BinaryExpression { left, op, right } => {
            if is_and_or(op) {
                let mid = collect_keys(*left, fields, keys);
                lemma_collect_covers(*left, fields, keys);
                lemma_collect_covers(*right, fields, mid);
                assert forall|k: (int, StatType)|
                    keys.contains(k) || needs(e, fields, k) implies #[trigger] collect_keys(
                    e,
                    fields,
                    keys,
                ).contains(k) by {
                    if keys.contains(k) || needs(*left, fields, k) {
                        assert(mid.contains(k));
                    }
                    assert(collect_keys(*right, fields, mid).contains(k));
                    assert(collect_keys(e, fields, keys) == collect_keys(*right, fields, mid));
                }
            } else {
                match comparison_parts(e) {
                    Some((o, ch, v)) => {
                        let i = field_index(fields, chain_column(ch)->0)->0;
                        let lo = (i, column_kind(ch, StatType::Min));
                        let hi = (i, column_kind(ch, StatType::Max));
                        lemma_add_key(keys, lo);
                        lemma_add_key(keys, hi);
                        lemma_add_key(add_key(keys, lo), hi);
                    },
                    None => {},
                }
            }
        },
        Expression::ScalarFunction { op, args } => {
            match null_test_column(e) {
                Some(n) => {
                    let i = field_index(fields, n)->0;
                    lemma_add_key(keys, (i, StatType::Nulls));
                    lemma_add_key(keys, (i, StatType::Min));
                },
                None => {},
            }
        },
        _ => {},
    }
}

/// Distinct statistics, or distinct columns, have distinct synthetic names.
proof fn lemma_stat_name_injective(t1: StatType, n1: Seq<char>, t2: StatType, n2: Seq<char>)
    requires
        stat_name(t1, n1) == stat_name(t2, n2),
    ensures
        t1 == t2,
        n1 == n2,
{
    reveal_strlit("min_");
    reveal_strlit("max_");
    reveal_strlit("nulls_");
    let s = stat_name(t1, n1);
    assert(s[0] == stat_prefix(t1)[0] && s[1] == stat_prefix(t1)[1]);
    assert(s == stat_name(t2, n2));
    assert(stat_name(t2, n2)[0] == stat_prefix(t2)[0] && stat_name(t2, n2)[1] == stat_prefix(t2)[1]);
    assert(t1 == t2);
    let p = stat_prefix(t1);
    assert(n1 =~= s.subrange(p.len() as int, s.len() as int));
    assert(n2 =~= stat_name(t2, n2).subrange(p.len() as int, s.len() as int));
}

/// In the synthetic row, the synthetic column of statistic `t` of column
/// `name` holds that statistic of this block.
proof fn lemma_stat_lookup(
    cols: Seq<StatColumn>,
    fields: Seq<DataField>,
    stats: Map<u32, ColStats>,
    i: int,
    t: StatType,
    name: Seq<char>,
)
    requires
        all_valid(cols, fields),
        forall|j: int| 0 <= j < cols.len() ==> has_stats(#[trigger] cols[j], stats),
        stat_keys(cols).contains((i, t)),
        field_index(fields, name) == Some(i),
    ensures
        field_index(stat_fields(cols), stat_name(t, name)) matches Some(m) && 0 <= m < cols.len()
            && stat_row(cols, stats)[m] == stat_value(stats[i as u32], t),
        0 <= i <= u32::MAX && stats.contains_key(i as u32),
{
    let sf = stat_fields(cols);
    let nm = stat_name(t, name);
    lemma_field_index(fields, name);
    let w = choose|w: int| 0 <= w < stat_keys(cols).len() && stat_keys(cols)[w] == (i, t);
    assert(valid_stat_column(cols[w], fields));
    assert(sf[w].name@ == nm);
    assert(has_stats(cols[w], stats));
    lemma_field_index(sf, nm);
    let m = field_index(sf, nm)->0;
    assert(valid_stat_column(cols[m], fields));
    lemma_stat_name_injective(cols[m].stat_type, fields[cols[m].column_index as int].name@, t, name);
}

proof fn lemma_mirror(op: BinaryOp, a: DataValue, b: DataValue)
    requires
        is_comparison(op),
    ensures
        compare_value(op, a, b) == compare_value(mirror(op), b, a),
        is_comparison(mirror(op)),
{
    if a is String && b is String {
        lemma_cmp_antisym(a->String_0@, b->String_0@);
    }
}

/// A bound of a negation chain evaluated on the synthetic row bounds the
/// chain's value on any row of the block, or fails.
proof fn lemma_chain_bound(
    ch: Expression,
    t: StatType,
    name: Seq<char>,
    out: Expression,
    fields: Seq<DataField>,
    row: Seq<DataValue>,
    cols: Seq<StatColumn>,
    stats: Map<u32, ColStats>,
    opaque: OpaqueSemantics,
    x: DataValue,
)
    requires
        t is Min || t is Max,
        chain_column(ch) == Some(name),
        field_index(fields, name) is Some,
        bound_of(ch, t, name, out),
        stat_keys(cols).contains((field_index(fields, name)->0, column_kind(ch, t))),
        row_in_block(fields, row, stats),
        all_valid(cols, fields),
        forall|j: int| 0 <= j < cols.len() ==> has_stats(#[trigger] cols[j], stats),
        eval_expr(ch, fields, row, opaque) == Ok::<DataValue, ErrorCode>(x),
        !(x is Null),
    ensures
        match eval_expr(out, stat_fields(cols), stat_row(cols, stats), no_opaque()) {
            Ok(y) => if t is Min {
                value_le(y, x)
            } else {
                value_le(x, y)
            },
            Err(_) => true,
        },
    decreases ch,
{
    let i = field_index(fields, name)->0;
    lemma_field_index(fields, name);
    match ch {
        Expression::Column(n) => {
            lemma_stat_lookup(cols, fields, stats, i, t, name);
            assert(row[i] == x);
            assert(describes(stats[i as u32], row[i]));
        },
        Expression::UnaryExpression { op, expr } => {
            match out {
                Expression::UnaryExpression { op: o2, expr: e2 } => {
                    match eval_expr(*expr, fields, row, opaque) {
                        Ok(x0) => {
                            lemma_chain_bound(*expr, flip(t), name, *e2, fields, row, cols, stats, opaque, x0);
                        },
                        Err(_) => {},
                    }
                },
                _ => {},
            }
        },
        _ => {},
    }
}

pub open spec fn value_class(v: DataValue) -> int {
    match v {
        DataValue::Int64(_) | DataValue::UInt64(_) => 1,
        DataValue::Boolean(_) => 2,
        DataValue::String(_) => 3,
        _ => 0,
    }
}

pub open spec fn value_key(v: DataValue) -> int {
    match v {
        DataValue::Int64(a) => a as int,
        DataValue::UInt64(a) => a as int,
        DataValue::Boolean(b) => if b {
            1
        } else {
            0
        },
        _ => 0,
    }
}

proof fn lemma_keys(a: DataValue, b: DataValue)
    ensures
        order_keys(a, b) == (if value_class(a) != 0 && value_class(a) == value_class(b) {
            if value_class(a) == 3 {
                Some((seq_cmp(a->String_0@, b->String_0@), 0))
            } else {
                Some((value_key(a), value_key(b)))
            }
        } else {
            None
        }),
{
}

/// Swapping the strings negates their comparison.
pub proof fn lemma_cmp_antisym(a: Seq<char>, b: Seq<char>)
    ensures
        seq_cmp(b, a) == -seq_cmp(a, b),
    decreases a.len(),
{
    if a.len() > 0 && b.len() > 0 {
        if a[0] == b[0] {
            lemma_cmp_antisym(a.drop_first(), b.drop_first());
        } else {
            assert((a[0] as int) != (b[0] as int));
        }
    }
}

/// Two strings compare equal exactly when they are equal.
pub proof fn lemma_cmp_zero(a: Seq<char>, b: Seq<char>)
    ensures
        (seq_cmp(a, b) == 0) == (a == b),
    decreases a.len(),
{
    if a.len() == 0 || b.len() == 0 {
        if a.len() == 0 && b.len() == 0 {
            assert(a =~= b);
        }
    } else if a[0] == b[0] {
        lemma_cmp_zero(a.drop_first(), b.drop_first());
        if a.drop_first() == b.drop_first() {
            assert forall|i: int| 0 <= i < a.len() implies a[i] == b[i] by {
                if i > 0 {
                    assert(a[i] == a.drop_first()[i - 1]);
                    assert(b[i] == b.drop_first()[i - 1]);
                }
            }
            assert(a =~= b);
        }
    }
}

/// The lexicographic order is transitive.
pub proof fn lemma_cmp_trans(a: Seq<char>, b: Seq<char>, c: Seq<char>)
    requires
        seq_cmp(a, b) <= 0,
        seq_cmp(b, c) <= 0,
    ensures
        seq_cmp(a, c) <= 0,
    decreases a.len(),
{
    if a.len() > 0 && b.len() > 0 && c.len() > 0 && a[0] == b[0] && b[0] == c[0] {
        lemma_cmp_trans(a.drop_first(), b.drop_first(), c.drop_first());
    }
}

/// The order facts on strings that the comparison rewriting relies on, for
/// `y <= x <= z` compared with `v`.
proof fn lemma_string_order(y: Seq<char>, x: Seq<char>, z: Seq<char>, v: Seq<char>)
    ensures
        seq_cmp(y, x) <= 0 && seq_cmp(x, v) < 0 ==> seq_cmp(y, v) < 0,
        seq_cmp(y, x) <= 0 && seq_cmp(x, v) <= 0 ==> seq_cmp(y, v) <= 0,
        seq_cmp(x, z) <= 0 && seq_cmp(x, v) > 0 ==> seq_cmp(z, v) > 0,
        seq_cmp(x, z) <= 0 && seq_cmp(x, v) >= 0 ==> seq_cmp(z, v) >= 0,
        seq_cmp(y, x) <= 0 && seq_cmp(x, z) <= 0 && seq_cmp(x, v) != 0 ==> seq_cmp(y, v) != 0
            || seq_cmp(z, v) != 0,
{
    lemma_cmp_antisym(x, v);
    lemma_cmp_antisym(y, v);
    lemma_cmp_antisym(z, v);
    lemma_cmp_antisym(x, y);
    lemma_cmp_zero(y, v);
    lemma_cmp_zero(z, v);
    lemma_cmp_zero(x, v);
    lemma_cmp_zero(x, y);
    if seq_cmp(y, x) <= 0 && seq_cmp(x, v) <= 0 {
        lemma_cmp_trans(y, x, v);
    }
    if seq_cmp(x, z) <= 0 && seq_cmp(x, v) >= 0 {
        lemma_cmp_trans(v, x, z);
        lemma_cmp_antisym(v, z);
    }
}

/// The order facts on values that the comparison rewriting relies on, for
/// `y <= x <= z` compared with `v`.
proof fn lemma_order_laws(o: BinaryOp, y: DataValue, x: DataValue, z: DataValue, v: DataValue)
    ensures
        (o is Lt || o is LtEq) && value_le(y, x) && compare_value(o, x, v) == Ok::<DataValue, ErrorCode>(
            DataValue::Boolean(true),
        ) ==> compare_value(o, y, v) == Ok::<DataValue, ErrorCode>(DataValue::Boolean(true)),
        (o is Gt || o is GtEq) && value_le(x, z) && compare_value(o, x, v) == Ok::<DataValue, ErrorCode>(
            DataValue::Boolean(true),
        ) ==> compare_value(o, z, v) == Ok::<DataValue, ErrorCode>(DataValue::Boolean(true)),
        value_le(y, x) && value_le(x, z) && compare_value(BinaryOp::Eq, x, v) == Ok::<DataValue, ErrorCode>(
            DataValue::Boolean(true),
        ) ==> compare_value(BinaryOp::LtEq, y, v) == Ok::<DataValue, ErrorCode>(DataValue::Boolean(true))
            && compare_value(BinaryOp::GtEq, z, v) == Ok::<DataValue, ErrorCode>(DataValue::Boolean(true)),
        value_le(y, x) && value_le(x, z) && compare_value(BinaryOp::NotEq, x, v) == Ok::<
            DataValue,
            ErrorCode,
        >(DataValue::Boolean(true)) ==> compare_value(BinaryOp::NotEq, y, v) == Ok::<DataValue, ErrorCode>(
            DataValue::Boolean(true),
        ) || compare_value(BinaryOp::NotEq, z, v) == Ok::<DataValue, ErrorCode>(DataValue::Boolean(true)),
{
    lemma_keys(y, x);
    lemma_keys(x, z);
    lemma_keys(x, v);
    lemma_keys(y, v);
    lemma_keys(z, v);
    if x is String && v is String {
        let empty: Seq<char> = seq![];
        let ys = if y is String {
            y->String_0@
        } else {
            empty
        };
        let zs = if z is String {
            z->String_0@
        } else {
            empty
        };
        lemma_string_order(ys, x->String_0@, zs, v->String_0@);
    }
}

/// A comparison of a bound with the literal is not false where the
/// comparison of a value between the bounds holds.
proof fn lemma_comparison_sound(
    o: BinaryOp,
    ch: Expression,
    v: DataValue,
    name: Seq<char>,
    out: Expression,
    fields: Seq<DataField>,
    row: Seq<DataValue>,
    cols: Seq<StatColumn>,
    stats: Map<u32, ColStats>,
    opaque: OpaqueSemantics,
    x: DataValue,
)
    requires
        is_comparison(o),
        chain_column(ch) == Some(name),
        field_index(fields, name) is Some,
        comparison_rewrite(o, ch, v, name, out),
        !(o is Gt || o is GtEq) ==> stat_keys(cols).contains(
            (field_index(fields, name)->0, column_kind(ch, StatType::Min)),
        ),
        !(o is Lt || o is LtEq) ==> stat_keys(cols).contains(
            (field_index(fields, name)->0, column_kind(ch, StatType::Max)),
        ),
        row_in_block(fields, row, stats),
        all_valid(cols, fields),
        forall|j: int| 0 <= j < cols.len() ==> has_stats(#[trigger] cols[j], stats),
        eval_expr(ch, fields, row, opaque) == Ok::<DataValue, ErrorCode>(x),
        compare_value(o, x, v) == Ok::<DataValue, ErrorCode>(DataValue::Boolean(true)),
    ensures
        eval_expr(out, stat_fields(cols), stat_row(cols, stats), no_opaque()) != Ok::<
            DataValue,
            ErrorCode,
        >(DataValue::Boolean(false)),
{
    let sf = stat_fields(cols);
    let sr = stat_row(cols, stats);
    match out {
        Expression::BinaryExpression { left: l2, op: o2, right: r2 } => {
            if o is Lt || o is LtEq || o is Gt || o is GtEq {
                let t = if o is Lt || o is LtEq {
                    StatType::Min
                } else {
                    StatType::Max
                };
                lemma_chain_bound(ch, t, name, *l2, fields, row, cols, stats, opaque, x);
                match eval_expr(*l2, sf, sr, no_opaque()) {
                    Ok(y) => {
                        lemma_order_laws(o, y, x, y, v);
                        assert(eval_expr(*r2, sf, sr, no_opaque()) == Ok::<DataValue, ErrorCode>(v));
                        assert(compare_value(o, y, v) == Ok::<DataValue, ErrorCode>(DataValue::Boolean(true)));
                    },
                    Err(_) => {
                    },
                }
            } else {
                match (*l2, *r2) {
                    (
                        Expression::BinaryExpression { left: ll, op: lo2, right: lr },
                        Expression::BinaryExpression { left: rl, op: ro2, right: rr },
                    ) => {
                        lemma_chain_bound(ch, StatType::Min, name, *ll, fields, row, cols, stats, opaque, x);
                        lemma_chain_bound(ch, StatType::Max, name, *rl, fields, row, cols, stats, opaque, x);
                        let ey = eval_expr(*ll, sf, sr, no_opaque());
                        let ez = eval_expr(*rl, sf, sr, no_opaque());
                        if ey is Ok && ez is Ok {
                            let y = ey->Ok_0;
                            let z = ez->Ok_0;
                            lemma_order_laws(o, y, x, z, v);
                            let cy = compare_value(lo2, y, v);
                            let cz = compare_value(ro2, z, v);
                            if o is Eq {
                                assert(cy == Ok::<DataValue, ErrorCode>(DataValue::Boolean(true)));
                                assert(cz == Ok::<DataValue, ErrorCode>(DataValue::Boolean(true)));
                            } else {
                                assert(cy == Ok::<DataValue, ErrorCode>(DataValue::Boolean(true))
                                    || cz == Ok::<DataValue, ErrorCode>(DataValue::Boolean(true)));
                            }
                            assert(eval_expr(*lr, sf, sr, no_opaque()) == Ok::<DataValue, ErrorCode>(v));
                            assert(eval_expr(*rr, sf, sr, no_opaque()) == Ok::<DataValue, ErrorCode>(v));
                            assert(eval_expr(*l2, sf, sr, no_opaque()) == cy);
                            assert(eval_expr(*r2, sf, sr, no_opaque()) == cz);
                        } else {
                        }
                    },
                    _ => {},
                }
            }
        },
        _ => {},
    }
}

proof fn lemma_null_test_sound(
    e: Expression,
    out: Expression,
    fields: Seq<DataField>,
    row: Seq<DataValue>,
    cols: Seq<StatColumn>,
    stats: Map<u32, ColStats>,
    opaque: OpaqueSemantics,
)
    requires
        e is ScalarFunction,
        null_test_column(e) is Some,
        rewrites(e, fields, out),
        !rewrite_error(e, fields),
        all_valid(cols, fields),
        forall|j: int| 0 <= j < cols.len() ==> has_stats(#[trigger] cols[j], stats),
        forall|k: (int, StatType)| needs(e, fields, k) ==> #[trigger] stat_keys(cols).contains(k),
        row_in_block(fields, row, stats),
        eval_expr(e, fields, row, opaque) == Ok::<DataValue, ErrorCode>(DataValue::Boolean(true)),
    ensures
        eval_expr(out, stat_fields(cols), stat_row(cols, stats), no_opaque()) == Ok::<
            DataValue,
            ErrorCode,
        >(DataValue::Boolean(true)),
{
    let sf = stat_fields(cols);
    let sr = stat_row(cols, stats);
    let n = null_test_column(e)->0;
    let i = field_index(fields, n)->0;
    lemma_field_index(fields, n);
    match e {
        Expression::ScalarFunction { op, args } => {
            assert(eval_expr(args[0], fields, row, opaque) == Ok::<DataValue, ErrorCode>(
                row[i],
            ));
            let t = if op is IsNull {
                StatType::Nulls
            } else {
                StatType::Min
            };
            assert(needs(e, fields, (i, t)));
            lemma_stat_lookup(cols, fields, stats, i, t, n);
            assert(describes(stats[i as u32], row[i]));
            assert(sr.len() == cols.len());
            let sv = stat_value(stats[i as u32], t);
            match out {
                Expression::BinaryExpression { left: l2, op: o2, right: r2 } => {
                    assert(eval_expr(*l2, sf, sr, no_opaque()) == Ok::<DataValue, ErrorCode>(sv));
                    assert(eval_expr(*r2, sf, sr, no_opaque()) == Ok::<DataValue, ErrorCode>(
                        DataValue::UInt64(0),
                    ));
                },
                Expression::ScalarFunction { op: o2, args: a2 } => {
                    assert(eval_expr(a2[0], sf, sr, no_opaque()) == Ok::<DataValue, ErrorCode>(sv));
                },
                _ => {},
            }
        },
        _ => {},
    }
}

/// Soundness of the rewriting, expression by expression: where `e` holds on
/// a row of the block, its verifiable expression is not false on the
/// block's synthetic row.
proof fn lemma_sound_rec(
    e: Expression,
    out: Expression,
    fields: Seq<DataField>,
    row: Seq<DataValue>,
    cols: Seq<StatColumn>,
    stats: Map<u32, ColStats>,
    opaque: OpaqueSemantics,
)
    requires
        rewrites(e, fields, out),
        !rewrite_error(e, fields),
        all_valid(cols, fields),
        forall|j: int| 0 <= j < cols.len() ==> has_stats(#[trigger] cols[j], stats),
        forall|k: (int, StatType)| needs(e, fields, k) ==> #[trigger] stat_keys(cols).contains(k),
        row_in_block(fields, row, stats),
        eval_expr(e, fields, row, opaque) == Ok::<DataValue, ErrorCode>(DataValue::Boolean(true)),
    ensures
        eval_expr(out, stat_fields(cols), stat_row(cols, stats), no_opaque()) != Ok::<
            DataValue,
            ErrorCode,
        >(DataValue::Boolean(false)),
    decreases e,
{
    let sf = stat_fields(cols);
    let sr = stat_row(cols, stats);
    match e {
        Expression::BinaryExpression { left, op, right } => {
            if is_and_or(op) {
                match out {
                    Expression::BinaryExpression { left: l2, op: o2, right: r2 } => {
                        let lv = eval_expr(*left, fields, row, opaque);
                        let rv = eval_expr(*right, fields, row, opaque);
                        if op is And {
                            lemma_sound_rec(*left, *l2, fields, row, cols, stats, opaque);
                            lemma_sound_rec(*right, *r2, fields, row, cols, stats, opaque);
                        } else {
                            if lv == Ok::<DataValue, ErrorCode>(DataValue::Boolean(true)) {
                                lemma_sound_rec(*left, *l2, fields, row, cols, stats, opaque);
                            } else {
                                lemma_sound_rec(*right, *r2, fields, row, cols, stats, opaque);
                            }
                        }
                    },
                    _ => {},
                }
            } else {
                match comparison_parts(e) {
                    Some((o, ch, v)) => {
                        let name = chain_column(ch)->0;
                        let i = field_index(fields, name)->0;
                        let lv = eval_expr(*left, fields, row, opaque)->Ok_0;
                        let rv = eval_expr(*right, fields, row, opaque)->Ok_0;
                        let x = if chain_column(*left) is Some && *right is Literal {
                            lv
                        } else {
                            rv
                        };
                        if chain_column(*left) is Some && *right is Literal {
                            assert(compare_value(o, x, v) == Ok::<DataValue, ErrorCode>(
                                DataValue::Boolean(true),
                            ));
                        } else {
                            lemma_mirror(op, lv, rv);
                        }
                        assert(compare_value(o, x, v) == Ok::<DataValue, ErrorCode>(
                            DataValue::Boolean(true),
                        ));
                        let lo = (i, column_kind(ch, StatType::Min));
                        let hi = (i, column_kind(ch, StatType::Max));
                        if !(o is Gt || o is GtEq) {
                            assert(needs(e, fields, lo));
                        }
                        if !(o is Lt || o is LtEq) {
                            assert(needs(e, fields, hi));
                        }
                        lemma_comparison_sound(o, ch, v, name, out, fields, row, cols, stats, opaque, x);
                    },
                    None => {},
                }
            }
        },
        Expression::ScalarFunction { .. } => {
            if null_test_column(e) is Some {
                lemma_null_test_sound(e, out, fields, row, cols, stats, opaque);
            }
        },
        _ => {},
    }
}

/// Soundness: where a predicate holds on some row of a block, the filter
/// built from it never answers `false` (skip) for that block's statistics,
/// whatever the opaque functions in the predicate mean: it answers `true`
/// (scan), or an evaluation error (a type mismatch, or negating the smallest
/// integer bound) is passed on to the caller.
pub proof fn lemma_soundness(
    p: Expression,
    fields: Seq<DataField>,
    out: Expression,
    cols: Seq<StatColumn>,
    row: Seq<DataValue>,
    stats: Map<u32, ColStats>,
    opaque: OpaqueSemantics,
)
    requires
        !rewrite_error(p, fields),
        rewrites(p, fields, out),
        all_valid(cols, fields),
        stat_keys(cols) == collect_keys(p, fields, seq![]),
        row_in_block(fields, row, stats),
        eval_expr(p, fields, row, opaque) == Ok::<DataValue, ErrorCode>(DataValue::Boolean(true)),
    ensures
        verdict(out, cols, stats) != Ok::<bool, ErrorCode>(false),
        verdict(out, cols, stats) == Ok::<bool, ErrorCode>(true) || verdict(out, cols, stats) is Err,
{
    if forall|i: int| 0 <= i < cols.len() ==> has_stats(#[trigger] cols[i], stats) {
        lemma_collect_covers(p, fields, seq![]);
        lemma_sound_rec(p, out, fields, row, cols, stats, opaque);
    }
}

/// The verifiable expression of `a and b` is the conjunction of those of `a`
/// and `b`; the rewriting fails exactly when one of theirs fails, and records
/// the stat columns of `a`, then those of `b`.
pub proof fn lemma_and_distributes(
    a: Expression,
    b: Expression,
    fields: Seq<DataField>,
    ra: Expression,
    rb: Expression,
    keys: Seq<(int, StatType)>,
)
    requires
        rewrites(a, fields, ra),
        rewrites(b, fields, rb),
    ensures
        rewrites(binary(a, BinaryOp::And, b), fields, binary(ra, BinaryOp::And, rb)),
        rewrite_error(binary(a, BinaryOp::And, b), fields) == (rewrite_error(a, fields)
            || rewrite_error(b, fields)),
        collect_keys(binary(a, BinaryOp::And, b), fields, keys) == collect_keys(
            b,
            fields,
            collect_keys(a, fields, keys),
        ),
{
}

/// The verifiable expression of `a or b` is the disjunction of those of `a`
/// and `b`; the rewriting fails exactly when one of theirs fails, and records
/// the stat columns of `a`, then those of `b`.
pub proof fn lemma_or_distributes(
    a: Expression,
    b: Expression,
    fields: Seq<DataField>,
    ra: Expression,
    rb: Expression,
    keys: Seq<(int, StatType)>,
)
    requires
        rewrites(a, fields, ra),
        rewrites(b, fields, rb),
    ensures
        rewrites(binary(a, BinaryOp::Or, b), fields, binary(ra, BinaryOp::Or, rb)),
        rewrite_error(binary(a, BinaryOp::Or, b), fields) == (rewrite_error(a, fields)
            || rewrite_error(b, fields)),
        collect_keys(binary(a, BinaryOp::Or, b), fields, keys) == collect_keys(
            b,
            fields,
            collect_keys(a, fields, keys),
        ),
{
}

/// `v > -c` is rewritten to `(-max_c) < v`: the lower bound of `-c` is the
/// negated maximum of `c`, compared with the mirrored operator, and the
/// maximum of `c` is the one stat column recorded.
pub proof fn lemma_negation_flips(c: Expression, v: DataValue, fields: Seq<DataField>, out: Expression)
    requires
        c is Column,
        field_index(fields, c->Column_0@) is Some,
        rewrites(
            binary(
                Expression::Literal(v),
                BinaryOp::Gt,
                Expression::UnaryExpression { op: UnaryOp::Negate, expr: Box::new(c) },
            ),
            fields,
            out,
        ),
    ensures
        out matches Expression::BinaryExpression { left, op, right } && op is Lt && *right
            == Expression::Literal(v) && (*left matches Expression::UnaryExpression {
            op: UnaryOp::Negate,
            expr,
        } && (*expr matches Expression::Column(s) && s@ == stat_name(StatType::Max, c->Column_0@))),
        collect_keys(
            binary(
                Expression::Literal(v),
                BinaryOp::Gt,
                Expression::UnaryExpression { op: UnaryOp::Negate, expr: Box::new(c) },
            ),
            fields,
            seq![],
        ) == seq![(field_index(fields, c->Column_0@)->0, StatType::Max)],
{
    let e = binary(
        Expression::Literal(v),
        BinaryOp::Gt,
        Expression::UnaryExpression { op: UnaryOp::Negate, expr: Box::new(c) },
    );
    let ch = Expression::UnaryExpression { op: UnaryOp::Negate, expr: Box::new(c) };
    assert(chain_column(c) == Some(c->Column_0@));
    assert(chain_column(ch) == Some(c->Column_0@));
    assert(comparison_parts(e) == Some((BinaryOp::Lt, ch, v)));
    assert(column_kind(c, StatType::Max) == StatType::Max);
    assert(column_kind(ch, StatType::Min) == StatType::Max);
    assert(comparison_rewrite(BinaryOp::Lt, ch, v, c->Column_0@, out));
    match out {
        Expression::BinaryExpression { left, op, right } => {
            assert(bound_of(ch, StatType::Min, c->Column_0@, *left));
            match *left {
                Expression::UnaryExpression { op: o2, expr: e2 } => {
                    assert(bound_of(c, StatType::Max, c->Column_0@, *e2));
                },
                _ => {},
            }
        },
        _ => {},
    }
    let empty: Seq<(int, StatType)> = seq![];
    assert(!empty.contains((field_index(fields, c->Column_0@)->0, StatType::Max)));
    assert(empty.push((field_index(fields, c->Column_0@)->0, StatType::Max)) =~= seq![
        (field_index(fields, c->Column_0@)->0, StatType::Max),
    ]);
}

/// A predicate that is the null literal lets every block be skipped, whatever
/// its statistics.
pub proof fn lemma_null_literal_skips(
    fields: Seq<DataField>,
    out: Expression,
    cols: Seq<StatColumn>,
    stats: Map<u32, ColStats>,
)
    requires
        rewrites(Expression::Literal(DataValue::Null), fields, out),
        stat_keys(cols) == collect_keys(Expression::Literal(DataValue::Null), fields, seq![]),
    ensures
        verdict(out, cols, stats) == Ok::<bool, ErrorCode>(false),
{
    assert(stat_keys(cols).len() == cols.len());
    assert(cols.len() == 0);
}

/// An opaque call conjoined with a predicate `p` is rewritten to
/// `(p' and true)`, where `p'` is the verifiable expression of `p`, and the
/// filter decides every block exactly as it would on `p'` alone.
pub proof fn lemma_opaque_conjunct(
    p: Expression,
    f: Expression,
    fields: Seq<DataField>,
    out: Expression,
    cols: Seq<StatColumn>,
    stats: Map<u32, ColStats>,
)
    requires
        (f matches Expression::ScalarFunction { op, .. } && op is Other) || (
        f matches Expression::BinaryExpression { op, .. } && op is Other),
        rewrites(binary(p, BinaryOp::And, f), fields, out),
    ensures
        out matches Expression::BinaryExpression { left, op, right } && op is And && rewrites(
            p,
            fields,
            *left,
        ) && *right == Expression::Literal(DataValue::Boolean(true)) && verdict(out, cols, stats)
            == verdict(*left, cols, stats),
{
    assert(comparison_parts(f) is None);
    assert(null_test_column(f) is None);
    match out {
        Expression::BinaryExpression { left, op, right } => {
            assert(rewrites(f, fields, *right));
            assert(*right == Expression::Literal(DataValue::Boolean(true)));
            let sf = stat_fields(cols);
            let sr = stat_row(cols, stats);
            assert(eval_expr(*right, sf, sr, no_opaque()) == Ok::<DataValue, ErrorCode>(
                DataValue::Boolean(true),
            ));
            match eval_expr(*left, sf, sr, no_opaque()) {
                Ok(lv) => {
                    assert(eval_expr(out, sf, sr, no_opaque()) == and_value(lv, DataValue::Boolean(true)));
                },
                Err(_) => {},
            }
        },
        _ => {},
    }
}

} // verus!
