use vstd::prelude::*;
use std::collections::HashMap;
use crate::types::{DataValue, DataSchema, DataField, ErrorCode};
use crate::expression::Expression;
use crate::evaluator::{eval_expr, evaluate, no_opaque};
use crate::builder::{
    StatType, StatColumn, StatColumns, all_valid, stat_keys, rewrites, rewrite_error, collect_keys,
    build_verifiable_expr,
};

verus! {

broadcast use vstd::std_specs::hash::group_hash_axioms;

/// Statistics of one column in one block.
#[derive(Clone, Debug)]
pub struct ColStats {
    pub min: DataValue,
    pub max: DataValue,
    pub null_count: u64,
}

/// Statistics of one block, by column ordinal; a column may have none.
pub type BlockStats = HashMap<u32, ColStats>;

pub open spec fn stat_value(cs: ColStats, t: StatType) -> DataValue {
    match t {
        StatType::Min => cs.min,
        StatType::Max => cs.max,
        StatType::Nulls => DataValue::UInt64(cs.null_count),
    }
}

pub open spec fn has_stats(c: StatColumn, stats: Map<u32, ColStats>) -> bool {
    c.column_index <= u32::MAX && stats.contains_key(c.column_index as u32)
}

pub open spec fn stat_fields(cols: Seq<StatColumn>) -> Seq<DataField> {
    cols.map_values(|c: StatColumn| c.stat_field)
}

/// The synthetic row: the value of each stat column in this block.
pub open spec fn stat_row(cols: Seq<StatColumn>, stats: Map<u32, ColStats>) -> Seq<DataValue> {
    cols.map_values(|c: StatColumn| stat_value(stats[c.column_index as u32], c.stat_type))
}

/// A null verdict means that the block must be scanned.
pub open spec fn decision(r: Result<DataValue, ErrorCode>) -> Result<bool, ErrorCode> {
    match r {
        Ok(DataValue::Boolean(b)) => Ok(b),
        Ok(DataValue::Null) => Ok(true),
        Ok(_) => Err(ErrorCode::BadDataValueType),
        Err(x) => Err(x),
    }
}

/// Whether a block with statistics `stats` may hold a matching row: `true`
/// whenever a needed statistic is missing, else the verifiable expression
/// evaluated on the synthetic row.
pub open spec fn verdict(expr: Expression, cols: Seq<StatColumn>, stats: Map<u32, ColStats>) -> Result<
    bool,
    ErrorCode,
> {
    if forall|i: int| 0 <= i < cols.len() ==> has_stats(#[trigger] cols[i], stats) {
        decision(eval_expr(expr, stat_fields(cols), stat_row(cols, stats), no_opaque()))
    } else {
        Ok(true)
    }
}

/// A predicate rewritten once, then evaluated against each block's statistics.
pub struct RangeFilter {
    /// The schema of the predicate's columns.
    pub origin: DataSchema,
    /// The schema of the synthetic stat columns.
    pub schema: DataSchema,
    pub verifiable_expr: Expression,
    pub stat_columns: StatColumns,
}

impl RangeFilter {
    pub open spec fn wf(&self) -> bool {
        &&& self.schema.fields@ == stat_fields(self.stat_columns@)
        &&& all_valid(self.stat_columns@, self.origin.fields@)
    }

    /// Builds the filter of `expr`; fails with `UnknownColumn` exactly when
    /// the rewriting resolves a column absent from `schema`.
    pub fn try_create(expr: &Expression, schema: DataSchema) -> (r: Result<RangeFilter, ErrorCode>)
        ensures
            match r {
                Ok(f) => {
                    &&& f.wf()
                    &&& f.origin.fields@ == schema.fields@
                    &&& !rewrite_error(*expr, schema.fields@)
                    &&& rewrites(*expr, schema.fields@, f.verifiable_expr)
                    &&& stat_keys(f.stat_columns@) == collect_keys(*expr, schema.fields@, seq![])
                },
                Err(x) => x == ErrorCode::UnknownColumn && rewrite_error(*expr, schema.fields@),
            },
    {
        let mut stat_columns: StatColumns = Vec::new();
        assert(stat_keys(stat_columns@) =~= seq![]);
        let verifiable_expr = match build_verifiable_expr(expr, &schema, &mut stat_columns) {
            Ok(v) => v,
            Err(x) => {
                return Err(x);
            },
        };
        let mut fields: Vec<DataField> = Vec::new();
        let mut i: usize = 0;
        while i < stat_columns.len()
            invariant
                0 <= i <= stat_columns@.len(),
                fields@ =~= stat_fields(stat_columns@.take(i as int)),
            decreases stat_columns@.len() - i,
        {
            fields.push(stat_columns[i].stat_field.copied());
            assert(stat_columns@.take(i as int + 1) =~= stat_columns@.take(i as int).push(
                stat_columns@[i as int],
            ));
            i = i + 1;
        }
        assert(stat_columns@.take(i as int) =~= stat_columns@);
        Ok(RangeFilter { origin: schema, schema: DataSchema { fields }, verifiable_expr, stat_columns })
    }

    /// `false` only when the block's statistics show that no row can match:
    /// the block may be skipped. Missing statistics give `true`.
    pub fn eval(&self, stats: &BlockStats) -> (r: Result<bool, ErrorCode>)
        requires
            self.wf(),
        ensures
            r == verdict(self.verifiable_expr, self.stat_columns@, stats@),
    {
        let mut row: Vec<DataValue> = Vec::new();
        let mut i: usize = 0;
        while i < self.stat_columns.len()
            invariant
                0 <= i <= self.stat_columns@.len(),
                row@ =~= stat_row(self.stat_columns@.take(i as int), stats@),
                forall|k: int| 0 <= k < i ==> has_stats(#[trigger] self.stat_columns@[k], stats@),
            decreases self.stat_columns@.len() - i,
        {
            let c = &self.stat_columns[i];
            if c.column_index > u32::MAX as usize {
                assert(!has_stats(self.stat_columns@[i as int], stats@));
                return Ok(true);
            }
            let value = match stats.get(&(c.column_index as u32)) {
                Some(cs) => match c.stat_type {
                    StatType::Min => cs.min.copied(),
                    StatType::Max => cs.max.copied(),
                    StatType::Nulls => DataValue::UInt64(cs.null_count),
                },
                None => {
                    assert(!has_stats(self.stat_columns@[i as int], stats@));
                    return Ok(true);
                },
            };
            row.push(value);
            assert(self.stat_columns@.take(i as int + 1) =~= self.stat_columns@.take(i as int).push(
                self.stat_columns@[i as int],
            ));
            i = i + 1;
        }
        assert(self.stat_columns@.take(i as int) =~= self.stat_columns@);
        match evaluate(&self.verifiable_expr, &self.schema, &row) {
            Ok(DataValue::Boolean(b)) => Ok(b),
            Ok(DataValue::Null) => Ok(true),
            Ok(_) => Err(ErrorCode::BadDataValueType),
            Err(x) => Err(x),
        }
    }
}

} // verus!
