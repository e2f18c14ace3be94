//! Data-skipping range filter: rewrites a filter predicate into an expression
//! over per-block statistics (minimum, maximum, null count) and decides from a
//! block's statistics whether the block may hold a matching row.
pub use builder::{build_verifiable_expr, StatColumn, StatColumns, StatType};
pub use evaluator::evaluate;
pub use expression::{col, lit, lit_bool, lit_i64, neg, BinaryOp, Expression, ScalarFunc, UnaryOp};
pub use filter::{BlockStats, ColStats, RangeFilter};
pub use types::{DataField, DataSchema, DataType, DataValue, ErrorCode};

pub mod types;
pub mod expression;
pub mod evaluator;
pub mod builder;
pub mod filter;
pub mod laws;
