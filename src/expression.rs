use vstd::prelude::*;
use crate::types::DataValue;

verus! {

#[derive(Clone, Copy, Debug, PartialEq, Eq, Structural)]
pub enum UnaryOp {
    Negate,
    Not,
}

#[derive(Clone, Debug)]
pub enum BinaryOp {
    Lt,
    LtEq,
    Gt,
    GtEq,
    Eq,
    NotEq,
    And,
    Or,
    /// A named operator whose meaning is opaque to the rewriting (e.g. `like`).
    Other(String),
}

#[derive(Clone, Debug)]
pub enum ScalarFunc {
    IsNull,
    IsNotNull,
    /// A named function whose meaning is opaque to the rewriting.
    Other(String),
}

/// A predicate or value expression.
#[derive(Debug)]
pub enum Expression {
    Column(String),
    Literal(DataValue),
    UnaryExpression { op: UnaryOp, expr: Box<Expression> },
    BinaryExpression { left: Box<Expression>, op: BinaryOp, right: Box<Expression> },
    ScalarFunction { op: ScalarFunc, args: Vec<Expression> },
}

pub fn col(name: &str) -> (r: Expression)
    ensures
        r matches Expression::Column(n) && n@ == name@,
{
    Expression::Column(name.to_owned())
}

pub fn lit(value: DataValue) -> (r: Expression)
    ensures
        r == Expression::Literal(value),
{
    Expression::Literal(value)
}

pub fn lit_i64(value: i64) -> (r: Expression)
    ensures
        r == Expression::Literal(DataValue::Int64(value)),
{
    Expression::Literal(DataValue::Int64(value))
}

pub fn lit_bool(value: bool) -> (r: Expression)
    ensures
        r == Expression::Literal(DataValue::Boolean(value)),
{
    Expression::Literal(DataValue::Boolean(value))
}

pub fn neg(expr: Expression) -> (r: Expression)
    ensures
        r == (Expression::UnaryExpression { op: UnaryOp::Negate, expr: Box::new(expr) }),
{
    Expression::UnaryExpression { op: UnaryOp::Negate, expr: Box::new(expr) }
}

impl Expression {
    pub fn create_binary_expression(op: BinaryOp, left: Expression, right: Expression) -> (r:
        Expression)
        ensures
            r == (Expression::BinaryExpression {
                left: Box::new(left),
                op: op,
                right: Box::new(right),
            }),
    {
        Expression::BinaryExpression { left: Box::new(left), op, right: Box::new(right) }
    }

    pub fn create_scalar_function(op: ScalarFunc, args: Vec<Expression>) -> (r: Expression)
        ensures
            r == (Expression::ScalarFunction { op: op, args: args }),
    {
        Expression::ScalarFunction { op, args }
    }

    pub fn create_literal(value: DataValue) -> (r: Expression)
        ensures
            r == Expression::Literal(value),
    {
        Expression::Literal(value)
    }

    pub fn lt(self, other: Expression) -> (r: Expression)
        ensures
            r == Expression::create_binary_spec(BinaryOp::Lt, self, other),
    {
        Expression::create_binary_expression(BinaryOp::Lt, self, other)
    }

    pub fn lt_eq(self, other: Expression) -> (r: Expression)
        ensures
            r == Expression::create_binary_spec(BinaryOp::LtEq, self, other),
    {
        Expression::create_binary_expression(BinaryOp::LtEq, self, other)
    }

    pub fn gt(self, other: Expression) -> (r: Expression)
        ensures
            r == Expression::create_binary_spec(BinaryOp::Gt, self, other),
    {
        Expression::create_binary_expression(BinaryOp::Gt, self, other)
    }

    pub fn gt_eq(self, other: Expression) -> (r: Expression)
        ensures
            r == Expression::create_binary_spec(BinaryOp::GtEq, self, other),
    {
        Expression::create_binary_expression(BinaryOp::GtEq, self, other)
    }

    pub fn eq(self, other: Expression) -> (r: Expression)
        ensures
            r == Expression::create_binary_spec(BinaryOp::Eq, self, other),
    {
        Expression::create_binary_expression(BinaryOp::Eq, self, other)
    }

    pub fn not_eq(self, other: Expression) -> (r: Expression)
        ensures
            r == Expression::create_binary_spec(BinaryOp::NotEq, self, other),
    {
        Expression::create_binary_expression(BinaryOp::NotEq, self, other)
    }

    pub fn and(self, other: Expression) -> (r: Expression)
        ensures
            r == Expression::create_binary_spec(BinaryOp::And, self, other),
    {
        Expression::create_binary_expression(BinaryOp::And, self, other)
    }

    pub fn or(self, other: Expression) -> (r: Expression)
        ensures
            r == Expression::create_binary_spec(BinaryOp::Or, self, other),
    {
        Expression::create_binary_expression(BinaryOp::Or, self, other)
    }

    pub open spec fn create_binary_spec(op: BinaryOp, left: Expression, right: Expression) -> Expression {
        Expression::BinaryExpression { left: Box::new(left), op: op, right: Box::new(right) }
    }
}

} // verus!
