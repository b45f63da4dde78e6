//! The SQL syntax tree that the planner consumes.

use vstd::prelude::*;
use crate::datatypes::SqlType;

verus! {

/// A literal value as written in SQL text. Floating-point literals are held as
/// their IEEE-754 bit patterns.
#[derive(Clone, Debug, PartialEq, Eq)]
pub enum SqlValue {
    Long(i64),
    Double(u64),
    SingleQuotedString(String),
    Boolean(bool),
    Null,
}

/// A binary operator as written in SQL text.
#[derive(Clone, Copy, Debug, PartialEq, Eq, Structural)]
pub enum SqlOperator {
    Gt,
    GtEq,
    Lt,
    LtEq,
    Eq,
    NotEq,
    Plus,
    Minus,
    Multiply,
    Divide,
    Modulus,
    And,
    Or,
    Not,
    Like,
    NotLike,
}

/// One key of an `ORDER BY` clause.
#[derive(Debug, PartialEq, Eq)]
pub struct OrderByExpr {
    pub expr: Box<SqlNode>,
    pub asc: bool,
}

/// A node of the SQL syntax tree.
#[derive(Debug, PartialEq, Eq)]
pub enum SqlNode {
    Identifier(String),
    Wildcard,
    IsNull(Box<SqlNode>),
    IsNotNull(Box<SqlNode>),
    BinaryExpr { left: Box<SqlNode>, op: SqlOperator, right: Box<SqlNode> },
    Cast { expr: Box<SqlNode>, data_type: SqlType },
    Value(SqlValue),
    Function { id: String, args: Vec<SqlNode> },
    Select {
        projection: Vec<SqlNode>,
        relation: Option<Box<SqlNode>>,
        selection: Option<Box<SqlNode>>,
        order_by: Option<Vec<OrderByExpr>>,
        group_by: Option<Vec<SqlNode>>,
        having: Option<Box<SqlNode>>,
        limit: Option<Box<SqlNode>>,
    },
    /// Any other construct of the language, by a short description.
    Other(String),
}

} // verus!
