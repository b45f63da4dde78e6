//! Logical expressions and logical plans, with the typing rules that tie an
//! expression to the schema of its input.

use vstd::prelude::*;
use crate::datatypes::{DataType, Field, FieldV, Schema, supertype, signed_rank, unsigned_rank, is_float, fields_view};
use crate::error::{ExecutionError, message_with};

verus! {

/// A binary operator.
#[derive(Clone, Copy, Debug, PartialEq, Eq, Structural)]
pub enum Operator {
    Gt,
    GtEq,
    Lt,
    LtEq,
    Eq,
    NotEq,
    Plus,
    Minus,
    Multiply,
    Divide,
    Modulus,
    And,
    Or,
    Not,
    Like,
    NotLike,
}

/// Whether `op` computes a number from its operands (else it yields a boolean).
pub open spec fn is_arithmetic(op: Operator) -> bool {
    match op {
        Operator::Plus | Operator::Minus | Operator::Multiply | Operator::Divide
        | Operator::Modulus => true,
        _ => false,
    }
}

/// A single literal value. Floating-point values are held as their IEEE-754
/// bit patterns.
#[derive(Clone, Debug, PartialEq, Eq)]
pub enum ScalarValue {
    Boolean(bool),
    Int8(i8),
    Int16(i16),
    Int32(i32),
    Int64(i64),
    UInt8(u8),
    UInt16(u16),
    UInt32(u32),
    UInt64(u64),
    Float32(u32),
    Float64(u64),
    Utf8(String),
}

pub open spec fn value_type(v: ScalarValue) -> DataType {
    match v {
        ScalarValue::Boolean(_) => DataType::Boolean,
        ScalarValue::Int8(_) => DataType::Int8,
        ScalarValue::Int16(_) => DataType::Int16,
        ScalarValue::Int32(_) => DataType::Int32,
        ScalarValue::Int64(_) => DataType::Int64,
        ScalarValue::UInt8(_) => DataType::UInt8,
        ScalarValue::UInt16(_) => DataType::UInt16,
        ScalarValue::UInt32(_) => DataType::UInt32,
        ScalarValue::UInt64(_) => DataType::UInt64,
        ScalarValue::Float32(_) => DataType::Float32,
        ScalarValue::Float64(_) => DataType::Float64,
        ScalarValue::Utf8(_) => DataType::Utf8,
    }
}

impl ScalarValue {
    pub fn get_datatype(&self) -> (r: DataType)
        ensures
            r == value_type(*self),
    {
        match self {
            ScalarValue::Boolean(_) => DataType::Boolean,
            ScalarValue::Int8(_) => DataType::Int8,
            ScalarValue::Int16(_) => DataType::Int16,
            ScalarValue::Int32(_) => DataType::Int32,
            ScalarValue::Int64(_) => DataType::Int64,
            ScalarValue::UInt8(_) => DataType::UInt8,
            ScalarValue::UInt16(_) => DataType::UInt16,
            ScalarValue::UInt32(_) => DataType::UInt32,
            ScalarValue::UInt64(_) => DataType::UInt64,
            ScalarValue::Float32(_) => DataType::Float32,
            ScalarValue::Float64(_) => DataType::Float64,
            ScalarValue::Utf8(_) => DataType::Utf8,
        }
    }

    /// A copy of this value.
    pub fn duplicate(&self) -> (r: ScalarValue)
        ensures
            r == *self,
    {
        match self {
            ScalarValue::Boolean(x) => ScalarValue::Boolean(*x),
            ScalarValue::Int8(x) => ScalarValue::Int8(*x),
            ScalarValue::Int16(x) => ScalarValue::Int16(*x),
            ScalarValue::Int32(x) => ScalarValue::Int32(*x),
            ScalarValue::Int64(x) => ScalarValue::Int64(*x),
            ScalarValue::UInt8(x) => ScalarValue::UInt8(*x),
            ScalarValue::UInt16(x) => ScalarValue::UInt16(*x),
            ScalarValue::UInt32(x) => ScalarValue::UInt32(*x),
            ScalarValue::UInt64(x) => ScalarValue::UInt64(*x),
            ScalarValue::Float32(x) => ScalarValue::Float32(*x),
            ScalarValue::Float64(x) => ScalarValue::Float64(*x),
            ScalarValue::Utf8(s) => ScalarValue::Utf8(s.clone()),
        }
    }
}

/// A logical expression over the columns of an input, addressed by position.
#[derive(Debug, PartialEq, Eq)]
pub enum Expr {
    Column(usize),
    Literal(ScalarValue),
    BinaryExpr { left: Box<Expr>, op: Operator, right: Box<Expr> },
    IsNull(Box<Expr>),
    IsNotNull(Box<Expr>),
    Cast { expr: Box<Expr>, data_type: DataType },
    ScalarFunction { name: String, args: Vec<Expr>, return_type: DataType },
    AggregateFunction { name: String, args: Vec<Expr>, return_type: DataType },
    Sort { expr: Box<Expr>, asc: bool },
}

/// The mathematical value of an expression.
pub ghost enum ExprV {
    Column(usize),
    Literal(ScalarValue),
    BinaryExpr { left: Box<ExprV>, op: Operator, right: Box<ExprV> },
    IsNull(Box<ExprV>),
    IsNotNull(Box<ExprV>),
    Cast { expr: Box<ExprV>, data_type: DataType },
    ScalarFunction { name: Seq<char>, args: Seq<ExprV>, return_type: DataType },
    AggregateFunction { name: Seq<char>, args: Seq<ExprV>, return_type: DataType },
    Sort { expr: Box<ExprV>, asc: bool },
}

pub open spec fn view_expr(e: Expr) -> ExprV
    decreases e,
{
    match e {
        Expr::Column(i) => ExprV::Column(i),
        Expr::Literal(v) => ExprV::Literal(v),
        Expr::BinaryExpr { left, op, right } => ExprV::BinaryExpr {
            left: Box::new(view_expr(*left)),
            op,
            right: Box::new(view_expr(*right)),
        },
        Expr::IsNull(x) => ExprV::IsNull(Box::new(view_expr(*x))),
        Expr::IsNotNull(x) => ExprV::IsNotNull(Box::new(view_expr(*x))),
        Expr::Cast { expr, data_type } => ExprV::Cast { expr: Box::new(view_expr(*expr)), data_type },
        Expr::ScalarFunction { name, args, return_type } => ExprV::ScalarFunction {
            name: name@,
            args: view_exprs(args@),
            return_type,
        },
        Expr::AggregateFunction { name, args, return_type } => ExprV::AggregateFunction {
            name: name@,
            args: view_exprs(args@),
            return_type,
        },
        Expr::Sort { expr, asc } => ExprV::Sort { expr: Box::new(view_expr(*expr)), asc },
    }
}

pub open spec fn view_exprs(s: Seq<Expr>) -> Seq<ExprV>
    decreases s,
{
    if s.len() == 0 {
        Seq::empty()
    } else {
        view_exprs(s.drop_last()).push(view_expr(s.last()))
    }
}

impl View for Expr {
    type V = ExprV;

    open spec fn view(&self) -> ExprV {
        view_expr(*self)
    }
}


pub proof fn lemma_view_exprs(s: Seq<Expr>)
    ensures
        view_exprs(s).len() == s.len(),
        forall|i: int| 0 <= i < s.len() ==> #[trigger] view_exprs(s)[i] == view_expr(s[i]),
    decreases s.len(),
{
    if s.len() > 0 {
        lemma_view_exprs(s.drop_last());
    }
}

/// Expressions whose views agree have the same view as a list.
pub proof fn lemma_view_exprs_ext(a: Seq<Expr>, b: Seq<Expr>)
    requires
        a.len() == b.len(),
        forall|i: int| 0 <= i < a.len() ==> view_expr(#[trigger] a[i]) == view_expr(b[i]),
    ensures
        view_exprs(a) == view_exprs(b),
{
    lemma_view_exprs(a);
    lemma_view_exprs(b);
    assert(view_exprs(a) =~= view_exprs(b));
}

/// The type of an expression evaluated against an input of schema `s`, if it
/// has one.
pub open spec fn type_of(e: ExprV, s: Seq<FieldV>) -> Option<DataType>
    decreases e,
{
    match e {
        ExprV::Column(i) => if i < s.len() {
            Some(s[i as int].data_type)
        } else {
            None
        },
        ExprV::Literal(v) => Some(value_type(v)),
        ExprV::BinaryExpr { left, op, right } => if is_arithmetic(op) {
            match (type_of(*left, s), type_of(*right, s)) {
                (Some(a), Some(b)) => supertype(a, b),
                _ => None,
            }
        } else {
            Some(DataType::Boolean)
        },
        ExprV::IsNull(_) => Some(DataType::Boolean),
        ExprV::IsNotNull(_) => Some(DataType::Boolean),
        ExprV::Cast { data_type, .. } => Some(data_type),
        ExprV::ScalarFunction { return_type, .. } => Some(return_type),
        ExprV::AggregateFunction { return_type, .. } => Some(return_type),
        ExprV::Sort { expr, .. } => type_of(*expr, s),
    }
}

/// Whether a value of type `from` converts to `to` without loss.
pub open spec fn can_coerce(from: DataType, to: DataType) -> bool {
    if signed_rank(to) is Some {
        (signed_rank(from) is Some && signed_rank(from)->0 <= signed_rank(to)->0) || (
        unsigned_rank(from) is Some && unsigned_rank(from)->0 < signed_rank(to)->0)
    } else if unsigned_rank(to) is Some {
        unsigned_rank(from) is Some && unsigned_rank(from)->0 <= unsigned_rank(to)->0
    } else if to == DataType::Float32 {
        signed_rank(from) is Some || unsigned_rank(from) is Some || from == DataType::Float32
    } else if to == DataType::Float64 {
        signed_rank(from) is Some || unsigned_rank(from) is Some || is_float(from)
    } else {
        false
    }
}

/// The expression `e` brought to type `t`: itself where it has that type, a
/// cast where its type converts to `t`, and nothing otherwise.
pub open spec fn cast_spec(e: ExprV, t: DataType, s: Seq<FieldV>) -> Option<ExprV> {
    match type_of(e, s) {
        Some(cur) => if cur == t {
            Some(e)
        } else if can_coerce(cur, t) {
            Some(ExprV::Cast { expr: Box::new(e), data_type: t })
        } else {
            None
        },
        None => None,
    }
}

fn rank_fits(from: DataType, to: DataType) -> (r: bool)
    ensures
        r == can_coerce(from, to),
{
    let fs: u8 = match from {
        DataType::Int8 => 1,
        DataType::Int16 => 2,
        DataType::Int32 => 3,
        DataType::Int64 => 4,
        _ => 0,
    };
    let fu: u8 = match from {
        DataType::UInt8 => 1,
        DataType::UInt16 => 2,
        DataType::UInt32 => 3,
        DataType::UInt64 => 4,
        _ => 0,
    };
    match to {
        DataType::Int8 => fs == 1,
        DataType::Int16 => (fs >= 1 && fs <= 2) || fu == 1,
        DataType::Int32 => (fs >= 1 && fs <= 3) || (fu >= 1 && fu <= 2),
        DataType::Int64 => fs >= 1 || (fu >= 1 && fu <= 3),
        DataType::UInt8 => fu == 1,
        DataType::UInt16 => fu >= 1 && fu <= 2,
        DataType::UInt32 => fu >= 1 && fu <= 3,
        DataType::UInt64 => fu >= 1,
        DataType::Float32 => fs >= 1 || fu >= 1 || from == DataType::Float32,
        DataType::Float64 => fs >= 1 || fu >= 1 || from == DataType::Float32 || from
            == DataType::Float64,
        _ => false,
    }
}

impl Expr {
    /// A copy of this expression.
    pub fn duplicate(&self) -> (r: Expr)
        ensures
            r@ == self@,
        decreases self,
    {
        match self {
            Expr::Column(i) => Expr::Column(*i),
            Expr::Literal(v) => Expr::Literal(v.duplicate()),
            Expr::BinaryExpr { left, op, right } => Expr::BinaryExpr {
                left: Box::new(left.duplicate()),
                op: *op,
                right: Box::new(right.duplicate()),
            },
            Expr::IsNull(x) => Expr::IsNull(Box::new(x.duplicate())),
            Expr::IsNotNull(x) => Expr::IsNotNull(Box::new(x.duplicate())),
            Expr::Cast { expr, data_type } => Expr::Cast {
                expr: Box::new(expr.duplicate()),
                data_type: *data_type,
            },
            Expr::ScalarFunction { name, args, return_type } => Expr::ScalarFunction {
                name: name.clone(),
                args: duplicate_exprs(args),
                return_type: *return_type,
            },
            Expr::AggregateFunction { name, args, return_type } => Expr::AggregateFunction {
                name: name.clone(),
                args: duplicate_exprs(args),
                return_type: *return_type,
            },
            Expr::Sort { expr, asc } => Expr::Sort { expr: Box::new(expr.duplicate()), asc: *asc },
        }
    }

    /// The type of this expression against an input of schema `schema`.
    pub fn get_type(&self, schema: &Schema) -> (r: Option<DataType>)
        ensures
            r == type_of(self@, schema@),
        decreases self,
    {
        match self {
            Expr::Column(i) => if *i < schema.len() {
                Some(schema.field(*i).data_type)
            } else {
                None
            },
            Expr::Literal(v) => Some(v.get_datatype()),
            Expr::BinaryExpr { left, op, right } => {
                match op {
                    Operator::Plus | Operator::Minus | Operator::Multiply | Operator::Divide
                    | Operator::Modulus => {
                        match (left.get_type(schema), right.get_type(schema)) {
                            (Some(a), Some(b)) => crate::datatypes::get_supertype(&a, &b),
                            _ => None,
                        }
                    },
                    _ => Some(DataType::Boolean),
                }
            },
            Expr::IsNull(_) => Some(DataType::Boolean),
            Expr::IsNotNull(_) => Some(DataType::Boolean),
            Expr::Cast { data_type, .. } => Some(*data_type),
            Expr::ScalarFunction { return_type, .. } => Some(*return_type),
            Expr::AggregateFunction { return_type, .. } => Some(*return_type),
            Expr::Sort { expr, .. } => expr.get_type(schema),
        }
    }

    /// This expression converted to `data_type`: unchanged where it already
    /// has that type, wrapped in a cast where the conversion is lossless.
    pub fn cast_to(&self, data_type: &DataType, schema: &Schema) -> (r: Result<Expr, ExecutionError>)
        ensures
            r matches Ok(x) ==> cast_spec(self@, *data_type, schema@) == Some(x@),
            r matches Err(err) ==> cast_spec(self@, *data_type, schema@) is None && err.kind()
                == crate::error::ErrorKind::General,
    {
        match self.get_type(schema) {
            Some(cur) => if cur == *data_type {
                Ok(self.duplicate())
            } else if rank_fits(cur, *data_type) {
                Ok(Expr::Cast { expr: Box::new(self.duplicate()), data_type: *data_type })
            } else {
                Err(
                    ExecutionError::General(
                        message_with(
                            "Cannot automatically convert the expression to ",
                            crate::display::type_str(*data_type),
                        ),
                    ),
                )
            },
            None => Err(
                ExecutionError::General(String::from_str("Cannot determine the type of the expression")),
            ),
        }
    }
}

/// Copies of a list of expressions.
pub fn duplicate_exprs(v: &Vec<Expr>) -> (r: Vec<Expr>)
    ensures
        view_exprs(r@) == view_exprs(v@),
    decreases v,
{
    let mut r: Vec<Expr> = Vec::new();
    let mut i: usize = 0;
    while i < v.len()
        invariant
            i <= v@.len(),
            r@.len() == i,
            forall|j: int| 0 <= j < i ==> view_expr(#[trigger] r@[j]) == view_expr(v@[j]),
        decreases v@.len() - i,
    {
        proof {
            assert(decreases_to!(v => v@[i as int]));
        }
        let x = v[i].duplicate();
        r.push(x);
        i = i + 1;
    }
    proof {
        lemma_view_exprs_ext(r@, v@);
    }
    r
}


/// A tree of relational operators; each node's `schema` is the schema of the
/// rows it produces.
#[derive(Debug, PartialEq, Eq)]
pub enum LogicalPlan {
    EmptyRelation { schema: Schema },
    TableScan {
        schema_name: String,
        table_name: String,
        schema: Schema,
        projection: Option<Vec<usize>>,
    },
    Selection { expr: Expr, input: Box<LogicalPlan> },
    Projection { expr: Vec<Expr>, input: Box<LogicalPlan>, schema: Schema },
    Aggregate {
        input: Box<LogicalPlan>,
        group_expr: Vec<Expr>,
        aggr_expr: Vec<Expr>,
        schema: Schema,
    },
    Sort { expr: Vec<Expr>, input: Box<LogicalPlan>, schema: Schema },
    Limit { expr: Expr, input: Box<LogicalPlan>, schema: Schema },
}

/// The mathematical value of a logical plan.
pub ghost enum PlanV {
    EmptyRelation { schema: Seq<FieldV> },
    TableScan {
        schema_name: Seq<char>,
        table_name: Seq<char>,
        schema: Seq<FieldV>,
        projection: Option<Seq<usize>>,
    },
    Selection { expr: ExprV, input: Box<PlanV> },
    Projection { expr: Seq<ExprV>, input: Box<PlanV>, schema: Seq<FieldV> },
    Aggregate {
        input: Box<PlanV>,
        group_expr: Seq<ExprV>,
        aggr_expr: Seq<ExprV>,
        schema: Seq<FieldV>,
    },
    Sort { expr: Seq<ExprV>, input: Box<PlanV>, schema: Seq<FieldV> },
    Limit { expr: ExprV, input: Box<PlanV>, schema: Seq<FieldV> },
}

pub open spec fn view_plan(p: LogicalPlan) -> PlanV
    decreases p,
{
    match p {
        LogicalPlan::EmptyRelation { schema } => PlanV::EmptyRelation { schema: schema@ },
        LogicalPlan::TableScan { schema_name, table_name, schema, projection } => PlanV::TableScan {
            schema_name: schema_name@,
            table_name: table_name@,
            schema: schema@,
            projection: match projection {
                Some(v) => Some(v@),
                None => None,
            },
        },
        LogicalPlan::Selection { expr, input } => PlanV::Selection {
            expr: expr@,
            input: Box::new(view_plan(*input)),
        },
        LogicalPlan::Projection { expr, input, schema } => PlanV::Projection {
            expr: view_exprs(expr@),
            input: Box::new(view_plan(*input)),
            schema: schema@,
        },
        LogicalPlan::Aggregate { input, group_expr, aggr_expr, schema } => PlanV::Aggregate {
            input: Box::new(view_plan(*input)),
            group_expr: view_exprs(group_expr@),
            aggr_expr: view_exprs(aggr_expr@),
            schema: schema@,
        },
        LogicalPlan::Sort { expr, input, schema } => PlanV::Sort {
            expr: view_exprs(expr@),
            input: Box::new(view_plan(*input)),
            schema: schema@,
        },
        LogicalPlan::Limit { expr, input, schema } => PlanV::Limit {
            expr: expr@,
            input: Box::new(view_plan(*input)),
            schema: schema@,
        },
    }
}

impl View for LogicalPlan {
    type V = PlanV;

    open spec fn view(&self) -> PlanV {
        view_plan(*self)
    }
}

/// The schema of the rows a plan produces.
pub open spec fn schema_of(p: PlanV) -> Seq<FieldV>
    decreases p,
{
    match p {
        PlanV::EmptyRelation { schema } => schema,
        PlanV::TableScan { schema, .. } => schema,
        PlanV::Selection { input, .. } => schema_of(*input),
        PlanV::Projection { schema, .. } => schema,
        PlanV::Aggregate { schema, .. } => schema,
        PlanV::Sort { schema, .. } => schema,
        PlanV::Limit { schema, .. } => schema,
    }
}

impl LogicalPlan {
    /// The schema of the rows this plan produces.
    pub fn schema(&self) -> (r: &Schema)
        ensures
            r@ == schema_of(self@),
        decreases self,
    {
        match self {
            LogicalPlan::EmptyRelation { schema } => schema,
            LogicalPlan::TableScan { schema, .. } => schema,
            LogicalPlan::Selection { input, .. } => input.schema(),
            LogicalPlan::Projection { schema, .. } => schema,
            LogicalPlan::Aggregate { schema, .. } => schema,
            LogicalPlan::Sort { schema, .. } => schema,
            LogicalPlan::Limit { schema, .. } => schema,
        }
    }
}

/// The signature of a scalar function: its parameters and its result type.
#[derive(Debug, PartialEq, Eq)]
pub struct FunctionMeta {
    pub name: String,
    pub args: Vec<Field>,
    pub return_type: DataType,
}

impl FunctionMeta {
    pub fn new(name: String, args: Vec<Field>, return_type: DataType) -> (r: FunctionMeta)
        ensures
            r.name == name,
            r.args == args,
            r.return_type == return_type,
    {
        FunctionMeta { name, args, return_type }
    }
}


pub proof fn lemma_fields_view_len(fs: Seq<Field>)
    ensures
        fields_view(fs).len() == fs.len(),
{
}


/// Bringing an expression to the type it already has returns it unchanged,
/// with no cast added.
pub proof fn lemma_cast_to_own_type(e: ExprV, t: DataType, s: Seq<FieldV>)
    requires
        type_of(e, s) == Some(t),
    ensures
        cast_spec(e, t, s) == Some(e),
{
}

} // verus!
