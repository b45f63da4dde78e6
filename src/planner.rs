//! Translation of a SQL syntax tree into a logical plan.

use vstd::prelude::*;
use crate::catalog::SchemaProvider;
use crate::datatypes::{
    DataType, Field, FieldV, Schema, SqlType, fields_view, first_named, first_named_from, get_supertype,
    sql_type_spec, supertype,
};
use crate::error::{ErrorKind, ExecutionError, message_with};
use crate::logical::{
    Expr, ExprV, LogicalPlan, Operator, PlanV, ScalarValue, cast_spec, is_arithmetic, type_of,
    view_expr, view_exprs, lemma_view_exprs, schema_of, value_type,
};
use crate::sql::{OrderByExpr, SqlNode, SqlOperator, SqlValue};
use crate::optimizer::{
    cols, cols_list, covers, lemma_optimize_covers, optimize_spec, scans_unprojected, within,
};

verus! {

/// What `str::to_lowercase` makes of a string.
pub uninterp spec fn lower_of(s: Seq<char>) -> Seq<char>;

/// Relies on `str::to_lowercase`: the lowercase form of `s`, which depends on
/// the characters of `s` alone.
#[verifier::external_body]
pub(crate) fn lowercase(s: &str) -> (r: String)
    ensures
        r@ == lower_of(s@),
{
    s.to_lowercase()
}

pub open spec fn operator_of(op: SqlOperator) -> Operator {
    match op {
        SqlOperator::Gt => Operator::Gt,
        SqlOperator::GtEq => Operator::GtEq,
        SqlOperator::Lt => Operator::Lt,
        SqlOperator::LtEq => Operator::LtEq,
        SqlOperator::Eq => Operator::Eq,
        SqlOperator::NotEq => Operator::NotEq,
        SqlOperator::Plus => Operator::Plus,
        SqlOperator::Minus => Operator::Minus,
        SqlOperator::Multiply => Operator::Multiply,
        SqlOperator::Divide => Operator::Divide,
        SqlOperator::Modulus => Operator::Modulus,
        SqlOperator::And => Operator::And,
        SqlOperator::Or => Operator::Or,
        SqlOperator::Not => Operator::Not,
        SqlOperator::Like => Operator::Like,
        SqlOperator::NotLike => Operator::NotLike,
    }
}

fn convert_operator(op: SqlOperator) -> (r: Operator)
    ensures
        r == operator_of(op),
{
    match op {
        SqlOperator::Gt => Operator::Gt,
        SqlOperator::GtEq => Operator::GtEq,
        SqlOperator::Lt => Operator::Lt,
        SqlOperator::LtEq => Operator::LtEq,
        SqlOperator::Eq => Operator::Eq,
        SqlOperator::NotEq => Operator::NotEq,
        SqlOperator::Plus => Operator::Plus,
        SqlOperator::Minus => Operator::Minus,
        SqlOperator::Multiply => Operator::Multiply,
        SqlOperator::Divide => Operator::Divide,
        SqlOperator::Modulus => Operator::Modulus,
        SqlOperator::And => Operator::And,
        SqlOperator::Or => Operator::Or,
        SqlOperator::Not => Operator::Not,
        SqlOperator::Like => Operator::Like,
        SqlOperator::NotLike => Operator::NotLike,
    }
}

/// Converts a SQL column type to a data type.
pub fn convert_data_type(sql: &SqlType) -> (r: Result<DataType, ExecutionError>)
    ensures
        r matches Ok(t) ==> sql_type_spec(*sql) == Some(t),
        r matches Err(e) ==> sql_type_spec(*sql) is None && e.kind() == ErrorKind::NotImplemented,
{
    match sql {
        SqlType::Boolean => Ok(DataType::Boolean),
        SqlType::SmallInt => Ok(DataType::Int16),
        SqlType::Int => Ok(DataType::Int32),
        SqlType::BigInt => Ok(DataType::Int64),
        SqlType::Float(_) | SqlType::Real => Ok(DataType::Float64),
        SqlType::Double => Ok(DataType::Float64),
        SqlType::Char(_) | SqlType::Varchar(_) => Ok(DataType::Utf8),
        SqlType::Other(name) => Err(ExecutionError::NotImplemented(message_with("Unsupported SQL type ", name.as_str()))),
        _ => Err(ExecutionError::NotImplemented(message_with("Unsupported SQL type ", sql_type_name(sql)))),
    }
}

/// The SQL name of a column type that has no data type.
fn sql_type_name(t: &SqlType) -> &'static str {
    match t {
        SqlType::Decimal(_, _) => "DECIMAL",
        SqlType::Date => "DATE",
        SqlType::Time => "TIME",
        SqlType::Timestamp => "TIMESTAMP",
        SqlType::Text => "TEXT",
        SqlType::Bytea => "BYTEA",
        _ => "",
    }
}

/// Whether `l` names one of the aggregates whose result has its argument's type.
pub open spec fn is_typed_aggregate(l: Seq<char>) -> bool {
    l == "min"@ || l == "max"@ || l == "sum"@ || l == "avg"@
}

/// `e` brought to type `t` for each argument and the matching parameter.
pub open spec fn cast_list(es: Seq<ExprV>, params: Seq<FieldV>, s: Seq<FieldV>) -> Option<Seq<ExprV>>
    decreases es.len(),
{
    if es.len() == 0 {
        Some(Seq::empty())
    } else {
        match cast_list(es.drop_last(), params, s) {
            Some(prefix) => match cast_spec(es.last(), params[es.len() - 1].data_type, s) {
                Some(c) => Some(prefix.push(c)),
                None => None,
            },
            None => None,
        }
    }
}

/// The binary expression `l op r`, both sides brought to their common supertype.
pub open spec fn binary_spec(l: ExprV, op: Operator, r: ExprV, s: Seq<FieldV>) -> Result<ExprV, ErrorKind> {
    match (type_of(l, s), type_of(r, s)) {
        (Some(lt), Some(rt)) => match supertype(lt, rt) {
            Some(st) => match (cast_spec(l, st, s), cast_spec(r, st, s)) {
                (Some(lc), Some(rc)) => Ok(ExprV::BinaryExpr { left: Box::new(lc), op, right: Box::new(rc) }),
                _ => Err(ErrorKind::General),
            },
            None => Err(ErrorKind::General),
        },
        _ => Err(ErrorKind::General),
    }
}

/// The expression that a SQL expression denotes against an input of schema `s`.
pub open spec fn rex<P: SchemaProvider>(p: P, n: SqlNode, s: Seq<FieldV>) -> Result<ExprV, ErrorKind>
    decreases n,
{
    match n {
        SqlNode::Value(v) => match v {
            SqlValue::Long(x) => Ok(ExprV::Literal(ScalarValue::Int64(x))),
            SqlValue::Double(b) => Ok(ExprV::Literal(ScalarValue::Float64(b))),
            SqlValue::SingleQuotedString(t) => Ok(ExprV::Literal(ScalarValue::Utf8(t))),
            _ => Err(ErrorKind::General),
        },
        SqlNode::Identifier(id) => match first_named(s, id@) {
            Some(i) => Ok(ExprV::Column(i)),
            None => Err(ErrorKind::Execution),
        },
        SqlNode::Wildcard => Err(ErrorKind::NotImplemented),
        SqlNode::Cast { expr, data_type } => match rex(p, *expr, s) {
            Ok(e) => match sql_type_spec(data_type) {
                Some(t) => Ok(ExprV::Cast { expr: Box::new(e), data_type: t }),
                None => Err(ErrorKind::NotImplemented),
            },
            Err(k) => Err(k),
        },
        SqlNode::IsNull(x) => match rex(p, *x, s) {
            Ok(e) => Ok(ExprV::IsNull(Box::new(e))),
            Err(k) => Err(k),
        },
        SqlNode::IsNotNull(x) => match rex(p, *x, s) {
            Ok(e) => Ok(ExprV::IsNotNull(Box::new(e))),
            Err(k) => Err(k),
        },
        SqlNode::BinaryExpr { left, op, right } => match rex(p, *left, s) {
            Ok(l) => match rex(p, *right, s) {
                Ok(r) => binary_spec(l, operator_of(op), r, s),
                Err(k) => Err(k),
            },
            Err(k) => Err(k),
        },
        SqlNode::Function { id, args } => {
            let l = lower_of(id@);
            if is_typed_aggregate(l) {
                match rex_list(p, args@, s) {
                    Ok(es) => if es.len() == 0 {
                        Err(ErrorKind::General)
                    } else {
                        match type_of(es[0], s) {
                            Some(t) => Ok(ExprV::AggregateFunction { name: id@, args: es, return_type: t }),
                            None => Err(ErrorKind::General),
                        }
                    },
                    Err(k) => Err(k),
                }
            } else if l == "count"@ {
                match count_list(p, args@, s) {
                    Ok(es) => Ok(
                        ExprV::AggregateFunction { name: id@, args: es, return_type: DataType::UInt64 },
                    ),
                    Err(k) => Err(k),
                }
            } else {
                match p.function_meta(id@) {
                    Some((params, rt)) => match rex_list(p, args@, s) {
                        Ok(es) => if es.len() > params.len() {
                            Err(ErrorKind::General)
                        } else {
                            match cast_list(es, params, s) {
                                Some(cs) => Ok(ExprV::ScalarFunction { name: id@, args: cs, return_type: rt }),
                                None => Err(ErrorKind::General),
                            }
                        },
                        Err(k) => Err(k),
                    },
                    None => Err(ErrorKind::General),
                }
            }
        },
        _ => Err(ErrorKind::General),
    }
}

/// The expressions of a list of SQL expressions, or the first error among them.
pub open spec fn rex_list<P: SchemaProvider>(p: P, ns: Seq<SqlNode>, s: Seq<FieldV>) -> Result<Seq<ExprV>, ErrorKind>
    decreases ns,
{
    if ns.len() == 0 {
        Ok(Seq::empty())
    } else {
        match rex_list(p, ns.drop_last(), s) {
            Ok(prefix) => match rex(p, ns.last(), s) {
                Ok(e) => Ok(prefix.push(e)),
                Err(k) => Err(k),
            },
            Err(k) => Err(k),
        }
    }
}

/// Whether a `COUNT` argument stands for "every row" (`1` or `*`).
pub open spec fn counts_rows(n: SqlNode) -> bool {
    n matches SqlNode::Value(SqlValue::Long(1)) || n is Wildcard
}

/// The arguments of `COUNT`, where `1` and `*` become the first column.
pub open spec fn count_list<P: SchemaProvider>(p: P, ns: Seq<SqlNode>, s: Seq<FieldV>) -> Result<Seq<ExprV>, ErrorKind>
    decreases ns,
{
    if ns.len() == 0 {
        Ok(Seq::empty())
    } else {
        match count_list(p, ns.drop_last(), s) {
            Ok(prefix) => if counts_rows(ns.last()) {
                Ok(prefix.push(ExprV::Column(0)))
            } else {
                match rex(p, ns.last(), s) {
                    Ok(e) => Ok(prefix.push(e)),
                    Err(k) => Err(k),
                }
            },
            Err(k) => Err(k),
        }
    }
}

pub open spec fn expr_result(r: Result<Expr, ExecutionError>) -> Result<ExprV, ErrorKind> {
    match r {
        Ok(e) => Ok(e@),
        Err(err) => Err(err.kind()),
    }
}

pub open spec fn exprs_result(r: Result<Vec<Expr>, ExecutionError>) -> Result<Seq<ExprV>, ErrorKind> {
    match r {
        Ok(v) => Ok(view_exprs(v@)),
        Err(err) => Err(err.kind()),
    }
}

proof fn lemma_rex_list_err<P: SchemaProvider>(p: P, ns: Seq<SqlNode>, s: Seq<FieldV>, i: int)
    requires
        0 <= i <= ns.len(),
        rex_list(p, ns.subrange(0, i), s) is Err,
    ensures
        rex_list(p, ns, s) == rex_list(p, ns.subrange(0, i), s),
    decreases ns.len() - i,
{
    if i < ns.len() {
        assert(ns.subrange(0, i + 1).drop_last() =~= ns.subrange(0, i));
        lemma_rex_list_err(p, ns, s, i + 1);
    } else {
        assert(ns.subrange(0, i) =~= ns);
    }
}

proof fn lemma_count_list_err<P: SchemaProvider>(p: P, ns: Seq<SqlNode>, s: Seq<FieldV>, i: int)
    requires
        0 <= i <= ns.len(),
        count_list(p, ns.subrange(0, i), s) is Err,
    ensures
        count_list(p, ns, s) == count_list(p, ns.subrange(0, i), s),
    decreases ns.len() - i,
{
    if i < ns.len() {
        assert(ns.subrange(0, i + 1).drop_last() =~= ns.subrange(0, i));
        lemma_count_list_err(p, ns, s, i + 1);
    } else {
        assert(ns.subrange(0, i) =~= ns);
    }
}

proof fn lemma_cast_list_err(es: Seq<ExprV>, params: Seq<FieldV>, s: Seq<FieldV>, i: int)
    requires
        0 <= i <= es.len(),
        cast_list(es.subrange(0, i), params, s) is None,
    ensures
        cast_list(es, params, s) is None,
    decreases es.len() - i,
{
    if i < es.len() {
        assert(es.subrange(0, i + 1).drop_last() =~= es.subrange(0, i));
        lemma_cast_list_err(es, params, s, i + 1);
    } else {
        assert(es.subrange(0, i) =~= es);
    }
}

proof fn lemma_view_exprs_push(v: Seq<Expr>, x: Expr)
    ensures
        view_exprs(v.push(x)) == view_exprs(v).push(view_expr(x)),
{
    assert(v.push(x).drop_last() =~= v);
}

/// Translates a SQL syntax tree into a logical plan, resolving tables and
/// functions through a schema provider.
pub struct SqlToRel<P: SchemaProvider> {
    pub schema_provider: P,
}

impl<P: SchemaProvider> SqlToRel<P> {
    pub fn new(schema_provider: P) -> (r: Self)
        ensures
            r.schema_provider == schema_provider,
    {
        SqlToRel { schema_provider }
    }

    /// Casts each argument to the type of the matching parameter.
    fn cast_args(&self, es: &Vec<Expr>, params: &Vec<Field>, schema: &Schema) -> (r: Result<Vec<Expr>, ExecutionError>)
        requires
            es@.len() <= params@.len(),
        ensures
            r matches Ok(v) ==> cast_list(view_exprs(es@), crate::datatypes::fields_view(params@), schema@) == Some(view_exprs(v@)),
            r matches Err(err) ==> cast_list(view_exprs(es@), crate::datatypes::fields_view(params@), schema@) is None && err.kind() == ErrorKind::General,
    {
        let ghost ves = view_exprs(es@);
        let ghost ps = crate::datatypes::fields_view(params@);
        proof {
            lemma_view_exprs(es@);
        }
        let mut out: Vec<Expr> = Vec::new();
        let mut i: usize = 0;
        assert(ves.subrange(0, 0) =~= Seq::<ExprV>::empty());
        while i < es.len()
            invariant
                i <= es@.len(),
                es@.len() <= params@.len(),
                ves == view_exprs(es@),
                ves.len() == es@.len(),
                forall|j: int| 0 <= j < es@.len() ==> #[trigger] ves[j] == view_expr(es@[j]),
                ps == crate::datatypes::fields_view(params@),
                cast_list(ves.subrange(0, i as int), ps, schema@) == Some(view_exprs(out@)),
            decreases es@.len() - i,
        {
            assert(ves.subrange(0, i + 1).drop_last() =~= ves.subrange(0, i as int));
            match es[i].cast_to(&params[i].data_type, schema) {
                Ok(c) => {
                    proof {
                        lemma_view_exprs_push(out@, c);
                    }
                    out.push(c);
                },
                Err(e) => {
                    proof {
                        lemma_cast_list_err(ves, ps, schema@, i + 1);
                    }
                    return Err(e);
                },
            }
            i = i + 1;
        }
        assert(ves.subrange(0, es@.len() as int) =~= ves);
        Ok(out)
    }

    /// Translates each SQL expression of `args` against `schema`.
    fn rex_list(&self, args: &Vec<SqlNode>, schema: &Schema) -> (r: Result<Vec<Expr>, ExecutionError>)
        ensures
            exprs_result(r) == rex_list(self.schema_provider, args@, schema@),
        decreases args,
    {
        let mut out: Vec<Expr> = Vec::new();
        let mut i: usize = 0;
        assert(args@.subrange(0, 0) =~= Seq::<SqlNode>::empty());
        while i < args.len()
            invariant
                i <= args@.len(),
                rex_list(self.schema_provider, args@.subrange(0, i as int), schema@) == Ok::<Seq<ExprV>, ErrorKind>(view_exprs(out@)),
            decreases args@.len() - i,
        {
            assert(args@.subrange(0, i + 1).drop_last() =~= args@.subrange(0, i as int));
            assert(args@.subrange(0, i + 1).last() == args@[i as int]);
            proof {
                assert(decreases_to!(args => args@[i as int]));
            }
            match self.sql_to_rex(&args[i], schema) {
                Ok(e) => {
                    proof {
                        lemma_view_exprs_push(out@, e);
                    }
                    out.push(e);
                },
                Err(err) => {
                    proof {
                        lemma_rex_list_err(self.schema_provider, args@, schema@, i + 1);
                    }
                    return Err(err);
                },
            }
            i = i + 1;
        }
        assert(args@.subrange(0, args@.len() as int) =~= args@);
        Ok(out)
    }

    /// Translates the arguments of `COUNT`.
    fn count_args(&self, args: &Vec<SqlNode>, schema: &Schema) -> (r: Result<Vec<Expr>, ExecutionError>)
        ensures
            exprs_result(r) == count_list(self.schema_provider, args@, schema@),
        decreases args,
    {
        let mut out: Vec<Expr> = Vec::new();
        let mut i: usize = 0;
        assert(args@.subrange(0, 0) =~= Seq::<SqlNode>::empty());
        while i < args.len()
            invariant
                i <= args@.len(),
                count_list(self.schema_provider, args@.subrange(0, i as int), schema@) == Ok::<Seq<ExprV>, ErrorKind>(view_exprs(out@)),
            decreases args@.len() - i,
        {
            assert(args@.subrange(0, i + 1).drop_last() =~= args@.subrange(0, i as int));
            assert(args@.subrange(0, i + 1).last() == args@[i as int]);
            proof {
                assert(decreases_to!(args => args@[i as int]));
            }
            let a = &args[i];
            let translated = match a {
                SqlNode::Value(SqlValue::Long(1)) => Ok(Expr::Column(0)),
                SqlNode::Wildcard => Ok(Expr::Column(0)),
                _ => self.sql_to_rex(a, schema),
            };
            match translated {
                Ok(e) => {
                    proof {
                        lemma_view_exprs_push(out@, e);
                    }
                    out.push(e);
                },
                Err(err) => {
                    proof {
                        lemma_count_list_err(self.schema_provider, args@, schema@, i + 1);
                    }
                    return Err(err);
                },
            }
            i = i + 1;
        }
        assert(args@.subrange(0, args@.len() as int) =~= args@);
        Ok(out)
    }

    /// Translates a SQL expression into a logical expression against an input
    /// of schema `schema`.
    pub fn sql_to_rex(&self, sql: &SqlNode, schema: &Schema) -> (r: Result<Expr, ExecutionError>)
        ensures
            expr_result(r) == rex(self.schema_provider, *sql, schema@),
        decreases sql,
    {
        match sql {
            SqlNode::Value(v) => match v {
                SqlValue::Long(x) => Ok(Expr::Literal(ScalarValue::Int64(*x))),
                SqlValue::Double(b) => Ok(Expr::Literal(ScalarValue::Float64(*b))),
                SqlValue::SingleQuotedString(t) => Ok(Expr::Literal(ScalarValue::Utf8(t.clone()))),
                _ => Err(ExecutionError::General(String::from_str("Unsupported literal value"))),
            },
            SqlNode::Identifier(id) => match schema.index_of(id) {
                Some(i) => Ok(Expr::Column(i)),
                None => Err(ExecutionError::ExecutionError(message_with("Invalid identifier ", id.as_str()))),
            },
            SqlNode::Wildcard => Err(
                ExecutionError::NotImplemented(
                    String::from_str("SQL wildcard operator is not supported in projection"),
                ),
            ),
            SqlNode::Cast { expr, data_type } => {
                let e = match self.sql_to_rex(expr, schema) {
                    Ok(e) => e,
                    Err(err) => return Err(err),
                };
                match convert_data_type(data_type) {
                    Ok(t) => Ok(Expr::Cast { expr: Box::new(e), data_type: t }),
                    Err(err) => Err(err),
                }
            },
            SqlNode::IsNull(x) => match self.sql_to_rex(x, schema) {
                Ok(e) => Ok(Expr::IsNull(Box::new(e))),
                Err(err) => Err(err),
            },
            SqlNode::IsNotNull(x) => match self.sql_to_rex(x, schema) {
                Ok(e) => Ok(Expr::IsNotNull(Box::new(e))),
                Err(err) => Err(err),
            },
            SqlNode::BinaryExpr { left, op, right } => {
                let operator = convert_operator(*op);
                let l = match self.sql_to_rex(left, schema) {
                    Ok(e) => e,
                    Err(err) => return Err(err),
                };
                let r = match self.sql_to_rex(right, schema) {
                    Ok(e) => e,
                    Err(err) => return Err(err),
                };
                match (l.get_type(schema), r.get_type(schema)) {
                    (Some(lt), Some(rt)) => match get_supertype(&lt, &rt) {
                        Some(st) => {
                            let lc = match l.cast_to(&st, schema) {
                                Ok(c) => c,
                                Err(err) => return Err(err),
                            };
                            let rc = match r.cast_to(&st, schema) {
                                Ok(c) => c,
                                Err(err) => return Err(err),
                            };
                            Ok(Expr::BinaryExpr { left: Box::new(lc), op: operator, right: Box::new(rc) })
                        },
                        None => Err(
                            ExecutionError::General(
                                message_with(
                                    "No common supertype found for binary operator with input types ",
                                    crate::display::type_str(lt),
                                ).concat(" and ").concat(crate::display::type_str(rt)),
                            ),
                        ),
                    },
                    _ => Err(
                        ExecutionError::General(String::from_str("Cannot determine the type of an operand")),
                    ),
                }
            },
            SqlNode::Function { id, args } => {
                let l = lowercase(id.as_str());
                if l == String::from_str("min") || l == String::from_str("max") || l
                    == String::from_str("sum") || l == String::from_str("avg") {
                    let es = match self.rex_list(args, schema) {
                        Ok(v) => v,
                        Err(err) => return Err(err),
                    };
                    proof {
                        lemma_view_exprs(es@);
                    }
                    if es.len() == 0 {
                        return Err(message_error(message_with("No argument given to ", id.as_str())));
                    }
                    match es[0].get_type(schema) {
                        Some(t) => Ok(Expr::AggregateFunction { name: id.clone(), args: es, return_type: t }),
                        None => Err(message_error(message_with("Cannot determine the type of the argument of ", id.as_str()))),
                    }
                } else if l == String::from_str("count") {
                    match self.count_args(args, schema) {
                        Ok(es) => Ok(Expr::AggregateFunction { name: id.clone(), args: es, return_type: DataType::UInt64 }),
                        Err(err) => Err(err),
                    }
                } else {
                    match self.schema_provider.get_function_meta(id.as_str()) {
                        Some(fm) => {
                            let es = match self.rex_list(args, schema) {
                                Ok(v) => v,
                                Err(err) => return Err(err),
                            };
                            proof {
                                lemma_view_exprs(es@);
                                crate::logical::lemma_fields_view_len(fm.args@);
                            }
                            if es.len() > fm.args.len() {
                                return Err(message_error(message_with("Too many arguments for function ", id.as_str())));
                            }
                            match self.cast_args(&es, &fm.args, schema) {
                                Ok(cs) => Ok(Expr::ScalarFunction { name: id.clone(), args: cs, return_type: fm.return_type }),
                                Err(err) => Err(err),
                            }
                        },
                        None => Err(message_error(message_with("Invalid function ", id.as_str()))),
                    }
                }
            },
            _ => Err(ExecutionError::General(String::from_str("Unsupported ast node in sqltorel"))),
        }
    }
}


/// The result field of an expression evaluated against an input of schema `s`.
pub open spec fn field_spec(e: ExprV, s: Seq<FieldV>) -> Option<FieldV> {
    match e {
        ExprV::Column(i) => if i < s.len() {
            Some(s[i as int])
        } else {
            None
        },
        ExprV::Literal(v) => Some(FieldV { name: "lit"@, data_type: value_type(v), nullable: true }),
        ExprV::ScalarFunction { name, return_type, .. } => Some(
            FieldV { name, data_type: return_type, nullable: true },
        ),
        ExprV::AggregateFunction { name, return_type, .. } => Some(
            FieldV { name, data_type: return_type, nullable: true },
        ),
        ExprV::Cast { data_type, .. } => Some(FieldV { name: "cast"@, data_type, nullable: true }),
        ExprV::BinaryExpr { .. } => match type_of(e, s) {
            Some(t) => Some(FieldV { name: "binary_expr"@, data_type: t, nullable: true }),
            None => None,
        },
        ExprV::IsNull(_) => Some(FieldV { name: "is_null"@, data_type: DataType::Boolean, nullable: true }),
        ExprV::IsNotNull(_) => Some(
            FieldV { name: "is_not_null"@, data_type: DataType::Boolean, nullable: true },
        ),
        ExprV::Sort { .. } => None,
    }
}

/// The result fields of a list of expressions, if each has one.
pub open spec fn fields_spec(es: Seq<ExprV>, s: Seq<FieldV>) -> Option<Seq<FieldV>>
    decreases es.len(),
{
    if es.len() == 0 {
        Some(Seq::empty())
    } else {
        match fields_spec(es.drop_last(), s) {
            Some(prefix) => match field_spec(es.last(), s) {
                Some(f) => Some(prefix.push(f)),
                None => None,
            },
            None => None,
        }
    }
}

/// The aggregate function calls among `es`, in order.
pub open spec fn aggr_only(es: Seq<ExprV>) -> Seq<ExprV>
    decreases es.len(),
{
    if es.len() == 0 {
        Seq::empty()
    } else if es.last() is AggregateFunction {
        aggr_only(es.drop_last()).push(es.last())
    } else {
        aggr_only(es.drop_last())
    }
}

/// The sort keys of an `ORDER BY` clause against an input of schema `s`.
pub open spec fn sort_list<P: SchemaProvider>(p: P, obs: Seq<OrderByExpr>, s: Seq<FieldV>) -> Result<Seq<ExprV>, ErrorKind>
    decreases obs.len(),
{
    if obs.len() == 0 {
        Ok(Seq::empty())
    } else {
        match sort_list(p, obs.drop_last(), s) {
            Ok(prefix) => match rex(p, *obs.last().expr, s) {
                Ok(e) => Ok(prefix.push(ExprV::Sort { expr: Box::new(e), asc: obs.last().asc })),
                Err(k) => Err(k),
            },
            Err(k) => Err(k),
        }
    }
}

/// The aggregation of `base` where the projection holds an aggregate call,
/// and its projection otherwise.
pub open spec fn core_spec<P: SchemaProvider>(
    p: P,
    base: PlanV,
    exprs: Seq<ExprV>,
    group_by: Option<Vec<SqlNode>>,
    s: Seq<FieldV>,
) -> Result<PlanV, ErrorKind> {
    let aggr = aggr_only(exprs);
    if aggr.len() > 0 {
        let group_r = match group_by {
            Some(g) => rex_list(p, g@, s),
            None => Ok(Seq::empty()),
        };
        match group_r {
            Ok(group) => match (fields_spec(group, s), fields_spec(aggr, s)) {
                (Some(gf), Some(af)) => Ok(
                    PlanV::Aggregate { input: Box::new(base), group_expr: group, aggr_expr: aggr, schema: gf + af },
                ),
                _ => Err(ErrorKind::General),
            },
            Err(k) => Err(k),
        }
    } else {
        match fields_spec(exprs, s) {
            Some(fs) => Ok(PlanV::Projection { expr: exprs, input: Box::new(base), schema: fs }),
            None => Err(ErrorKind::General),
        }
    }
}

/// `plan` sorted by the keys of `order_by`, if there are any.
pub open spec fn order_spec<P: SchemaProvider>(p: P, plan: PlanV, order_by: Option<Vec<OrderByExpr>>) -> Result<PlanV, ErrorKind> {
    match order_by {
        Some(obs) => match sort_list(p, obs@, schema_of(plan)) {
            Ok(keys) => Ok(PlanV::Sort { expr: keys, input: Box::new(plan), schema: schema_of(plan) }),
            Err(k) => Err(k),
        },
        None => Ok(plan),
    }
}

/// `plan` limited by `limit`, if there is one.
pub open spec fn limit_spec<P: SchemaProvider>(p: P, plan: PlanV, limit: Option<Box<SqlNode>>) -> Result<PlanV, ErrorKind> {
    match limit {
        Some(l) => match rex(p, *l, schema_of(plan)) {
            Ok(e) => Ok(PlanV::Limit { expr: e, input: Box::new(plan), schema: schema_of(plan) }),
            Err(k) => Err(k),
        },
        None => Ok(plan),
    }
}

/// The plan of a `SELECT` over the plan `input` of its `FROM` clause.
pub open spec fn select_spec<P: SchemaProvider>(
    p: P,
    input: PlanV,
    projection: Seq<SqlNode>,
    selection: Option<Box<SqlNode>>,
    order_by: Option<Vec<OrderByExpr>>,
    group_by: Option<Vec<SqlNode>>,
    having: Option<Box<SqlNode>>,
    limit: Option<Box<SqlNode>>,
) -> Result<PlanV, ErrorKind> {
    let s = schema_of(input);
    let sel = match selection {
        Some(f) => match rex(p, *f, s) {
            Ok(e) => Ok(PlanV::Selection { expr: e, input: Box::new(input) }),
            Err(k) => Err(k),
        },
        None => Ok(input),
    };
    match sel {
        Ok(base) => match rex_list(p, projection, s) {
            Ok(exprs) => if having is Some {
                Err(ErrorKind::General)
            } else {
                match core_spec(p, base, exprs, group_by, s) {
                    Ok(core) => match order_spec(p, core, order_by) {
                        Ok(sorted) => limit_spec(p, sorted, limit),
                        Err(k) => Err(k),
                    },
                    Err(k) => Err(k),
                }
            },
            Err(k) => Err(k),
        },
        Err(k) => Err(k),
    }
}

/// The logical plan that a SQL statement or relation denotes.
pub open spec fn rel<P: SchemaProvider>(p: P, n: SqlNode) -> Result<PlanV, ErrorKind>
    decreases n,
{
    match n {
        SqlNode::Select { projection, relation, selection, order_by, group_by, having, limit } => {
            let input = match relation {
                Some(r) => rel(p, *r),
                None => Ok(PlanV::EmptyRelation { schema: Seq::empty() }),
            };
            match input {
                Ok(i) => select_spec(p, i, projection@, selection, order_by, group_by, having, limit),
                Err(k) => Err(k),
            }
        },
        SqlNode::Identifier(id) => match p.table_meta(id@) {
            Some(s) => Ok(
                PlanV::TableScan { schema_name: "default"@, table_name: id@, schema: s, projection: None },
            ),
            None => Err(ErrorKind::General),
        },
        _ => Err(ErrorKind::Execution),
    }
}

pub open spec fn plan_result(r: Result<LogicalPlan, ExecutionError>) -> Result<PlanV, ErrorKind> {
    match r {
        Ok(pl) => Ok(pl@),
        Err(err) => Err(err.kind()),
    }
}

proof fn lemma_fields_spec_err(es: Seq<ExprV>, s: Seq<FieldV>, i: int)
    requires
        0 <= i <= es.len(),
        fields_spec(es.subrange(0, i), s) is None,
    ensures
        fields_spec(es, s) is None,
    decreases es.len() - i,
{
    if i < es.len() {
        assert(es.subrange(0, i + 1).drop_last() =~= es.subrange(0, i));
        lemma_fields_spec_err(es, s, i + 1);
    } else {
        assert(es.subrange(0, i) =~= es);
    }
}

proof fn lemma_sort_list_err<P: SchemaProvider>(p: P, obs: Seq<OrderByExpr>, s: Seq<FieldV>, i: int)
    requires
        0 <= i <= obs.len(),
        sort_list(p, obs.subrange(0, i), s) is Err,
    ensures
        sort_list(p, obs, s) == sort_list(p, obs.subrange(0, i), s),
    decreases obs.len() - i,
{
    if i < obs.len() {
        assert(obs.subrange(0, i + 1).drop_last() =~= obs.subrange(0, i));
        lemma_sort_list_err(p, obs, s, i + 1);
    } else {
        assert(obs.subrange(0, i) =~= obs);
    }
}

/// The result field of `e` evaluated against an input of schema `input_schema`.
pub fn expr_to_field(e: &Expr, input_schema: &Schema) -> (r: Result<Field, ExecutionError>)
    ensures
        r matches Ok(f) ==> field_spec(e@, input_schema@) == Some(f@),
        r matches Err(err) ==> field_spec(e@, input_schema@) is None && err.kind() == ErrorKind::General,
{
    match e {
        Expr::Column(i) => if *i < input_schema.len() {
            let f = input_schema.field(*i);
            Ok(Field { name: f.name.clone(), data_type: f.data_type, nullable: f.nullable })
        } else {
            Err(message_error(String::from_str("Column index out of range")))
        },
        Expr::Literal(v) => Ok(Field::new("lit", v.get_datatype(), true)),
        Expr::ScalarFunction { name, return_type, .. } => Ok(
            Field { name: name.clone(), data_type: *return_type, nullable: true },
        ),
        Expr::AggregateFunction { name, return_type, .. } => Ok(
            Field { name: name.clone(), data_type: *return_type, nullable: true },
        ),
        Expr::Cast { data_type, .. } => Ok(Field::new("cast", *data_type, true)),
        Expr::BinaryExpr { .. } => match e.get_type(input_schema) {
            Some(t) => Ok(Field::new("binary_expr", t, true)),
            None => Err(message_error(String::from_str("Cannot determine the type of an expression"))),
        },
        Expr::IsNull(_) => Ok(Field::new("is_null", DataType::Boolean, true)),
        Expr::IsNotNull(_) => Ok(Field::new("is_not_null", DataType::Boolean, true)),
        Expr::Sort { .. } => Err(
            message_error(String::from_str("Cannot determine schema type for a sort expression")),
        ),
    }
}

/// The result fields of a list of expressions.
pub fn exprlist_to_fields(expr: &Vec<Expr>, input_schema: &Schema) -> (r: Result<Vec<Field>, ExecutionError>)
    ensures
        r matches Ok(v) ==> fields_spec(view_exprs(expr@), input_schema@) == Some(fields_view(v@)),
        r matches Err(err) ==> fields_spec(view_exprs(expr@), input_schema@) is None && err.kind()
            == ErrorKind::General,
{
    let ghost ves = view_exprs(expr@);
    proof {
        lemma_view_exprs(expr@);
    }
    let mut out: Vec<Field> = Vec::new();
    let mut i: usize = 0;
    assert(ves.subrange(0, 0) =~= Seq::<ExprV>::empty());
    assert(fields_view(out@) =~= Seq::<FieldV>::empty());
    while i < expr.len()
        invariant
            i <= expr@.len(),
            ves == view_exprs(expr@),
            ves.len() == expr@.len(),
            forall|j: int| 0 <= j < expr@.len() ==> #[trigger] ves[j] == view_expr(expr@[j]),
            fields_spec(ves.subrange(0, i as int), input_schema@) == Some(fields_view(out@)),
        decreases expr@.len() - i,
    {
        assert(ves.subrange(0, i + 1).drop_last() =~= ves.subrange(0, i as int));
        match expr_to_field(&expr[i], input_schema) {
            Ok(f) => {
                assert(fields_view(out@.push(f)) =~= fields_view(out@).push(f@));
                out.push(f);
            },
            Err(err) => {
                proof {
                    lemma_fields_spec_err(ves, input_schema@, i + 1);
                }
                return Err(err);
            },
        }
        i = i + 1;
    }
    assert(ves.subrange(0, expr@.len() as int) =~= ves);
    Ok(out)
}

/// Copies of the aggregate function calls among `exprs`, in order.
fn aggregates_of(exprs: &Vec<Expr>) -> (r: Vec<Expr>)
    ensures
        view_exprs(r@) == aggr_only(view_exprs(exprs@)),
{
    let ghost ves = view_exprs(exprs@);
    proof {
        lemma_view_exprs(exprs@);
    }
    let mut out: Vec<Expr> = Vec::new();
    let mut i: usize = 0;
    assert(ves.subrange(0, 0) =~= Seq::<ExprV>::empty());
    while i < exprs.len()
        invariant
            i <= exprs@.len(),
            ves == view_exprs(exprs@),
            ves.len() == exprs@.len(),
            forall|j: int| 0 <= j < exprs@.len() ==> #[trigger] ves[j] == view_expr(exprs@[j]),
            aggr_only(ves.subrange(0, i as int)) == view_exprs(out@),
        decreases exprs@.len() - i,
    {
        assert(ves.subrange(0, i + 1).drop_last() =~= ves.subrange(0, i as int));
        assert(ves.subrange(0, i + 1).last() == view_expr(exprs@[i as int]));
        if matches!(exprs[i], Expr::AggregateFunction { .. }) {
            let c = exprs[i].duplicate();
            proof {
                lemma_view_exprs_push(out@, c);
            }
            out.push(c);
        }
        i = i + 1;
    }
    assert(ves.subrange(0, exprs@.len() as int) =~= ves);
    out
}

fn message_error(m: String) -> (r: ExecutionError)
    ensures
        r.kind() == ErrorKind::General,
        r.message() == m@,
{
    ExecutionError::General(m)
}


impl<P: SchemaProvider> SqlToRel<P> {
    /// Translates the keys of an `ORDER BY` clause against `schema`.
    fn sort_keys(&self, obs: &Vec<OrderByExpr>, schema: &Schema) -> (r: Result<Vec<Expr>, ExecutionError>)
        ensures
            exprs_result(r) == sort_list(self.schema_provider, obs@, schema@),
    {
        let mut out: Vec<Expr> = Vec::new();
        let mut i: usize = 0;
        assert(obs@.subrange(0, 0) =~= Seq::<OrderByExpr>::empty());
        while i < obs.len()
            invariant
                i <= obs@.len(),
                sort_list(self.schema_provider, obs@.subrange(0, i as int), schema@) == Ok::<Seq<ExprV>, ErrorKind>(view_exprs(out@)),
            decreases obs@.len() - i,
        {
            assert(obs@.subrange(0, i + 1).drop_last() =~= obs@.subrange(0, i as int));
            assert(obs@.subrange(0, i + 1).last() == obs@[i as int]);
            let ob = &obs[i];
            match self.sql_to_rex(&ob.expr, schema) {
                Ok(e) => {
                    let key = Expr::Sort { expr: Box::new(e), asc: ob.asc };
                    proof {
                        lemma_view_exprs_push(out@, key);
                    }
                    out.push(key);
                },
                Err(err) => {
                    proof {
                        lemma_sort_list_err(self.schema_provider, obs@, schema@, i + 1);
                    }
                    return Err(err);
                },
            }
            i = i + 1;
        }
        assert(obs@.subrange(0, obs@.len() as int) =~= obs@);
        Ok(out)
    }

    /// The aggregation or projection at the heart of a `SELECT`.
    fn plan_core(
        &self,
        base: LogicalPlan,
        exprs: Vec<Expr>,
        group_by: &Option<Vec<SqlNode>>,
        input_schema: &Schema,
    ) -> (r: Result<LogicalPlan, ExecutionError>)
        ensures
            plan_result(r) == core_spec(self.schema_provider, base@, view_exprs(exprs@), *group_by, input_schema@),
    {
        let aggr = aggregates_of(&exprs);
        proof {
            lemma_view_exprs(aggr@);
        }
        if aggr.len() > 0 {
            let group = match group_by {
                Some(g) => match self.rex_list(g, input_schema) {
                    Ok(v) => v,
                    Err(err) => return Err(err),
                },
                None => {
                    let v: Vec<Expr> = Vec::new();
                    assert(view_exprs(v@) =~= Seq::<ExprV>::empty());
                    v
                },
            };
            let mut fields = match exprlist_to_fields(&group, input_schema) {
                Ok(v) => v,
                Err(err) => return Err(err),
            };
            let mut aggr_fields = match exprlist_to_fields(&aggr, input_schema) {
                Ok(v) => v,
                Err(err) => return Err(err),
            };
            let ghost gf = fields@;
            let ghost af = aggr_fields@;
            fields.append(&mut aggr_fields);
            assert(fields_view(fields@) =~= fields_view(gf) + fields_view(af));
            Ok(
                LogicalPlan::Aggregate {
                    input: Box::new(base),
                    group_expr: group,
                    aggr_expr: aggr,
                    schema: Schema::new(fields),
                },
            )
        } else {
            match exprlist_to_fields(&exprs, input_schema) {
                Ok(fs) => Ok(LogicalPlan::Projection { expr: exprs, input: Box::new(base), schema: Schema::new(fs) }),
                Err(err) => Err(err),
            }
        }
    }

    /// The plan of a `SELECT` over the plan `input` of its `FROM` clause.
    fn plan_select(
        &self,
        input: LogicalPlan,
        projection: &Vec<SqlNode>,
        selection: &Option<Box<SqlNode>>,
        order_by: &Option<Vec<OrderByExpr>>,
        group_by: &Option<Vec<SqlNode>>,
        having: &Option<Box<SqlNode>>,
        limit: &Option<Box<SqlNode>>,
    ) -> (r: Result<LogicalPlan, ExecutionError>)
        ensures
            plan_result(r) == select_spec(
                self.schema_provider,
                input@,
                projection@,
                *selection,
                *order_by,
                *group_by,
                *having,
                *limit,
            ),
    {
        let input_schema = input.schema().duplicate();
        let base = match selection {
            Some(f) => match self.sql_to_rex(f, &input_schema) {
                Ok(e) => LogicalPlan::Selection { expr: e, input: Box::new(input) },
                Err(err) => return Err(err),
            },
            None => input,
        };
        let exprs = match self.rex_list(projection, &input_schema) {
            Ok(v) => v,
            Err(err) => return Err(err),
        };
        if having.is_some() {
            return Err(message_error(String::from_str("HAVING is not implemented yet")));
        }
        let core = match self.plan_core(base, exprs, group_by, &input_schema) {
            Ok(c) => c,
            Err(err) => return Err(err),
        };
        let sorted = match order_by {
            Some(obs) => {
                let schema = core.schema().duplicate();
                match self.sort_keys(obs, &schema) {
                    Ok(keys) => LogicalPlan::Sort { expr: keys, input: Box::new(core), schema },
                    Err(err) => return Err(err),
                }
            },
            None => core,
        };
        match limit {
            Some(l) => {
                let schema = sorted.schema().duplicate();
                match self.sql_to_rex(l, &schema) {
                    Ok(e) => Ok(LogicalPlan::Limit { expr: e, input: Box::new(sorted), schema }),
                    Err(err) => Err(err),
                }
            },
            None => Ok(sorted),
        }
    }

    /// Translates a SQL statement or relation into a logical plan.
    pub fn sql_to_rel(&self, sql: &SqlNode) -> (r: Result<LogicalPlan, ExecutionError>)
        ensures
            plan_result(r) == rel(self.schema_provider, *sql),
        decreases sql,
    {
        match sql {
            SqlNode::Select { projection, relation, selection, order_by, group_by, having, limit } => {
                let input = match relation {
                    Some(r) => match self.sql_to_rel(r) {
                        Ok(pl) => pl,
                        Err(err) => return Err(err),
                    },
                    None => LogicalPlan::EmptyRelation { schema: Schema::empty() },
                };
                self.plan_select(input, projection, selection, order_by, group_by, having, limit)
            },
            SqlNode::Identifier(id) => match self.schema_provider.get_table_meta(id.as_str()) {
                Some(schema) => Ok(
                    LogicalPlan::TableScan {
                        schema_name: String::from_str("default"),
                        table_name: id.clone(),
                        schema,
                        projection: None,
                    },
                ),
                None => Err(message_error(message_with("no schema found for table ", id.as_str()))),
            },
            _ => Err(
                ExecutionError::ExecutionError(
                    String::from_str("sql_to_rel does not support this relation"),
                ),
            ),
        }
    }
}


impl<P: SchemaProvider> SqlToRel<P> {
    /// Plans a SQL statement and applies projection push-down to the plan.
    pub fn plan_query(&self, sql: &SqlNode) -> (r: Result<LogicalPlan, ExecutionError>)
        ensures
            r matches Ok(pl) ==> rel(self.schema_provider, *sql) matches Ok(v) && pl@
                == crate::optimizer::optimize_spec(v),
            r matches Err(err) ==> rel(self.schema_provider, *sql) == Err::<PlanV, ErrorKind>(err.kind()),
    {
        match self.sql_to_rel(sql) {
            Ok(pl) => Ok(crate::optimizer::optimize(pl)),
            Err(err) => Err(err),
        }
    }
}

/// Planning is deterministic: two translations of one statement against one
/// provider give the same plan, or errors of the same kind.
pub proof fn lemma_planner_deterministic<P: SchemaProvider>(
    p: P,
    n: SqlNode,
    r1: Result<LogicalPlan, ExecutionError>,
    r2: Result<LogicalPlan, ExecutionError>,
)
    requires
        plan_result(r1) == rel(p, n),
        plan_result(r2) == rel(p, n),
    ensures
        plan_result(r1) == plan_result(r2),
        r1 is Ok <==> r2 is Ok,
{
}


proof fn lemma_first_named_in_range(s: Seq<FieldV>, name: Seq<char>, i: nat)
    ensures
        first_named_from(s, name, i) matches Some(k) ==> k < s.len(),
    decreases s.len() - i,
{
    if i < s.len() {
        lemma_first_named_in_range(s, name, i + 1);
    }
}

proof fn lemma_cast_cols(e: ExprV, t: DataType, s: Seq<FieldV>)
    ensures
        cast_spec(e, t, s) matches Some(c) ==> cols(c) == cols(e),
{
}

proof fn lemma_cast_list_cols(es: Seq<ExprV>, params: Seq<FieldV>, s: Seq<FieldV>)
    ensures
        cast_list(es, params, s) matches Some(cs) ==> cols_list(cs) == cols_list(es),
    decreases es.len(),
{
    if es.len() > 0 {
        lemma_cast_list_cols(es.drop_last(), params, s);
        lemma_cast_cols(es.last(), params[es.len() - 1].data_type, s);
        if let Some(cs) = cast_list(es, params, s) {
            let prefix = cast_list(es.drop_last(), params, s)->0;
            assert(cs.drop_last() =~= prefix);
        }
    }
}

proof fn lemma_rex_within<P: SchemaProvider>(p: P, n: SqlNode, s: Seq<FieldV>)
    requires
        s.len() > 0,
    ensures
        rex(p, n, s) matches Ok(e) ==> within(cols(e), s.len()),
    decreases n,
{
    match n {
        SqlNode::Identifier(id) => {
            lemma_first_named_in_range(s, id@, 0);
        },
        SqlNode::Cast { expr, .. } => {
            lemma_rex_within(p, *expr, s);
        },
        SqlNode::IsNull(x) => {
            lemma_rex_within(p, *x, s);
        },
        SqlNode::IsNotNull(x) => {
            lemma_rex_within(p, *x, s);
        },
        SqlNode::BinaryExpr { left, right, .. } => {
            lemma_rex_within(p, *left, s);
            lemma_rex_within(p, *right, s);
            if let (Ok(l), Ok(r)) = (rex(p, *left, s), rex(p, *right, s)) {
                if let (Some(lt), Some(rt)) = (type_of(l, s), type_of(r, s)) {
                    if let Some(st) = supertype(lt, rt) {
                        lemma_cast_cols(l, st, s);
                        lemma_cast_cols(r, st, s);
                    }
                }
            }
        },
        SqlNode::Function { id, args } => {
            lemma_rex_list_within(p, args@, s);
            lemma_count_list_within(p, args@, s);
            if let Ok(es) = rex_list(p, args@, s) {
                if let Some((params, rt)) = p.function_meta(id@) {
                    if es.len() <= params.len() {
                        lemma_cast_list_cols(es, params, s);
                    }
                }
            }
        },
        _ => {},
    }
}

proof fn lemma_rex_list_within<P: SchemaProvider>(p: P, ns: Seq<SqlNode>, s: Seq<FieldV>)
    requires
        s.len() > 0,
    ensures
        rex_list(p, ns, s) matches Ok(es) ==> within(cols_list(es), s.len()),
    decreases ns,
{
    if ns.len() > 0 {
        lemma_rex_list_within(p, ns.drop_last(), s);
        lemma_rex_within(p, ns.last(), s);
        if let Ok(es) = rex_list(p, ns, s) {
            let prefix = rex_list(p, ns.drop_last(), s)->Ok_0;
            assert(es.drop_last() =~= prefix);
        }
    }
}

proof fn lemma_count_list_within<P: SchemaProvider>(p: P, ns: Seq<SqlNode>, s: Seq<FieldV>)
    requires
        s.len() > 0,
    ensures
        count_list(p, ns, s) matches Ok(es) ==> within(cols_list(es), s.len()),
    decreases ns,
{
    if ns.len() > 0 {
        lemma_count_list_within(p, ns.drop_last(), s);
        lemma_rex_within(p, ns.last(), s);
        if let Ok(es) = count_list(p, ns, s) {
            let prefix = count_list(p, ns.drop_last(), s)->Ok_0;
            assert(es.drop_last() =~= prefix);
            if counts_rows(ns.last()) {
                assert(es.last() == ExprV::Column(0));
                assert(cols(ExprV::Column(0)) =~= set![0usize]);
            }
            assert(cols_list(es) == cols_list(prefix) + cols(es.last()));
        }
    }
}

/// An expression translated against a schema of at least one field reads
/// only positions of that schema: column references address the input they
/// were resolved against.
pub proof fn lemma_rex_addresses_input<P: SchemaProvider>(p: P, n: SqlNode, s: Seq<FieldV>)
    requires
        s.len() > 0,
        rex(p, n, s) is Ok,
    ensures
        within(cols(rex(p, n, s)->Ok_0), s.len()),
{
    lemma_rex_within(p, n, s);
}


proof fn lemma_select_unprojected<P: SchemaProvider>(
    p: P,
    input: PlanV,
    projection: Seq<SqlNode>,
    selection: Option<Box<SqlNode>>,
    order_by: Option<Vec<OrderByExpr>>,
    group_by: Option<Vec<SqlNode>>,
    having: Option<Box<SqlNode>>,
    limit: Option<Box<SqlNode>>,
)
    requires
        scans_unprojected(input),
    ensures
        select_spec(p, input, projection, selection, order_by, group_by, having, limit) matches Ok(pl)
            ==> scans_unprojected(pl),
{
    let s = schema_of(input);
    let base = match selection {
        Some(f) => match rex(p, *f, s) {
            Ok(e) => PlanV::Selection { expr: e, input: Box::new(input) },
            Err(_) => input,
        },
        None => input,
    };
    assert(scans_unprojected(base));
    if let Ok(exprs) = rex_list(p, projection, s) {
        if let Ok(core) = core_spec(p, base, exprs, group_by, s) {
            assert(scans_unprojected(core));
            if let Ok(sorted) = order_spec(p, core, order_by) {
                assert(scans_unprojected(sorted));
                if let Ok(limited) = limit_spec(p, sorted, limit) {
                    assert(scans_unprojected(limited));
                }
            }
        }
    }
}

proof fn lemma_rel_unprojected<P: SchemaProvider>(p: P, n: SqlNode)
    ensures
        rel(p, n) matches Ok(pl) ==> scans_unprojected(pl),
    decreases n,
{
    match n {
        SqlNode::Select { projection, relation, selection, order_by, group_by, having, limit } => {
            let input = match relation {
                Some(r) => {
                    lemma_rel_unprojected(p, *r);
                    rel(p, *r)
                },
                None => Ok(PlanV::EmptyRelation { schema: Seq::empty() }),
            };
            if let Ok(i) = input {
                lemma_select_unprojected(p, i, projection@, selection, order_by, group_by, having, limit);
            }
        },
        _ => {},
    }
}

/// In every optimized plan of a SQL statement, each table scan's projection
/// holds every column that the operators above it read from the scan's rows.
pub proof fn lemma_planned_projections_cover<P: SchemaProvider>(p: P, n: SqlNode)
    requires
        rel(p, n) is Ok,
    ensures
        covers(optimize_spec(rel(p, n)->Ok_0), Set::empty()),
{
    lemma_rel_unprojected(p, n);
    lemma_optimize_covers(rel(p, n)->Ok_0);
}

} // verus!
