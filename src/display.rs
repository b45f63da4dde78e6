//! The text form of expressions and plans: one line per plan node, each
//! child indented by two more spaces than its parent.

use vstd::prelude::*;
use crate::datatypes::DataType;
use crate::logical::{Expr, ExprV, LogicalPlan, Operator, PlanV, ScalarValue, view_expr, view_exprs, lemma_view_exprs};

verus! {

pub open spec fn digit_text(d: nat) -> Seq<char> {
    if d == 0 {
        "0"@
    } else if d == 1 {
        "1"@
    } else if d == 2 {
        "2"@
    } else if d == 3 {
        "3"@
    } else if d == 4 {
        "4"@
    } else if d == 5 {
        "5"@
    } else if d == 6 {
        "6"@
    } else if d == 7 {
        "7"@
    } else if d == 8 {
        "8"@
    } else {
        "9"@
    }
}

/// The decimal digits of `n`.
pub open spec fn decimal(n: nat) -> Seq<char>
    decreases n,
{
    if n < 10 {
        digit_text(n)
    } else {
        decimal(n / 10) + digit_text(n % 10)
    }
}

/// The decimal form of `x`, with a leading minus sign where it is negative.
pub open spec fn int_text(x: int) -> Seq<char> {
    if x < 0 {
        "-"@ + decimal((-x) as nat)
    } else {
        decimal(x as nat)
    }
}

pub open spec fn bool_text(b: bool) -> Seq<char> {
    if b {
        "true"@
    } else {
        "false"@
    }
}

pub open spec fn type_text(t: DataType) -> Seq<char> {
    match t {
        DataType::Boolean => "Boolean"@,
        DataType::Int8 => "Int8"@,
        DataType::Int16 => "Int16"@,
        DataType::Int32 => "Int32"@,
        DataType::Int64 => "Int64"@,
        DataType::UInt8 => "UInt8"@,
        DataType::UInt16 => "UInt16"@,
        DataType::UInt32 => "UInt32"@,
        DataType::UInt64 => "UInt64"@,
        DataType::Float32 => "Float32"@,
        DataType::Float64 => "Float64"@,
        DataType::Utf8 => "Utf8"@,
    }
}

pub open spec fn op_text(op: Operator) -> Seq<char> {
    match op {
        Operator::Gt => "Gt"@,
        Operator::GtEq => "GtEq"@,
        Operator::Lt => "Lt"@,
        Operator::LtEq => "LtEq"@,
        Operator::Eq => "Eq"@,
        Operator::NotEq => "NotEq"@,
        Operator::Plus => "Plus"@,
        Operator::Minus => "Minus"@,
        Operator::Multiply => "Multiply"@,
        Operator::Divide => "Divide"@,
        Operator::Modulus => "Modulus"@,
        Operator::And => "And"@,
        Operator::Or => "Or"@,
        Operator::Not => "Not"@,
        Operator::Like => "Like"@,
        Operator::NotLike => "NotLike"@,
    }
}

/// The text of a literal: its type and its value; a floating-point value is
/// shown by its bit pattern.
pub open spec fn value_text(v: ScalarValue) -> Seq<char> {
    match v {
        ScalarValue::Boolean(b) => "Boolean("@ + bool_text(b) + ")"@,
        ScalarValue::Int8(x) => "Int8("@ + int_text(x as int) + ")"@,
        ScalarValue::Int16(x) => "Int16("@ + int_text(x as int) + ")"@,
        ScalarValue::Int32(x) => "Int32("@ + int_text(x as int) + ")"@,
        ScalarValue::Int64(x) => "Int64("@ + int_text(x as int) + ")"@,
        ScalarValue::UInt8(x) => "UInt8("@ + int_text(x as int) + ")"@,
        ScalarValue::UInt16(x) => "UInt16("@ + int_text(x as int) + ")"@,
        ScalarValue::UInt32(x) => "UInt32("@ + int_text(x as int) + ")"@,
        ScalarValue::UInt64(x) => "UInt64("@ + int_text(x as int) + ")"@,
        ScalarValue::Float32(x) => "Float32(bits "@ + int_text(x as int) + ")"@,
        ScalarValue::Float64(x) => "Float64(bits "@ + int_text(x as int) + ")"@,
        ScalarValue::Utf8(s) => "Utf8(\""@ + s@ + "\")"@,
    }
}

/// The text of an expression.
pub open spec fn expr_text(e: ExprV) -> Seq<char>
    decreases e,
{
    match e {
        ExprV::Column(i) => "#"@ + int_text(i as int),
        ExprV::Literal(v) => value_text(v),
        ExprV::BinaryExpr { left, op, right } => expr_text(*left) + " "@ + op_text(op) + " "@
            + expr_text(*right),
        ExprV::IsNull(x) => expr_text(*x) + " IS NULL"@,
        ExprV::IsNotNull(x) => expr_text(*x) + " IS NOT NULL"@,
        ExprV::Cast { expr, data_type } => "CAST("@ + expr_text(*expr) + " AS "@ + type_text(
            data_type,
        ) + ")"@,
        ExprV::ScalarFunction { name, args, .. } => name + "("@ + list_text(args) + ")"@,
        ExprV::AggregateFunction { name, args, .. } => name + "("@ + list_text(args) + ")"@,
        ExprV::Sort { expr, asc } => expr_text(*expr) + if asc {
            " ASC"@
        } else {
            " DESC"@
        },
    }
}

/// The texts of a list of expressions, separated by `, `.
pub open spec fn list_text(es: Seq<ExprV>) -> Seq<char>
    decreases es,
{
    if es.len() == 0 {
        Seq::empty()
    } else if es.len() == 1 {
        expr_text(es[0])
    } else {
        list_text(es.drop_last()) + ", "@ + expr_text(es.last())
    }
}

/// A list of column positions as `[0, 1, 2]`.
pub open spec fn indices_text(q: Seq<usize>) -> Seq<char>
    decreases q.len(),
{
    if q.len() == 0 {
        Seq::empty()
    } else if q.len() == 1 {
        int_text(q[0] as int)
    } else {
        indices_text(q.drop_last()) + ", "@ + int_text(q.last() as int)
    }
}

pub open spec fn projection_text(p: Option<Seq<usize>>) -> Seq<char> {
    match p {
        Some(q) => "Some(["@ + indices_text(q) + "])"@,
        None => "None"@,
    }
}

/// The start of the line of a child of a node whose line starts with `lead`:
/// a line break and two more spaces of indentation.
pub open spec fn child_lead(lead: Seq<char>) -> Seq<char> {
    if lead.len() == 0 {
        "\n  "@
    } else {
        lead + "  "@
    }
}

/// The text of a plan whose first line starts with `lead`.
pub open spec fn plan_text(p: PlanV, lead: Seq<char>) -> Seq<char>
    decreases p,
{
    lead + match p {
        PlanV::EmptyRelation { .. } => "EmptyRelation"@,
        PlanV::TableScan { table_name, projection, .. } => "TableScan: "@ + table_name
            + " projection="@ + projection_text(projection),
        PlanV::Selection { expr, input } => "Selection: "@ + expr_text(expr) + plan_text(
            *input,
            child_lead(lead),
        ),
        PlanV::Projection { expr, input, .. } => "Projection: "@ + list_text(expr) + plan_text(
            *input,
            child_lead(lead),
        ),
        PlanV::Aggregate { input, group_expr, aggr_expr, .. } => "Aggregate: groupBy=[["@
            + list_text(group_expr) + "]], aggr=[["@ + list_text(aggr_expr) + "]]"@ + plan_text(
            *input,
            child_lead(lead),
        ),
        PlanV::Sort { expr, input, .. } => "Sort: "@ + list_text(expr) + plan_text(*input, child_lead(lead)),
        PlanV::Limit { expr, input, .. } => "Limit: "@ + expr_text(expr) + plan_text(*input, child_lead(lead)),
    }
}

fn digit_str(d: u64) -> (r: &'static str)
    requires
        d < 10,
    ensures
        r@ == digit_text(d as nat),
{
    if d == 0 {
        "0"
    } else if d == 1 {
        "1"
    } else if d == 2 {
        "2"
    } else if d == 3 {
        "3"
    } else if d == 4 {
        "4"
    } else if d == 5 {
        "5"
    } else if d == 6 {
        "6"
    } else if d == 7 {
        "7"
    } else if d == 8 {
        "8"
    } else {
        "9"
    }
}

fn write_decimal(out: &mut String, n: u64)
    ensures
        final(out)@ == old(out)@ + decimal(n as nat),
    decreases n,
{
    if n >= 10 {
        write_decimal(out, n / 10);
    }
    out.append(digit_str(n % 10));
    assert(final(out)@ =~= old(out)@ + decimal(n as nat));
}

fn write_signed(out: &mut String, x: i64)
    ensures
        final(out)@ == old(out)@ + int_text(x as int),
{
    if x < 0 {
        out.append("-");
        let m: u64 = (-(x as i128)) as u64;
        write_decimal(out, m);
        assert(final(out)@ =~= old(out)@ + int_text(x as int));
    } else {
        write_decimal(out, x as u64);
    }
}

pub(crate) fn type_str(t: DataType) -> (r: &'static str)
    ensures
        r@ == type_text(t),
{
    match t {
        DataType::Boolean => "Boolean",
        DataType::Int8 => "Int8",
        DataType::Int16 => "Int16",
        DataType::Int32 => "Int32",
        DataType::Int64 => "Int64",
        DataType::UInt8 => "UInt8",
        DataType::UInt16 => "UInt16",
        DataType::UInt32 => "UInt32",
        DataType::UInt64 => "UInt64",
        DataType::Float32 => "Float32",
        DataType::Float64 => "Float64",
        DataType::Utf8 => "Utf8",
    }
}

fn op_str(op: Operator) -> (r: &'static str)
    ensures
        r@ == op_text(op),
{
    match op {
        Operator::Gt => "Gt",
        Operator::GtEq => "GtEq",
        Operator::Lt => "Lt",
        Operator::LtEq => "LtEq",
        Operator::Eq => "Eq",
        Operator::NotEq => "NotEq",
        Operator::Plus => "Plus",
        Operator::Minus => "Minus",
        Operator::Multiply => "Multiply",
        Operator::Divide => "Divide",
        Operator::Modulus => "Modulus",
        Operator::And => "And",
        Operator::Or => "Or",
        Operator::Not => "Not",
        Operator::Like => "Like",
        Operator::NotLike => "NotLike",
    }
}

fn write_wrapped(out: &mut String, open: &str, x: i64)
    ensures
        final(out)@ == old(out)@ + open@ + int_text(x as int) + ")"@,
{
    out.append(open);
    write_signed(out, x);
    out.append(")");
    assert(final(out)@ =~= old(out)@ + open@ + int_text(x as int) + ")"@);
}

fn write_value(out: &mut String, v: &ScalarValue)
    ensures
        final(out)@ == old(out)@ + value_text(*v),
{
    match v {
        ScalarValue::Boolean(b) => {
            out.append("Boolean(");
            out.append(if *b { "true" } else { "false" });
            out.append(")");
            assert(final(out)@ =~= old(out)@ + value_text(*v));
        },
        ScalarValue::Int8(x) => write_wrapped(out, "Int8(", *x as i64),
        ScalarValue::Int16(x) => write_wrapped(out, "Int16(", *x as i64),
        ScalarValue::Int32(x) => write_wrapped(out, "Int32(", *x as i64),
        ScalarValue::Int64(x) => write_wrapped(out, "Int64(", *x),
        ScalarValue::UInt8(x) => write_wrapped(out, "UInt8(", *x as i64),
        ScalarValue::UInt16(x) => write_wrapped(out, "UInt16(", *x as i64),
        ScalarValue::UInt32(x) => write_wrapped(out, "UInt32(", *x as i64),
        ScalarValue::UInt64(x) => {
            out.append("UInt64(");
            write_decimal(out, *x);
            out.append(")");
            assert(final(out)@ =~= old(out)@ + value_text(*v));
        },
        ScalarValue::Float32(x) => write_wrapped(out, "Float32(bits ", *x as i64),
        ScalarValue::Float64(x) => {
            out.append("Float64(bits ");
            write_decimal(out, *x);
            out.append(")");
            assert(final(out)@ =~= old(out)@ + value_text(*v));
        },
        ScalarValue::Utf8(s) => {
            out.append("Utf8(\"");
            out.append(s.as_str());
            out.append("\")");
            assert(final(out)@ =~= old(out)@ + value_text(*v));
        },
    }
}

/// Appends the text of `e` to `out`.
pub fn write_expr(out: &mut String, e: &Expr)
    ensures
        final(out)@ == old(out)@ + expr_text(e@),
    decreases e,
{
    match e {
        Expr::Column(i) => {
            out.append("#");
            write_decimal(out, *i as u64);
            assert(final(out)@ =~= old(out)@ + expr_text(e@));
        },
        Expr::Literal(v) => write_value(out, v),
        Expr::BinaryExpr { left, op, right } => {
            write_expr(out, left);
            out.append(" ");
            out.append(op_str(*op));
            out.append(" ");
            write_expr(out, right);
            assert(final(out)@ =~= old(out)@ + expr_text(e@));
        },
        Expr::IsNull(x) => {
            write_expr(out, x);
            out.append(" IS NULL");
            assert(final(out)@ =~= old(out)@ + expr_text(e@));
        },
        Expr::IsNotNull(x) => {
            write_expr(out, x);
            out.append(" IS NOT NULL");
            assert(final(out)@ =~= old(out)@ + expr_text(e@));
        },
        Expr::Cast { expr, data_type } => {
            out.append("CAST(");
            write_expr(out, expr);
            out.append(" AS ");
            out.append(type_str(*data_type));
            out.append(")");
            assert(final(out)@ =~= old(out)@ + expr_text(e@));
        },
        Expr::ScalarFunction { name, args, .. } => {
            out.append(name.as_str());
            out.append("(");
            write_list(out, args);
            out.append(")");
            assert(final(out)@ =~= old(out)@ + expr_text(e@));
        },
        Expr::AggregateFunction { name, args, .. } => {
            out.append(name.as_str());
            out.append("(");
            write_list(out, args);
            out.append(")");
            assert(final(out)@ =~= old(out)@ + expr_text(e@));
        },
        Expr::Sort { expr, asc } => {
            write_expr(out, expr);
            out.append(if *asc { " ASC" } else { " DESC" });
            assert(final(out)@ =~= old(out)@ + expr_text(e@));
        },
    }
}

/// Appends the texts of `es`, separated by `, `, to `out`.
pub fn write_list(out: &mut String, es: &Vec<Expr>)
    ensures
        final(out)@ == old(out)@ + list_text(view_exprs(es@)),
    decreases es,
{
    let ghost ves = view_exprs(es@);
    proof {
        lemma_view_exprs(es@);
    }
    let mut i: usize = 0;
    assert(ves.subrange(0, 0) =~= Seq::<ExprV>::empty());
    assert(out@ =~= old(out)@ + list_text(ves.subrange(0, 0)));
    while i < es.len()
        invariant
            i <= es@.len(),
            ves == view_exprs(es@),
            ves.len() == es@.len(),
            forall|j: int| 0 <= j < es@.len() ==> #[trigger] ves[j] == view_expr(es@[j]),
            out@ == old(out)@ + list_text(ves.subrange(0, i as int)),
        decreases es@.len() - i,
    {
        let ghost before = out@;
        let ghost sub = ves.subrange(0, i + 1);
        assert(sub.drop_last() =~= ves.subrange(0, i as int));
        proof {
            assert(decreases_to!(es => es@[i as int]));
        }
        if i > 0 {
            out.append(", ");
        }
        write_expr(out, &es[i]);
        assert(out@ =~= old(out)@ + list_text(sub));
        i = i + 1;
    }
    assert(ves.subrange(0, es@.len() as int) =~= ves);
}

fn write_indices(out: &mut String, q: &Vec<usize>)
    ensures
        final(out)@ == old(out)@ + indices_text(q@),
{
    let mut i: usize = 0;
    assert(out@ =~= old(out)@ + indices_text(q@.subrange(0, 0)));
    while i < q.len()
        invariant
            i <= q@.len(),
            out@ == old(out)@ + indices_text(q@.subrange(0, i as int)),
        decreases q@.len() - i,
    {
        let ghost sub = q@.subrange(0, i + 1);
        assert(sub.drop_last() =~= q@.subrange(0, i as int));
        if i > 0 {
            out.append(", ");
        }
        write_decimal(out, q[i] as u64);
        assert(out@ =~= old(out)@ + indices_text(sub));
        i = i + 1;
    }
    assert(q@.subrange(0, q@.len() as int) =~= q@);
}

fn child_lead_of(lead: &String) -> (r: String)
    ensures
        r@ == child_lead(lead@),
{
    if lead.unicode_len() == 0 {
        String::from_str("\n  ")
    } else {
        lead.clone().concat("  ")
    }
}

/// Appends the text of `p`, its first line starting with `lead`, to `out`.
pub fn write_plan(out: &mut String, p: &LogicalPlan, lead: &String)
    ensures
        final(out)@ == old(out)@ + plan_text(p@, lead@),
    decreases p,
{
    out.append(lead.as_str());
    match p {
        LogicalPlan::EmptyRelation { .. } => {
            out.append("EmptyRelation");
        },
        LogicalPlan::TableScan { table_name, projection, .. } => {
            out.append("TableScan: ");
            out.append(table_name.as_str());
            out.append(" projection=");
            match projection {
                Some(q) => {
                    out.append("Some([");
                    write_indices(out, q);
                    out.append("])");
                },
                None => {
                    out.append("None");
                },
            }
        },
        LogicalPlan::Selection { expr, input } => {
            out.append("Selection: ");
            write_expr(out, expr);
            write_plan(out, input, &child_lead_of(lead));
        },
        LogicalPlan::Projection { expr, input, .. } => {
            out.append("Projection: ");
            write_list(out, expr);
            write_plan(out, input, &child_lead_of(lead));
        },
        LogicalPlan::Aggregate { input, group_expr, aggr_expr, .. } => {
            out.append("Aggregate: groupBy=[[");
            write_list(out, group_expr);
            out.append("]], aggr=[[");
            write_list(out, aggr_expr);
            out.append("]]");
            write_plan(out, input, &child_lead_of(lead));
        },
        LogicalPlan::Sort { expr, input, .. } => {
            out.append("Sort: ");
            write_list(out, expr);
            write_plan(out, input, &child_lead_of(lead));
        },
        LogicalPlan::Limit { expr, input, .. } => {
            out.append("Limit: ");
            write_expr(out, expr);
            write_plan(out, input, &child_lead_of(lead));
        },
    }
    assert(final(out)@ =~= old(out)@ + plan_text(p@, lead@));
}

impl LogicalPlan {
    /// The text of this plan, one line per node.
    pub fn to_text(&self) -> (r: String)
        ensures
            r@ == plan_text(self@, Seq::empty()),
    {
        let mut out = String::new();
        let lead = String::new();
        write_plan(&mut out, self, &lead);
        assert(out@ =~= plan_text(self@, Seq::empty()));
        out
    }
}

impl Expr {
    /// The text of this expression.
    pub fn to_text(&self) -> (r: String)
        ensures
            r@ == expr_text(self@),
    {
        let mut out = String::new();
        write_expr(&mut out, self);
        assert(out@ =~= expr_text(self@));
        out
    }
}

} // verus!
