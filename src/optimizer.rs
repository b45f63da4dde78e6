//! Projection push-down: rewrites a logical plan so that each table scan
//! reads only the columns that the operators above it use.

use vstd::prelude::*;
use crate::logical::{Expr, ExprV, LogicalPlan, PlanV, view_expr, view_exprs, lemma_view_exprs, schema_of};

verus! {

/// The columns that an expression reads.
pub open spec fn cols(e: ExprV) -> Set<usize>
    decreases e,
{
    match e {
        ExprV::Column(i) => set![i],
        ExprV::Literal(_) => Set::empty(),
        ExprV::BinaryExpr { left, right, .. } => cols(*left) + cols(*right),
        ExprV::IsNull(x) => cols(*x),
        ExprV::IsNotNull(x) => cols(*x),
        ExprV::Cast { expr, .. } => cols(*expr),
        ExprV::ScalarFunction { args, .. } => cols_list(args),
        ExprV::AggregateFunction { args, .. } => cols_list(args),
        ExprV::Sort { expr, .. } => cols(*expr),
    }
}

/// The columns that a list of expressions reads.
pub open spec fn cols_list(es: Seq<ExprV>) -> Set<usize>
    decreases es,
{
    if es.len() == 0 {
        Set::empty()
    } else {
        cols_list(es.drop_last()) + cols(es.last())
    }
}

/// Whether `s` is in strictly increasing order.
pub open spec fn strictly_sorted(s: Seq<usize>) -> bool {
    forall|i: int, j: int| 0 <= i < j < s.len() ==> s[i] < s[j]
}

/// The members of `s` below `n`, in increasing order.
pub open spec fn sorted_below(s: Set<usize>, n: nat) -> Seq<usize>
    decreases n,
{
    if n == 0 {
        Seq::empty()
    } else if n - 1 <= usize::MAX && s.contains((n - 1) as usize) {
        sorted_below(s, (n - 1) as nat).push((n - 1) as usize)
    } else {
        sorted_below(s, (n - 1) as nat)
    }
}

/// The members of `s` in increasing order.
pub open spec fn sorted_of(s: Set<usize>) -> Seq<usize> {
    sorted_below(s, usize::MAX as nat + 1)
}

proof fn lemma_sorted_below(s: Set<usize>, n: nat)
    ensures
        strictly_sorted(sorted_below(s, n)),
        forall|k: int| 0 <= k < sorted_below(s, n).len() ==> (#[trigger] sorted_below(s, n)[k]) < n,
        forall|x: usize| #[trigger] sorted_below(s, n).to_set().contains(x) <==> (s.contains(x) && x < n),
    decreases n,
{
    if n > 0 {
        lemma_sorted_below(s, (n - 1) as nat);
        let prev = sorted_below(s, (n - 1) as nat);
        if n - 1 <= usize::MAX && s.contains((n - 1) as usize) {
            let cur = prev.push((n - 1) as usize);
            assert forall|x: usize| #[trigger] cur.to_set().contains(x) <==> (s.contains(x) && x < n) by {
                if cur.to_set().contains(x) {
                    let k = choose|k: int| 0 <= k < cur.len() && cur[k] == x;
                    if k < prev.len() {
                        assert(prev[k] == x);
                        assert(prev.to_set().contains(x));
                    }
                }
                if s.contains(x) && x < n {
                    if x == n - 1 {
                        assert(cur[prev.len() as int] == x);
                    } else {
                        assert(prev.to_set().contains(x));
                        let k = choose|k: int| 0 <= k < prev.len() && prev[k] == x;
                        assert(cur[k] == x);
                    }
                }
            }
        } else {
            assert forall|x: usize| #[trigger] prev.to_set().contains(x) <==> (s.contains(x) && x < n) by {
                if prev.to_set().contains(x) {
                    let k = choose|k: int| 0 <= k < prev.len() && prev[k] == x;
                    assert(prev[k] < n - 1);
                }
            }
        }
    }
}

/// `sorted_of(s)` is in increasing order and holds exactly the members of `s`.
pub proof fn lemma_sorted_of(s: Set<usize>)
    ensures
        strictly_sorted(sorted_of(s)),
        sorted_of(s).to_set() == s,
{
    lemma_sorted_below(s, usize::MAX as nat + 1);
    assert(sorted_of(s).to_set() =~= s);
}

/// Two increasing sequences with the same members are equal.
pub proof fn lemma_sorted_unique(a: Seq<usize>, b: Seq<usize>)
    requires
        strictly_sorted(a),
        strictly_sorted(b),
        a.to_set() == b.to_set(),
    ensures
        a == b,
    decreases a.len(),
{
    if a.len() == 0 {
        if b.len() > 0 {
            assert(b.to_set().contains(b[0]));
        }
        assert(a =~= b);
    } else {
        assert(a.to_set().contains(a.last()));
        if b.len() == 0 {
            assert(false);
        }
        assert(b.to_set().contains(b.last()));
        let ja = choose|k: int| 0 <= k < b.len() && b[k] == a.last();
        let jb = choose|k: int| 0 <= k < a.len() && a[k] == b.last();
        assert(a.last() == b.last());
        let m = a.last();
        let a2 = a.drop_last();
        let b2 = b.drop_last();
        assert forall|x: usize| #[trigger] a2.to_set().contains(x) <==> b2.to_set().contains(x) by {
            if a2.to_set().contains(x) {
                let k = choose|k: int| 0 <= k < a2.len() && a2[k] == x;
                assert(a.to_set().contains(x));
                let kb = choose|kk: int| 0 <= kk < b.len() && b[kk] == x;
                assert(x < m);
                assert(kb != b.len() - 1);
                assert(b2[kb] == x);
            }
            if b2.to_set().contains(x) {
                let k = choose|k: int| 0 <= k < b2.len() && b2[k] == x;
                assert(b.to_set().contains(x));
                let ka = choose|kk: int| 0 <= kk < a.len() && a[kk] == x;
                assert(x < m);
                assert(ka != a.len() - 1);
                assert(a2[ka] == x);
            }
        }
        assert(a2.to_set() =~= b2.to_set());
        lemma_sorted_unique(a2, b2);
        assert(a.len() == b.len());
        assert forall|i: int| 0 <= i < a.len() implies a[i] == b[i] by {
            if i < a.len() - 1 {
                assert(a[i] == a2[i]);
                assert(b[i] == b2[i]);
            }
        }
        assert(a =~= b);
    }
}

/// Adds `x` to the increasing sequence `v`, keeping it increasing.
fn insert_sorted(v: &mut Vec<usize>, x: usize)
    requires
        strictly_sorted(old(v)@),
    ensures
        strictly_sorted(final(v)@),
        final(v)@.to_set() == old(v)@.to_set().insert(x),
{
    let mut i: usize = 0;
    while i < v.len() && v[i] < x
        invariant
            i <= v@.len(),
            forall|k: int| 0 <= k < i ==> v@[k] < x,
        decreases v@.len() - i,
    {
        i = i + 1;
    }
    if i < v.len() && v[i] == x {
        assert(v@.to_set().contains(x));
        assert(v@.to_set() =~= v@.to_set().insert(x));
        return;
    }
    let ghost before = v@;
    v.insert(i, x);
    assert(v@ == before.insert(i as int, x));
    assert forall|a: int, b: int| 0 <= a < b < v@.len() implies v@[a] < v@[b] by {
        if b < i {
        } else if b == i {
        } else if a < i {
            assert(before[b - 1] >= x || b - 1 == i);
            if b - 1 > i {
                assert(before[i as int] < before[b - 1]);
            }
        } else if a == i {
            if b - 1 > i {
                assert(before[i as int] < before[b - 1]);
            }
        } else {
        }
    }
    assert forall|y: usize| #[trigger] v@.to_set().contains(y) <==> before.to_set().insert(x).contains(y) by {
        if v@.to_set().contains(y) {
            let k = choose|k: int| 0 <= k < v@.len() && v@[k] == y;
            if k < i {
                assert(before[k] == y);
            } else if k > i {
                assert(before[k - 1] == y);
            }
        }
        if before.to_set().contains(y) {
            let k = choose|k: int| 0 <= k < before.len() && before[k] == y;
            if k < i {
                assert(v@[k] == y);
            } else {
                assert(v@[k + 1] == y);
            }
        }
        if y == x {
            assert(v@[i as int] == x);
        }
    }
    assert(v@.to_set() =~= before.to_set().insert(x));
}

/// Adds the columns that `e` reads to `accum`.
pub fn collect_expr(e: &Expr, accum: &mut Vec<usize>)
    requires
        strictly_sorted(old(accum)@),
    ensures
        strictly_sorted(final(accum)@),
        final(accum)@.to_set() == old(accum)@.to_set() + cols(e@),
    decreases e,
{
    match e {
        Expr::Column(i) => {
            insert_sorted(accum, *i);
            assert(old(accum)@.to_set().insert(*i) =~= old(accum)@.to_set() + set![*i]);
        },
        Expr::Literal(_) => {
            assert(accum@.to_set() =~= old(accum)@.to_set() + Set::<usize>::empty());
        },
        Expr::BinaryExpr { left, right, .. } => {
            collect_expr(left, accum);
            collect_expr(right, accum);
            assert(accum@.to_set() =~= old(accum)@.to_set() + cols(e@));
        },
        Expr::IsNull(x) => collect_expr(x, accum),
        Expr::IsNotNull(x) => collect_expr(x, accum),
        Expr::Cast { expr, .. } => collect_expr(expr, accum),
        Expr::ScalarFunction { args, .. } => collect_exprs(args, accum),
        Expr::AggregateFunction { args, .. } => collect_exprs(args, accum),
        Expr::Sort { expr, .. } => collect_expr(expr, accum),
    }
}

/// Adds the columns that the expressions of `es` read to `accum`.
pub fn collect_exprs(es: &Vec<Expr>, accum: &mut Vec<usize>)
    requires
        strictly_sorted(old(accum)@),
    ensures
        strictly_sorted(final(accum)@),
        final(accum)@.to_set() == old(accum)@.to_set() + cols_list(view_exprs(es@)),
    decreases es,
{
    let ghost ves = view_exprs(es@);
    proof {
        lemma_view_exprs(es@);
    }
    let mut i: usize = 0;
    assert(ves.subrange(0, 0) =~= Seq::<ExprV>::empty());
    assert(accum@.to_set() =~= old(accum)@.to_set() + Set::<usize>::empty());
    while i < es.len()
        invariant
            i <= es@.len(),
            ves == view_exprs(es@),
            ves.len() == es@.len(),
            forall|j: int| 0 <= j < es@.len() ==> #[trigger] ves[j] == view_expr(es@[j]),
            strictly_sorted(accum@),
            accum@.to_set() == old(accum)@.to_set() + cols_list(ves.subrange(0, i as int)),
        decreases es@.len() - i,
    {
        assert(ves.subrange(0, i + 1).drop_last() =~= ves.subrange(0, i as int));
        proof {
            assert(decreases_to!(es => es@[i as int]));
        }
        collect_expr(&es[i], accum);
        assert(accum@.to_set() =~= old(accum)@.to_set() + cols_list(ves.subrange(0, i + 1)));
        i = i + 1;
    }
    assert(ves.subrange(0, es@.len() as int) =~= ves);
}

/// The plan `p` with each table scan reached through selections and
/// aggregations reading the columns needed above it: `needed` at the top,
/// widened by each selection's predicate and replaced by each aggregation's
/// expressions. Projections, sorts, limits and empty relations are kept as
/// they are.
pub open spec fn push_spec(p: PlanV, needed: Set<usize>) -> PlanV
    decreases p,
{
    match p {
        PlanV::Aggregate { input, group_expr, aggr_expr, schema } => PlanV::Aggregate {
            input: Box::new(push_spec(*input, cols_list(group_expr) + cols_list(aggr_expr))),
            group_expr,
            aggr_expr,
            schema,
        },
        PlanV::Selection { expr, input } => PlanV::Selection {
            expr,
            input: Box::new(push_spec(*input, needed + cols(expr))),
        },
        PlanV::TableScan { schema_name, table_name, schema, .. } => PlanV::TableScan {
            schema_name,
            table_name,
            schema,
            projection: Some(sorted_of(needed)),
        },
        _ => p,
    }
}

/// The optimized form of `p`: a projection at the top seeds the needed
/// columns with the columns of its expressions.
pub open spec fn optimize_spec(p: PlanV) -> PlanV {
    match p {
        PlanV::Projection { expr, input, schema } => PlanV::Projection {
            expr,
            input: Box::new(push_spec(*input, cols_list(expr))),
            schema,
        },
        _ => push_spec(p, Set::empty()),
    }
}

/// Rewrites `plan` so that its table scans read the columns in `projection`
/// and those that the selections and aggregations above them use.
pub fn push_down_projection(plan: LogicalPlan, projection: &Vec<usize>) -> (r: LogicalPlan)
    requires
        strictly_sorted(projection@),
    ensures
        r@ == push_spec(plan@, projection@.to_set()),
    decreases plan,
{
    match plan {
        LogicalPlan::Aggregate { input, group_expr, aggr_expr, schema } => {
            let mut accum: Vec<usize> = Vec::new();
            assert(accum@.to_set() =~= Set::<usize>::empty());
            collect_exprs(&group_expr, &mut accum);
            collect_exprs(&aggr_expr, &mut accum);
            assert(accum@.to_set() =~= cols_list(view_exprs(group_expr@)) + cols_list(view_exprs(aggr_expr@)));
            LogicalPlan::Aggregate {
                input: Box::new(push_down_projection(*input, &accum)),
                group_expr,
                aggr_expr,
                schema,
            }
        },
        LogicalPlan::Selection { expr, input } => {
            let mut accum: Vec<usize> = copy_indices(projection);
            collect_expr(&expr, &mut accum);
            LogicalPlan::Selection { expr, input: Box::new(push_down_projection(*input, &accum)) }
        },
        LogicalPlan::TableScan { schema_name, table_name, schema, .. } => {
            let p = copy_indices(projection);
            proof {
                lemma_sorted_of(projection@.to_set());
                lemma_sorted_unique(p@, sorted_of(projection@.to_set()));
            }
            LogicalPlan::TableScan { schema_name, table_name, schema, projection: Some(p) }
        },
        other => other,
    }
}

fn copy_indices(v: &Vec<usize>) -> (r: Vec<usize>)
    ensures
        r@ == v@,
{
    let mut out: Vec<usize> = Vec::new();
    let mut i: usize = 0;
    while i < v.len()
        invariant
            i <= v@.len(),
            out@ == v@.subrange(0, i as int),
        decreases v@.len() - i,
    {
        out.push(v[i]);
        i = i + 1;
        assert(out@ =~= v@.subrange(0, i as int));
    }
    assert(v@.subrange(0, v@.len() as int) =~= v@);
    out
}

/// Applies projection push-down to a whole plan.
pub fn optimize(plan: LogicalPlan) -> (r: LogicalPlan)
    ensures
        r@ == optimize_spec(plan@),
{
    let empty: Vec<usize> = Vec::new();
    match plan {
        LogicalPlan::Projection { expr, input, schema } => {
            let mut accum: Vec<usize> = Vec::new();
            assert(accum@.to_set() =~= Set::<usize>::empty());
            collect_exprs(&expr, &mut accum);
            assert(accum@.to_set() =~= cols_list(view_exprs(expr@)));
            LogicalPlan::Projection { expr, input: Box::new(push_down_projection(*input, &accum)), schema }
        },
        other => {
            assert(empty@.to_set() =~= Set::<usize>::empty());
            push_down_projection(other, &empty)
        },
    }
}


proof fn lemma_push_idempotent(p: PlanV, needed: Set<usize>)
    ensures
        push_spec(push_spec(p, needed), needed) == push_spec(p, needed),
    decreases p,
{
    match p {
        PlanV::Aggregate { input, group_expr, aggr_expr, .. } => {
            lemma_push_idempotent(*input, cols_list(group_expr) + cols_list(aggr_expr));
        },
        PlanV::Selection { expr, input } => {
            lemma_push_idempotent(*input, needed + cols(expr));
        },
        _ => {},
    }
}

/// Optimizing an optimized plan changes nothing.
pub proof fn lemma_optimize_idempotent(p: PlanV)
    ensures
        optimize_spec(optimize_spec(p)) == optimize_spec(p),
{
    match p {
        PlanV::Projection { expr, input, .. } => {
            lemma_push_idempotent(*input, cols_list(expr));
        },
        _ => {
            lemma_push_idempotent(p, Set::empty());
        },
    }
}

/// Whether no table scan of `p` has a projection yet, as the planner leaves it.
pub open spec fn scans_unprojected(p: PlanV) -> bool
    decreases p,
{
    match p {
        PlanV::TableScan { projection, .. } => projection is None,
        PlanV::EmptyRelation { .. } => true,
        PlanV::Selection { input, .. } => scans_unprojected(*input),
        PlanV::Projection { input, .. } => scans_unprojected(*input),
        PlanV::Aggregate { input, .. } => scans_unprojected(*input),
        PlanV::Sort { input, .. } => scans_unprojected(*input),
        PlanV::Limit { input, .. } => scans_unprojected(*input),
    }
}

/// Whether every table scan of `p` that has a projection reads each column
/// used above it: `acc` at the top, widened by selections, and replaced by
/// the expressions of each other operator, which address its own input.
pub open spec fn covers(p: PlanV, acc: Set<usize>) -> bool
    decreases p,
{
    match p {
        PlanV::TableScan { projection, .. } => match projection {
            Some(q) => acc.subset_of(q.to_set()),
            None => true,
        },
        PlanV::EmptyRelation { .. } => true,
        PlanV::Selection { expr, input } => covers(*input, acc + cols(expr)),
        PlanV::Projection { expr, input, .. } => covers(*input, cols_list(expr)),
        PlanV::Aggregate { input, group_expr, aggr_expr, .. } => covers(
            *input,
            cols_list(group_expr) + cols_list(aggr_expr),
        ),
        PlanV::Sort { expr, input, .. } => covers(*input, cols_list(expr)),
        PlanV::Limit { expr, input, .. } => covers(*input, cols(expr)),
    }
}

proof fn lemma_unprojected_covers(p: PlanV, acc: Set<usize>)
    requires
        scans_unprojected(p),
    ensures
        covers(p, acc),
    decreases p,
{
    match p {
        PlanV::Selection { expr, input } => lemma_unprojected_covers(*input, acc + cols(expr)),
        PlanV::Projection { expr, input, .. } => lemma_unprojected_covers(*input, cols_list(expr)),
        PlanV::Aggregate { input, group_expr, aggr_expr, .. } => lemma_unprojected_covers(
            *input,
            cols_list(group_expr) + cols_list(aggr_expr),
        ),
        PlanV::Sort { expr, input, .. } => lemma_unprojected_covers(*input, cols_list(expr)),
        PlanV::Limit { expr, input, .. } => lemma_unprojected_covers(*input, cols(expr)),
        _ => {},
    }
}

proof fn lemma_push_covers(p: PlanV, needed: Set<usize>, acc: Set<usize>)
    requires
        scans_unprojected(p),
        acc.subset_of(needed),
    ensures
        covers(push_spec(p, needed), acc),
    decreases p,
{
    match p {
        PlanV::Aggregate { input, group_expr, aggr_expr, .. } => {
            let c = cols_list(group_expr) + cols_list(aggr_expr);
            lemma_push_covers(*input, c, c);
        },
        PlanV::Selection { expr, input } => {
            lemma_push_covers(*input, needed + cols(expr), acc + cols(expr));
        },
        PlanV::TableScan { .. } => {
            lemma_sorted_of(needed);
        },
        _ => {
            lemma_unprojected_covers(p, acc);
        },
    }
}

/// After optimization of a plan whose scans have no projection yet, every
/// column that an expression reads from a scan's rows is in that scan's
/// projection.
pub proof fn lemma_optimize_covers(p: PlanV)
    requires
        scans_unprojected(p),
    ensures
        covers(optimize_spec(p), Set::empty()),
{
    match p {
        PlanV::Projection { expr, input, .. } => {
            lemma_push_covers(*input, cols_list(expr), cols_list(expr));
        },
        _ => {
            lemma_push_covers(p, Set::empty(), Set::empty());
        },
    }
}

/// Whether every member of `c` is a position of a schema of `n` fields.
pub open spec fn within(c: Set<usize>, n: nat) -> bool {
    forall|i: usize| c.contains(i) ==> i < n
}

/// Whether every column an expression of `p` reads is a position in the
/// schema of that operator's input, and every projected column of a scan is
/// a position in the table's schema.
pub open spec fn well_formed(p: PlanV) -> bool
    decreases p,
{
    match p {
        PlanV::TableScan { schema, projection, .. } => match projection {
            Some(q) => forall|k: int| 0 <= k < q.len() ==> q[k] < schema.len(),
            None => true,
        },
        PlanV::EmptyRelation { .. } => true,
        PlanV::Selection { expr, input } => within(cols(expr), schema_of(*input).len())
            && well_formed(*input),
        PlanV::Projection { expr, input, .. } => within(cols_list(expr), schema_of(*input).len())
            && well_formed(*input),
        PlanV::Aggregate { input, group_expr, aggr_expr, .. } => within(
            cols_list(group_expr) + cols_list(aggr_expr),
            schema_of(*input).len(),
        ) && well_formed(*input),
        PlanV::Sort { expr, input, .. } => within(cols_list(expr), schema_of(*input).len())
            && well_formed(*input),
        PlanV::Limit { expr, input, .. } => within(cols(expr), schema_of(*input).len())
            && well_formed(*input),
    }
}

proof fn lemma_push_well_formed(p: PlanV, needed: Set<usize>)
    requires
        well_formed(p),
        within(needed, schema_of(p).len()),
    ensures
        well_formed(push_spec(p, needed)),
        schema_of(push_spec(p, needed)) == schema_of(p),
    decreases p,
{
    match p {
        PlanV::Aggregate { input, group_expr, aggr_expr, .. } => {
            lemma_push_well_formed(*input, cols_list(group_expr) + cols_list(aggr_expr));
        },
        PlanV::Selection { expr, input } => {
            lemma_push_well_formed(*input, needed + cols(expr));
        },
        PlanV::TableScan { schema, .. } => {
            lemma_sorted_of(needed);
            let q = sorted_of(needed);
            assert forall|k: int| 0 <= k < q.len() implies q[k] < schema.len() by {
                assert(q.to_set().contains(q[k]));
            }
        },
        _ => {},
    }
}

/// Optimization keeps a plan's schema, and keeps every column reference a
/// position in the schema of the input it addresses; the projections it
/// gives the scans are positions in the tables' own schemas.
pub proof fn lemma_optimize_well_formed(p: PlanV)
    requires
        well_formed(p),
    ensures
        well_formed(optimize_spec(p)),
        schema_of(optimize_spec(p)) == schema_of(p),
{
    match p {
        PlanV::Projection { expr, input, .. } => {
            lemma_push_well_formed(*input, cols_list(expr));
        },
        _ => {
            lemma_push_well_formed(p, Set::empty());
        },
    }
}

} // verus!
