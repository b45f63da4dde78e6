//! The decisions of the pull-based physical operators: how a limit cuts the
//! stream, which rows a filter keeps, and how an aggregation folds rows into
//! groups.

use vstd::prelude::*;
use crate::error::{ExecutionError, ErrorKind};
use crate::logical::{Expr, ExprV, ScalarValue};
use crate::planner::{lower_of, lowercase};

verus! {

/// What a limit does with the batch it was handed.
#[derive(Clone, Copy, Debug, PartialEq, Eq, Structural)]
pub enum LimitAction {
    /// Emit the first `n` rows of the batch.
    Emit(usize),
    /// The stream has ended.
    EndOfStream,
}

/// The state of a limit: how many rows may still pass, and whether the
/// stream has ended.
#[derive(Clone, Copy, Debug, PartialEq, Eq, Structural)]
pub struct LimitState {
    pub remaining: usize,
    pub exhausted: bool,
}

/// The next state and action of a limit in `st` that pulled `input`: the
/// number of rows of the next batch, or `None` at the end of its input.
pub open spec fn limit_step(st: LimitState, input: Option<usize>) -> (LimitState, LimitAction) {
    if st.exhausted {
        (st, LimitAction::EndOfStream)
    } else {
        match input {
            None => (LimitState { remaining: st.remaining, exhausted: true }, LimitAction::EndOfStream),
            Some(b) => if st.remaining == 0 {
                (LimitState { remaining: 0, exhausted: true }, LimitAction::EndOfStream)
            } else if b <= st.remaining {
                (LimitState { remaining: (st.remaining - b) as usize, exhausted: false }, LimitAction::Emit(b))
            } else {
                (LimitState { remaining: 0, exhausted: false }, LimitAction::Emit(st.remaining))
            },
        }
    }
}

/// The actions of a limit in `st` that is handed batches of the given sizes.
pub open spec fn limit_run(st: LimitState, batches: Seq<usize>) -> Seq<LimitAction>
    decreases batches.len(),
{
    if batches.len() == 0 {
        Seq::empty()
    } else {
        let (next, act) = limit_step(st, Some(batches[0]));
        seq![act] + limit_run(next, batches.drop_first())
    }
}

pub open spec fn total(batches: Seq<usize>) -> nat
    decreases batches.len(),
{
    if batches.len() == 0 {
        0
    } else {
        (batches[0] + total(batches.drop_first())) as nat
    }
}

impl LimitState {
    /// A limit that lets `limit` rows pass.
    pub fn new(limit: usize) -> (r: LimitState)
        ensures
            r == (LimitState { remaining: limit, exhausted: false }),
    {
        LimitState { remaining: limit, exhausted: false }
    }

    /// Decides what to do with the batch of `input` rows that was pulled, or
    /// with the end of the input where `input` is `None`.
    pub fn next(&mut self, input: Option<usize>) -> (r: LimitAction)
        ensures
            (*final(self), r) == limit_step(*old(self), input),
    {
        if self.exhausted {
            return LimitAction::EndOfStream;
        }
        match input {
            None => {
                self.exhausted = true;
                LimitAction::EndOfStream
            },
            Some(b) => if self.remaining == 0 {
                self.exhausted = true;
                LimitAction::EndOfStream
            } else if b <= self.remaining {
                self.remaining = self.remaining - b;
                LimitAction::Emit(b)
            } else {
                let n = self.remaining;
                self.remaining = 0;
                LimitAction::Emit(n)
            },
        }
    }
}

/// A limit of zero ends the stream at the first batch.
pub proof fn lemma_limit_zero(input: Option<usize>)
    ensures
        limit_step(LimitState { remaining: 0, exhausted: false }, input).1 == LimitAction::EndOfStream,
{
}

/// Once a limit has ended its stream, it keeps ending it.
pub proof fn lemma_limit_stays_ended(st: LimitState, input: Option<usize>)
    requires
        st.exhausted,
    ensures
        limit_step(st, input) == (st, LimitAction::EndOfStream),
{
}

/// A limit larger than the number of rows of the whole input lets every
/// batch pass whole.
pub proof fn lemma_limit_passes_all(n: usize, batches: Seq<usize>)
    requires
        total(batches) < n,
    ensures
        limit_run(LimitState { remaining: n, exhausted: false }, batches) == batches.map_values(
            |b: usize| LimitAction::Emit(b),
        ),
    decreases batches.len(),
{
    let f = |b: usize| LimitAction::Emit(b);
    if batches.len() > 0 {
        let b = batches[0];
        let rest = batches.drop_first();
        lemma_limit_passes_all((n - b) as usize, rest);
        assert(batches.map_values(f) =~= seq![LimitAction::Emit(b)] + rest.map_values(f));
    } else {
        assert(batches.map_values(f) =~= Seq::<LimitAction>::empty());
    }
}


/// The positions of the rows that a filter keeps: those where `mask` holds.
pub open spec fn kept_rows(mask: Seq<bool>) -> Seq<usize>
    decreases mask.len(),
{
    if mask.len() == 0 {
        Seq::empty()
    } else if mask.last() {
        kept_rows(mask.drop_last()).push((mask.len() - 1) as usize)
    } else {
        kept_rows(mask.drop_last())
    }
}

/// The positions, in increasing order, of the rows where the predicate of a
/// filter evaluated to true.
pub fn selected_rows(mask: &Vec<bool>) -> (r: Vec<usize>)
    ensures
        r@ == kept_rows(mask@),
{
    let mut out: Vec<usize> = Vec::new();
    let mut i: usize = 0;
    assert(mask@.subrange(0, 0) =~= Seq::<bool>::empty());
    while i < mask.len()
        invariant
            i <= mask@.len(),
            out@ == kept_rows(mask@.subrange(0, i as int)),
        decreases mask@.len() - i,
    {
        assert(mask@.subrange(0, i + 1).drop_last() =~= mask@.subrange(0, i as int));
        if mask[i] {
            out.push(i);
        }
        i = i + 1;
    }
    assert(mask@.subrange(0, mask@.len() as int) =~= mask@);
    out
}

/// A predicate that holds on no row lets no row through.
pub proof fn lemma_filter_all_false(mask: Seq<bool>)
    requires
        forall|i: int| 0 <= i < mask.len() ==> !mask[i],
    ensures
        kept_rows(mask) == Seq::<usize>::empty(),
    decreases mask.len(),
{
    if mask.len() > 0 {
        lemma_filter_all_false(mask.drop_last());
    }
}

/// The aggregate functions an aggregation computes.
#[derive(Clone, Copy, Debug, PartialEq, Eq, Structural)]
pub enum AggregateKind {
    Min,
    Max,
    Sum,
    Avg,
    Count,
}

/// The aggregate function that a function name denotes, ignoring case.
pub open spec fn kind_of_name(lower: Seq<char>) -> Option<AggregateKind> {
    if lower == "min"@ {
        Some(AggregateKind::Min)
    } else if lower == "max"@ {
        Some(AggregateKind::Max)
    } else if lower == "sum"@ {
        Some(AggregateKind::Sum)
    } else if lower == "avg"@ {
        Some(AggregateKind::Avg)
    } else if lower == "count"@ {
        Some(AggregateKind::Count)
    } else {
        None
    }
}

/// The aggregate function of an aggregate call expression.
pub fn aggregate_kind(e: &Expr) -> (r: Option<AggregateKind>)
    ensures
        match e {
            Expr::AggregateFunction { name, .. } => r == kind_of_name(lower_of(name@)),
            _ => r is None,
        },
{
    match e {
        Expr::AggregateFunction { name, .. } => {
            let l = lowercase(name.as_str());
            if l == String::from_str("min") {
                Some(AggregateKind::Min)
            } else if l == String::from_str("max") {
                Some(AggregateKind::Max)
            } else if l == String::from_str("sum") {
                Some(AggregateKind::Sum)
            } else if l == String::from_str("avg") {
                Some(AggregateKind::Avg)
            } else if l == String::from_str("count") {
                Some(AggregateKind::Count)
            } else {
                None
            }
        },
        _ => None,
    }
}

/// The running state of one aggregate over one group: the number of non-null
/// values seen, and the current minimum, maximum or sum of them.
#[derive(Clone, Copy, Debug, PartialEq, Eq, Structural)]
pub struct Accumulator {
    pub kind: AggregateKind,
    pub count: u64,
    pub value: Option<i64>,
}

/// The final value of an aggregate. An average is given as its sum and count.
#[derive(Clone, Copy, Debug, PartialEq, Eq, Structural)]
pub enum AggregateValue {
    Null,
    Int64(i64),
    UInt64(u64),
    Mean { sum: i64, count: u64 },
}

pub open spec fn fresh(kind: AggregateKind) -> Accumulator {
    Accumulator { kind, count: 0, value: None }
}

/// The accumulator `a` after it absorbed `v`; nulls are ignored. `None` where
/// the count or the sum would overflow.
pub open spec fn acc_update(a: Accumulator, v: Option<i64>) -> Option<Accumulator> {
    match v {
        None => Some(a),
        Some(x) => if a.count == u64::MAX {
            None
        } else {
            let count = (a.count + 1) as u64;
            match a.kind {
                AggregateKind::Count => Some(Accumulator { count, ..a }),
                AggregateKind::Min => Some(Accumulator {
                    count,
                    value: Some(
                        match a.value {
                            Some(m) => if x < m {
                                x
                            } else {
                                m
                            },
                            None => x,
                        },
                    ),
                    ..a
                }),
                AggregateKind::Max => Some(Accumulator {
                    count,
                    value: Some(
                        match a.value {
                            Some(m) => if x > m {
                                x
                            } else {
                                m
                            },
                            None => x,
                        },
                    ),
                    ..a
                }),
                AggregateKind::Sum | AggregateKind::Avg => {
                    let s: int = match a.value {
                        Some(m) => m + x,
                        None => x as int,
                    };
                    if i64::MIN <= s <= i64::MAX {
                        Some(Accumulator { count, value: Some(s as i64), ..a })
                    } else {
                        None
                    }
                },
            }
        },
    }
}

/// The final value of the accumulator `a`.
pub open spec fn acc_result(a: Accumulator) -> AggregateValue {
    match a.kind {
        AggregateKind::Count => AggregateValue::UInt64(a.count),
        AggregateKind::Avg => match a.value {
            Some(s) => AggregateValue::Mean { sum: s, count: a.count },
            None => AggregateValue::Null,
        },
        _ => match a.value {
            Some(v) => AggregateValue::Int64(v),
            None => AggregateValue::Null,
        },
    }
}

impl Accumulator {
    pub fn new(kind: AggregateKind) -> (r: Accumulator)
        ensures
            r == fresh(kind),
    {
        Accumulator { kind, count: 0, value: None }
    }

    /// Absorbs the value `v` of one row.
    pub fn update(&mut self, v: Option<i64>) -> (r: Result<(), ExecutionError>)
        ensures
            r is Ok <==> acc_update(*old(self), v) is Some,
            r is Ok ==> Some(*final(self)) == acc_update(*old(self), v),
            r is Err ==> *final(self) == *old(self) && r->Err_0.kind() == ErrorKind::Execution,
    {
        match v {
            None => Ok(()),
            Some(x) => {
                if self.count == u64::MAX {
                    return Err(ExecutionError::ExecutionError(String::from_str("Aggregate count overflow")));
                }
                let count = self.count + 1;
                match self.kind {
                    AggregateKind::Count => {
                        self.count = count;
                        Ok(())
                    },
                    AggregateKind::Min => {
                        let m = match self.value {
                            Some(m) => if x < m {
                                x
                            } else {
                                m
                            },
                            None => x,
                        };
                        self.count = count;
                        self.value = Some(m);
                        Ok(())
                    },
                    AggregateKind::Max => {
                        let m = match self.value {
                            Some(m) => if x > m {
                                x
                            } else {
                                m
                            },
                            None => x,
                        };
                        self.count = count;
                        self.value = Some(m);
                        Ok(())
                    },
                    AggregateKind::Sum | AggregateKind::Avg => {
                        let s = match self.value {
                            Some(m) => m.checked_add(x),
                            None => Some(x),
                        };
                        match s {
                            Some(s) => {
                                self.count = count;
                                self.value = Some(s);
                                Ok(())
                            },
                            None => Err(ExecutionError::ExecutionError(String::from_str("Aggregate sum overflow"))),
                        }
                    },
                }
            },
        }
    }

    /// The final value of this aggregate.
    pub fn result(&self) -> (r: AggregateValue)
        ensures
            r == acc_result(*self),
    {
        match self.kind {
            AggregateKind::Count => AggregateValue::UInt64(self.count),
            AggregateKind::Avg => match self.value {
                Some(s) => AggregateValue::Mean { sum: s, count: self.count },
                None => AggregateValue::Null,
            },
            _ => match self.value {
                Some(v) => AggregateValue::Int64(v),
                None => AggregateValue::Null,
            },
        }
    }
}


/// Whether two values are the same group key value.
pub open spec fn same_value(a: ScalarValue, b: ScalarValue) -> bool {
    match (a, b) {
        (ScalarValue::Utf8(x), ScalarValue::Utf8(y)) => x@ == y@,
        _ => a == b,
    }
}

/// Whether two group keys are the same.
pub open spec fn same_key(a: Seq<ScalarValue>, b: Seq<ScalarValue>) -> bool {
    a.len() == b.len() && forall|i: int| 0 <= i < a.len() ==> same_value(#[trigger] a[i], b[i])
}

fn value_eq(a: &ScalarValue, b: &ScalarValue) -> (r: bool)
    ensures
        r == same_value(*a, *b),
{
    match (a, b) {
        (ScalarValue::Boolean(x), ScalarValue::Boolean(y)) => *x == *y,
        (ScalarValue::Int8(x), ScalarValue::Int8(y)) => *x == *y,
        (ScalarValue::Int16(x), ScalarValue::Int16(y)) => *x == *y,
        (ScalarValue::Int32(x), ScalarValue::Int32(y)) => *x == *y,
        (ScalarValue::Int64(x), ScalarValue::Int64(y)) => *x == *y,
        (ScalarValue::UInt8(x), ScalarValue::UInt8(y)) => *x == *y,
        (ScalarValue::UInt16(x), ScalarValue::UInt16(y)) => *x == *y,
        (ScalarValue::UInt32(x), ScalarValue::UInt32(y)) => *x == *y,
        (ScalarValue::UInt64(x), ScalarValue::UInt64(y)) => *x == *y,
        (ScalarValue::Float32(x), ScalarValue::Float32(y)) => *x == *y,
        (ScalarValue::Float64(x), ScalarValue::Float64(y)) => *x == *y,
        (ScalarValue::Utf8(x), ScalarValue::Utf8(y)) => *x == *y,
        _ => false,
    }
}

fn key_eq(a: &Vec<ScalarValue>, b: &Vec<ScalarValue>) -> (r: bool)
    ensures
        r == same_key(a@, b@),
{
    if a.len() != b.len() {
        return false;
    }
    let mut i: usize = 0;
    while i < a.len()
        invariant
            a@.len() == b@.len(),
            i <= a@.len(),
            forall|j: int| 0 <= j < i ==> same_value(#[trigger] a@[j], b@[j]),
        decreases a@.len() - i,
    {
        if !value_eq(&a[i], &b[i]) {
            return false;
        }
        i = i + 1;
    }
    true
}

fn copy_key(v: &Vec<ScalarValue>) -> (r: Vec<ScalarValue>)
    ensures
        r@ == v@,
{
    let mut out: Vec<ScalarValue> = Vec::new();
    let mut i: usize = 0;
    while i < v.len()
        invariant
            i <= v@.len(),
            out@ == v@.subrange(0, i as int),
        decreases v@.len() - i,
    {
        out.push(v[i].duplicate());
        i = i + 1;
        assert(out@ =~= v@.subrange(0, i as int));
    }
    assert(v@.subrange(0, v@.len() as int) =~= v@);
    out
}

/// One group of an aggregation: its key and an accumulator per aggregate.
#[derive(Debug)]
pub struct Group {
    pub key: Vec<ScalarValue>,
    pub accumulators: Vec<Accumulator>,
}

pub ghost struct GroupV {
    pub key: Seq<ScalarValue>,
    pub accs: Seq<Accumulator>,
}

impl View for Group {
    type V = GroupV;

    open spec fn view(&self) -> GroupV {
        GroupV { key: self.key@, accs: self.accumulators@ }
    }
}

/// The accumulators `accs` after they absorbed the values `vals` of one row,
/// or `None` where one of them overflows.
pub open spec fn update_all(accs: Seq<Accumulator>, vals: Seq<Option<i64>>) -> Option<Seq<Accumulator>>
    decreases accs.len(),
{
    if accs.len() == 0 {
        Some(Seq::empty())
    } else {
        match update_all(accs.drop_last(), vals) {
            Some(prefix) => match acc_update(accs.last(), vals[accs.len() - 1]) {
                Some(a) => Some(prefix.push(a)),
                None => None,
            },
            None => None,
        }
    }
}

pub open spec fn first_group_from(gs: Seq<GroupV>, key: Seq<ScalarValue>, i: nat) -> Option<int>
    decreases gs.len() - i,
{
    if i >= gs.len() {
        None
    } else if same_key(gs[i as int].key, key) {
        Some(i as int)
    } else {
        first_group_from(gs, key, i + 1)
    }
}

/// The groups of an aggregation before any row: the single group of the
/// empty key where there is no grouping expression, and none otherwise.
pub open spec fn initial_groups(kinds: Seq<AggregateKind>, num_group_exprs: usize) -> Seq<GroupV> {
    if num_group_exprs == 0 {
        seq![GroupV { key: Seq::empty(), accs: kinds.map_values(|k: AggregateKind| fresh(k)) }]
    } else {
        Seq::empty()
    }
}

/// The groups `gs` after they absorbed a row of key `key` and aggregate
/// arguments `vals`: the first group of that key absorbs it, or a new group is
/// added for it; `None` where an accumulator overflows.
pub open spec fn absorb(gs: Seq<GroupV>, kinds: Seq<AggregateKind>, key: Seq<ScalarValue>, vals: Seq<Option<i64>>) -> Option<Seq<GroupV>> {
    match first_group_from(gs, key, 0) {
        Some(i) => match update_all(gs[i].accs, vals) {
            Some(a) => Some(gs.update(i, GroupV { key: gs[i].key, accs: a })),
            None => None,
        },
        None => match update_all(kinds.map_values(|k: AggregateKind| fresh(k)), vals) {
            Some(a) => Some(gs.push(GroupV { key, accs: a })),
            None => None,
        },
    }
}

/// The output rows of an aggregation over the groups `gs`: per group, the
/// final value of each aggregate.
pub open spec fn finish_spec(gs: Seq<GroupV>) -> Seq<Seq<AggregateValue>> {
    gs.map_values(|g: GroupV| g.accs.map_values(|a: Accumulator| acc_result(a)))
}

/// One output row of an aggregation.
#[derive(Debug, PartialEq, Eq)]
pub struct AggregateRow {
    pub key: Vec<ScalarValue>,
    pub values: Vec<AggregateValue>,
}

/// The groups an aggregation has formed so far.
#[derive(Debug)]
pub struct AggregateState {
    pub kinds: Vec<AggregateKind>,
    pub num_group_exprs: usize,
    pub groups: Vec<Group>,
}

proof fn lemma_update_all_err(accs: Seq<Accumulator>, vals: Seq<Option<i64>>, i: int)
    requires
        0 <= i <= accs.len(),
        update_all(accs.subrange(0, i), vals) is None,
    ensures
        update_all(accs, vals) is None,
    decreases accs.len() - i,
{
    if i < accs.len() {
        assert(accs.subrange(0, i + 1).drop_last() =~= accs.subrange(0, i));
        lemma_update_all_err(accs, vals, i + 1);
    } else {
        assert(accs.subrange(0, i) =~= accs);
    }
}

/// The accumulators `accs` after they absorbed the values `vals` of one row.
fn update_accumulators(accs: &Vec<Accumulator>, vals: &Vec<Option<i64>>) -> (r: Result<Vec<Accumulator>, ExecutionError>)
    requires
        vals@.len() == accs@.len(),
    ensures
        r matches Ok(v) ==> update_all(accs@, vals@) == Some(v@) && v@.len() == accs@.len(),
        r is Err ==> update_all(accs@, vals@) is None,
{
    let mut out: Vec<Accumulator> = Vec::new();
    let mut i: usize = 0;
    assert(accs@.subrange(0, 0) =~= Seq::<Accumulator>::empty());
    while i < accs.len()
        invariant
            i <= accs@.len(),
            vals@.len() == accs@.len(),
            update_all(accs@.subrange(0, i as int), vals@) == Some(out@),
            out@.len() == i,
        decreases accs@.len() - i,
    {
        assert(accs@.subrange(0, i + 1).drop_last() =~= accs@.subrange(0, i as int));
        let mut a = accs[i];
        match a.update(vals[i]) {
            Ok(()) => out.push(a),
            Err(e) => {
                proof {
                    lemma_update_all_err(accs@, vals@, i + 1);
                }
                return Err(e);
            },
        }
        i = i + 1;
    }
    assert(accs@.subrange(0, accs@.len() as int) =~= accs@);
    Ok(out)
}

impl AggregateState {
    pub open spec fn groups_view(&self) -> Seq<GroupV> {
        self.groups@.map_values(|g: Group| g@)
    }

    /// Every group has a key of one value per grouping expression and one
    /// accumulator per aggregate, of that aggregate's kind.
    pub open spec fn well_formed(&self) -> bool {
        forall|i: int| 0 <= i < self.groups@.len() ==> {
            &&& (#[trigger] self.groups@[i]).key@.len() == self.num_group_exprs
            &&& self.groups@[i].accumulators@.len() == self.kinds@.len()
        }
    }

    /// An aggregation computing `kinds` over groups of `num_group_exprs` keys.
    pub fn new(kinds: Vec<AggregateKind>, num_group_exprs: usize) -> (r: AggregateState)
        ensures
            r.well_formed(),
            r.kinds@ == kinds@,
            r.num_group_exprs == num_group_exprs,
            r.groups_view() == initial_groups(kinds@, num_group_exprs),
    {
        let mut groups: Vec<Group> = Vec::new();
        if num_group_exprs == 0 {
            let mut accs: Vec<Accumulator> = Vec::new();
            let mut i: usize = 0;
            while i < kinds.len()
                invariant
                    i <= kinds@.len(),
                    accs@ == kinds@.subrange(0, i as int).map_values(|k: AggregateKind| fresh(k)),
                decreases kinds@.len() - i,
            {
                accs.push(Accumulator::new(kinds[i]));
                i = i + 1;
                assert(accs@ =~= kinds@.subrange(0, i as int).map_values(|k: AggregateKind| fresh(k)));
            }
            assert(kinds@.subrange(0, kinds@.len() as int) =~= kinds@);
            groups.push(Group { key: Vec::new(), accumulators: accs });
        }
        let r = AggregateState { kinds, num_group_exprs, groups };
        assert(r.groups_view() =~= initial_groups(r.kinds@, num_group_exprs));
        r
    }

    /// Absorbs one input row: its group key and the argument value of each
    /// aggregate (`None` for a null).
    pub fn accumulate(&mut self, key: Vec<ScalarValue>, vals: &Vec<Option<i64>>) -> (r: Result<(), ExecutionError>)
        requires
            old(self).well_formed(),
            key@.len() == old(self).num_group_exprs,
            vals@.len() == old(self).kinds@.len(),
        ensures
            final(self).well_formed(),
            final(self).kinds@ == old(self).kinds@,
            final(self).num_group_exprs == old(self).num_group_exprs,
            r is Ok <==> absorb(old(self).groups_view(), old(self).kinds@, key@, vals@) is Some,
            r is Ok ==> Some(final(self).groups_view()) == absorb(old(self).groups_view(), old(self).kinds@, key@, vals@),
            r is Err ==> final(self).groups_view() == old(self).groups_view(),
    {
        let ghost gs = self.groups_view();
        let mut i: usize = 0;
        let mut found = false;
        while i < self.groups.len() && !found
            invariant
                i <= self.groups@.len(),
                gs == self.groups_view(),
                !found ==> first_group_from(gs, key@, 0) == first_group_from(gs, key@, i as nat),
                found ==> i < self.groups@.len() && first_group_from(gs, key@, 0) == Some(i as int),
            decreases self.groups@.len() - i, if found { 0int } else { 1int },
        {
            assert(gs[i as int] == self.groups@[i as int]@);
            if key_eq(&self.groups[i].key, &key) {
                found = true;
            } else {
                i = i + 1;
            }
        }
        if found {
            assert(gs[i as int] == self.groups@[i as int]@);
            let updated = match update_accumulators(&self.groups[i].accumulators, vals) {
                Ok(a) => a,
                Err(e) => return Err(e),
            };
            let k = copy_key(&self.groups[i].key);
            self.groups.set(i, Group { key: k, accumulators: updated });
            assert(self.groups_view() =~= gs.update(i as int, GroupV { key: gs[i as int].key, accs: updated@ }));
            Ok(())
        } else {
            let mut fresh_accs: Vec<Accumulator> = Vec::new();
            let mut j: usize = 0;
            while j < self.kinds.len()
                invariant
                    j <= self.kinds@.len(),
                    fresh_accs@ == self.kinds@.subrange(0, j as int).map_values(|k: AggregateKind| fresh(k)),
                decreases self.kinds@.len() - j,
            {
                fresh_accs.push(Accumulator::new(self.kinds[j]));
                j = j + 1;
                assert(fresh_accs@ =~= self.kinds@.subrange(0, j as int).map_values(|k: AggregateKind| fresh(k)));
            }
            assert(self.kinds@.subrange(0, self.kinds@.len() as int) =~= self.kinds@);
            let updated = match update_accumulators(&fresh_accs, vals) {
                Ok(a) => a,
                Err(e) => return Err(e),
            };
            let ghost key_v = key@;
            self.groups.push(Group { key, accumulators: updated });
            assert(self.groups_view() =~= gs.push(GroupV { key: key_v, accs: updated@ }));
            Ok(())
        }
    }

    /// The output rows: per group, its key and the final value of each aggregate.
    pub fn finish(&self) -> (r: Vec<AggregateRow>)
        ensures
            r@.len() == self.groups@.len(),
            forall|i: int| 0 <= i < r@.len() ==> (#[trigger] r@[i]).key@ == self.groups@[i].key@,
            forall|i: int| 0 <= i < r@.len() ==> (#[trigger] r@[i]).values@ == finish_spec(self.groups_view())[i],
    {
        let mut out: Vec<AggregateRow> = Vec::new();
        let mut i: usize = 0;
        while i < self.groups.len()
            invariant
                i <= self.groups@.len(),
                out@.len() == i,
                forall|j: int| 0 <= j < i ==> (#[trigger] out@[j]).key@ == self.groups@[j].key@,
                forall|j: int| 0 <= j < i ==> (#[trigger] out@[j]).values@ == finish_spec(self.groups_view())[j],
            decreases self.groups@.len() - i,
        {
            let g = &self.groups[i];
            let mut values: Vec<AggregateValue> = Vec::new();
            let mut j: usize = 0;
            while j < g.accumulators.len()
                invariant
                    j <= g.accumulators@.len(),
                    values@ == g.accumulators@.subrange(0, j as int).map_values(|a: Accumulator| acc_result(a)),
                decreases g.accumulators@.len() - j,
            {
                values.push(g.accumulators[j].result());
                j = j + 1;
                assert(values@ =~= g.accumulators@.subrange(0, j as int).map_values(|a: Accumulator| acc_result(a)));
            }
            assert(g.accumulators@.subrange(0, g.accumulators@.len() as int) =~= g.accumulators@);
            out.push(AggregateRow { key: copy_key(&g.key), values });
            i = i + 1;
        }
        out
    }
}

/// An aggregation without grouping expressions gives exactly one row, also
/// over an input without rows.
pub proof fn lemma_no_grouping_one_row(kinds: Seq<AggregateKind>)
    ensures
        finish_spec(initial_groups(kinds, 0)).len() == 1,
{
}

/// `COUNT` over an input without rows gives a single row holding zero.
pub proof fn lemma_count_of_nothing()
    ensures
        finish_spec(initial_groups(seq![AggregateKind::Count], 0)) == seq![seq![AggregateValue::UInt64(0)]],
{
    let gs = initial_groups(seq![AggregateKind::Count], 0);
    assert(gs[0].accs =~= seq![fresh(AggregateKind::Count)]);
    assert(finish_spec(gs)[0] =~= seq![AggregateValue::UInt64(0)]);
    assert(finish_spec(gs) =~= seq![seq![AggregateValue::UInt64(0)]]);
}


/// The number of rows a `LIMIT` expression lets through: the value of an
/// integer literal of any width that is not negative.
pub open spec fn limit_count(e: ExprV) -> Option<int> {
    match e {
        ExprV::Literal(v) => match v {
            ScalarValue::Int8(x) => if x >= 0 { Some(x as int) } else { None },
            ScalarValue::Int16(x) => if x >= 0 { Some(x as int) } else { None },
            ScalarValue::Int32(x) => if x >= 0 { Some(x as int) } else { None },
            ScalarValue::Int64(x) => if x >= 0 { Some(x as int) } else { None },
            ScalarValue::UInt8(x) => Some(x as int),
            ScalarValue::UInt16(x) => Some(x as int),
            ScalarValue::UInt32(x) => Some(x as int),
            ScalarValue::UInt64(x) => Some(x as int),
            _ => None,
        },
        _ => None,
    }
}

/// The row count of a `LIMIT` expression; an error where it is not a
/// non-negative integer literal that fits in `usize`.
pub fn limit_value(expr: &Expr) -> (r: Result<usize, ExecutionError>)
    ensures
        r matches Ok(n) ==> limit_count(expr@) == Some(n as int),
        r matches Err(e) ==> e.kind() == ErrorKind::Execution && (limit_count(expr@) is None
            || limit_count(expr@)->0 > usize::MAX),
{
    let n: Option<u64> = match expr {
        Expr::Literal(v) => match v {
            ScalarValue::Int8(x) => if *x >= 0 { Some(*x as u64) } else { None },
            ScalarValue::Int16(x) => if *x >= 0 { Some(*x as u64) } else { None },
            ScalarValue::Int32(x) => if *x >= 0 { Some(*x as u64) } else { None },
            ScalarValue::Int64(x) => if *x >= 0 { Some(*x as u64) } else { None },
            ScalarValue::UInt8(x) => Some(*x as u64),
            ScalarValue::UInt16(x) => Some(*x as u64),
            ScalarValue::UInt32(x) => Some(*x as u64),
            ScalarValue::UInt64(x) => Some(*x),
            _ => None,
        },
        _ => None,
    };
    match n {
        Some(k) => if k as u128 <= usize::MAX as u128 {
            Ok(k as usize)
        } else {
            Err(ExecutionError::ExecutionError(String::from_str("Limit only support positive integer literals")))
        },
        None => Err(ExecutionError::ExecutionError(String::from_str("Limit only support positive integer literals"))),
    }
}

} // verus!
