//! Statistics over a set of rows.
//!
//! Counting, and the least and the greatest number of a field, are done
//! here. A total and a mean need arithmetic on binary64 values, which this
//! library leaves to its caller: it selects the numbers that enter them, and
//! hands these to the two functions that the caller supplies.
use crate::ast::{aggregates_view, Aggregate, AggregateView};
use crate::number::{maximum, minimum, num_max, num_min};
use crate::row::{rows_view, Row, RowView, Value, ValueView};
use crate::text::same_text;
use vstd::prelude::*;

verus! {

/// The statistics of a query. A statistic that was not asked for, or that
/// had nothing to work on, is unset.
#[derive(Debug, Clone, Copy, PartialEq, Eq)]
pub struct AggregateResult {
    pub count: Option<usize>,
    pub sum: Option<u64>,
    pub avg: Option<u64>,
    pub min: Option<u64>,
    pub max: Option<u64>,
}

/// What has been settled of a list of aggregates before any arithmetic is
/// done: the count, the least and the greatest number, and the numbers that
/// the total and the mean are to be taken of.
#[derive(Debug, Clone, PartialEq, Eq)]
pub struct AggregatePlan {
    pub count: Option<usize>,
    pub sum_of: Option<Vec<u64>>,
    pub avg_of: Option<Vec<u64>>,
    pub min: Option<u64>,
    pub max: Option<u64>,
}

/// What an [`AggregatePlan`] holds.
pub struct PlanView {
    pub count: Option<nat>,
    pub sum_of: Option<Seq<u64>>,
    pub avg_of: Option<Seq<u64>>,
    pub min: Option<u64>,
    pub max: Option<u64>,
}

impl View for AggregatePlan {
    type V = PlanView;

    open spec fn view(&self) -> PlanView {
        PlanView {
            count: match self.count {
                Some(n) => Some(n as nat),
                None => None,
            },
            sum_of: match self.sum_of {
                Some(v) => Some(v@),
                None => None,
            },
            avg_of: match self.avg_of {
                Some(v) => Some(v@),
                None => None,
            },
            min: self.min,
            max: self.max,
        }
    }
}

/// The number that a row holds under `field`, if it holds one.
pub open spec fn number_at(row: RowView, field: Seq<char>) -> Option<u64> {
    if row.fields.contains_key(field) {
        match row.fields[field] {
            ValueView::Number(n) => Some(n),
            ValueView::Text(_) => None,
        }
    } else {
        None
    }
}

/// The numbers that the rows hold under `field`, in the rows' order. A row
/// that lacks the field, or holds a text there, contributes nothing.
pub open spec fn numeric_cells(rows: Seq<RowView>, field: Seq<char>) -> Seq<u64> {
    rows.filter_map(|row: RowView| number_at(row, field))
}

/// How many rows hold `field`, whatever they hold there.
pub open spec fn present_count(rows: Seq<RowView>, field: Seq<char>) -> nat {
    rows.filter(|row: RowView| row.fields.contains_key(field)).len()
}

/// The least of a list of numbers, taken from the left; unset for none.
pub open spec fn least(values: Seq<u64>) -> Option<u64>
    decreases values.len(),
{
    if values.len() == 0 {
        None
    } else {
        match least(values.drop_last()) {
            Some(m) => Some(num_min(m, values.last())),
            None => Some(values.last()),
        }
    }
}

/// The greatest of a list of numbers, taken from the left; unset for none.
pub open spec fn greatest(values: Seq<u64>) -> Option<u64>
    decreases values.len(),
{
    if values.len() == 0 {
        None
    } else {
        match greatest(values.drop_last()) {
            Some(m) => Some(num_max(m, values.last())),
            None => Some(values.last()),
        }
    }
}

/// The plan in which nothing is set.
pub open spec fn nothing_planned() -> PlanView {
    PlanView { count: None, sum_of: None, avg_of: None, min: None, max: None }
}

/// The plan after one more aggregate. Each aggregate scans the rows by
/// itself and writes its own statistic only. `Count`, `Sum`, `Min` and
/// `Max` overwrite what an earlier aggregate of their kind left, also with
/// "unset"; an `Avg` that finds no number leaves the plan as it was.
pub open spec fn plan_with(plan: PlanView, rows: Seq<RowView>, aggregate: AggregateView) -> PlanView {
    match aggregate {
        AggregateView::Count(f) => PlanView {
            count: Some(
                if f == seq!['*'] {
                    rows.len()
                } else {
                    present_count(rows, f)
                },
            ),
            ..plan
        },
        AggregateView::Sum(f) => PlanView {
            sum_of: if numeric_cells(rows, f).len() == 0 {
                None
            } else {
                Some(numeric_cells(rows, f))
            },
            ..plan
        },
        AggregateView::Avg(f) => if numeric_cells(rows, f).len() == 0 {
            plan
        } else {
            PlanView { avg_of: Some(numeric_cells(rows, f)), ..plan }
        },
        AggregateView::Min(f) => PlanView { min: least(numeric_cells(rows, f)), ..plan },
        AggregateView::Max(f) => PlanView { max: greatest(numeric_cells(rows, f)), ..plan },
    }
}

/// The plan of a list of aggregates, taken in order.
pub open spec fn planned(rows: Seq<RowView>, aggregates: Seq<AggregateView>) -> PlanView
    decreases aggregates.len(),
{
    if aggregates.len() == 0 {
        nothing_planned()
    } else {
        plan_with(planned(rows, aggregates.drop_last()), rows, aggregates.last())
    }
}

/// Whether `result` is what a plan comes to under the caller's `sum` and
/// `avg`: count, least and greatest are the plan's; the total is what `sum`
/// returned for exactly the numbers planned for it, and is unset where none
/// are planned; likewise the mean and `avg`.
pub open spec fn carried_out<S: Fn(Vec<u64>) -> u64, A: Fn(Vec<u64>) -> u64>(
    plan: PlanView,
    sum: S,
    avg: A,
    result: AggregateResult,
) -> bool {
    &&& match plan.count {
        Some(n) => result.count matches Some(c) && c == n,
        None => result.count is None,
    }
    &&& result.min == plan.min
    &&& result.max == plan.max
    &&& match plan.sum_of {
        Some(cells) => result.sum matches Some(total) && exists|v: Vec<u64>|
            v@ == cells && call_ensures(sum, (v,), total),
        None => result.sum is None,
    }
    &&& match plan.avg_of {
        Some(cells) => result.avg matches Some(mean) && exists|v: Vec<u64>|
            v@ == cells && call_ensures(avg, (v,), mean),
        None => result.avg is None,
    }
}

/// The numbers that `rows` hold under `field`, in the rows' order.
pub fn numeric_values(rows: &[Row], field: &str) -> (r: Vec<u64>)
    ensures
        r@ == numeric_cells(rows_view(rows@), field@),
{
    let mut out: Vec<u64> = Vec::new();
    let mut i: usize = 0;
    assert(rows_view(rows@).take(0) =~= Seq::<RowView>::empty());
    while i < rows.len()
        invariant
            i <= rows.len(),
            out@ == numeric_cells(rows_view(rows@).take(i as int), field@),
        decreases rows.len() - i,
    {
        proof {
            let upto = rows_view(rows@).take(i + 1);
            assert(upto.drop_last() =~= rows_view(rows@).take(i as int));
            assert(upto.last() == rows@[i as int]@);
        }
        match rows[i].get(field) {
            Some(Value::Number(n)) => {
                out.push(*n);
            },
            _ => {},
        }
        i += 1;
    }
    assert(rows_view(rows@).take(i as int) =~= rows_view(rows@));
    out
}

/// How many of `rows` hold `field`.
pub fn count_present(rows: &[Row], field: &str) -> (r: usize)
    ensures
        r == present_count(rows_view(rows@), field@),
{
    let mut n: usize = 0;
    let mut i: usize = 0;
    proof {
        reveal(Seq::filter);
        assert(rows_view(rows@).take(0) =~= Seq::<RowView>::empty());
    }
    while i < rows.len()
        invariant
            i <= rows.len(),
            n <= i,
            n == present_count(rows_view(rows@).take(i as int), field@),
        decreases rows.len() - i,
    {
        proof {
            reveal(Seq::filter);
            let upto = rows_view(rows@).take(i + 1);
            assert(upto.drop_last() =~= rows_view(rows@).take(i as int));
            assert(upto.last() == rows@[i as int]@);
        }
        if rows[i].get(field).is_some() {
            n += 1;
        }
        i += 1;
    }
    assert(rows_view(rows@).take(i as int) =~= rows_view(rows@));
    n
}

/// The least of `values`, taken from the left.
pub fn least_of(values: &Vec<u64>) -> (r: Option<u64>)
    ensures
        r == least(values@),
{
    let mut acc: Option<u64> = None;
    let mut i: usize = 0;
    assert(values@.take(0) =~= Seq::<u64>::empty());
    while i < values.len()
        invariant
            i <= values.len(),
            acc == least(values@.take(i as int)),
        decreases values.len() - i,
    {
        assert(values@.take(i + 1).drop_last() =~= values@.take(i as int));
        acc = match acc {
            Some(m) => Some(minimum(m, values[i])),
            None => Some(values[i]),
        };
        i += 1;
    }
    assert(values@.take(i as int) =~= values@);
    acc
}

/// The greatest of `values`, taken from the left.
pub fn greatest_of(values: &Vec<u64>) -> (r: Option<u64>)
    ensures
        r == greatest(values@),
{
    let mut acc: Option<u64> = None;
    let mut i: usize = 0;
    assert(values@.take(0) =~= Seq::<u64>::empty());
    while i < values.len()
        invariant
            i <= values.len(),
            acc == greatest(values@.take(i as int)),
        decreases values.len() - i,
    {
        assert(values@.take(i + 1).drop_last() =~= values@.take(i as int));
        acc = match acc {
            Some(m) => Some(maximum(m, values[i])),
            None => Some(values[i]),
        };
        i += 1;
    }
    assert(values@.take(i as int) =~= values@);
    acc
}

/// Settles of `aggregates` over `rows` all that needs no arithmetic.
pub fn plan_aggregates(rows: &[Row], aggregates: &[Aggregate]) -> (r: AggregatePlan)
    ensures
        r@ == planned(rows_view(rows@), aggregates_view(aggregates@)),
{
    let mut plan = AggregatePlan { count: None, sum_of: None, avg_of: None, min: None, max: None };
    let mut i: usize = 0;
    assert(aggregates_view(aggregates@).take(0) =~= Seq::<AggregateView>::empty());
    while i < aggregates.len()
        invariant
            i <= aggregates.len(),
            plan@ == planned(rows_view(rows@), aggregates_view(aggregates@).take(i as int)),
        decreases aggregates.len() - i,
    {
        proof {
            let upto = aggregates_view(aggregates@).take(i + 1);
            assert(upto.drop_last() =~= aggregates_view(aggregates@).take(i as int));
            assert(upto.last() == aggregates@[i as int]@);
        }
        match &aggregates[i] {
            Aggregate::Count(field) => {
                proof {
                    reveal_strlit("*");
                    assert("*"@ =~= seq!['*']);
                }
                let count = if same_text(field.as_str(), "*") {
                    rows.len()
                } else {
                    count_present(rows, field.as_str())
                };
                plan.count = Some(count);
            },
            Aggregate::Sum(field) => {
                let values = numeric_values(rows, field.as_str());
                plan.sum_of = if values.len() == 0 {
                    None
                } else {
                    Some(values)
                };
            },
            Aggregate::Avg(field) => {
                let values = numeric_values(rows, field.as_str());
                if values.len() != 0 {
                    plan.avg_of = Some(values);
                }
            },
            Aggregate::Min(field) => {
                let values = numeric_values(rows, field.as_str());
                plan.min = least_of(&values);
            },
            Aggregate::Max(field) => {
                let values = numeric_values(rows, field.as_str());
                plan.max = greatest_of(&values);
            },
        }
        i += 1;
    }
    assert(aggregates_view(aggregates@).take(i as int) =~= aggregates_view(aggregates@));
    plan
}

/// Turns a plan into a result: `sum` gives the total of the numbers
/// planned for it, `avg` the mean of those planned for it.
pub fn carry_out<S: Fn(Vec<u64>) -> u64, A: Fn(Vec<u64>) -> u64>(
    plan: AggregatePlan,
    sum: S,
    avg: A,
) -> (r: AggregateResult)
    requires
        forall|v: Vec<u64>| v@.len() > 0 ==> call_requires(sum, (v,)),
        forall|v: Vec<u64>| v@.len() > 0 ==> call_requires(avg, (v,)),
        plan.sum_of matches Some(v) ==> v@.len() > 0,
        plan.avg_of matches Some(v) ==> v@.len() > 0,
    ensures
        carried_out(plan@, sum, avg, r),
{
    let total = match plan.sum_of {
        Some(cells) => Some(sum(cells)),
        None => None,
    };
    let mean = match plan.avg_of {
        Some(cells) => Some(avg(cells)),
        None => None,
    };
    AggregateResult { count: plan.count, sum: total, avg: mean, min: plan.min, max: plan.max }
}

/// Whatever is planned for a total or a mean is at least one number.
pub proof fn planned_cells_are_not_empty(rows: Seq<RowView>, aggregates: Seq<AggregateView>)
    ensures
        planned(rows, aggregates).sum_of matches Some(v) ==> v.len() > 0,
        planned(rows, aggregates).avg_of matches Some(v) ==> v.len() > 0,
    decreases aggregates.len(),
{
    if aggregates.len() > 0 {
        planned_cells_are_not_empty(rows, aggregates.drop_last());
    }
}

/// Computes the statistics that `aggregates` ask for over `rows`. Every
/// aggregate works on all of `rows`; none sees what another one found.
pub fn execute_aggregates<S: Fn(Vec<u64>) -> u64, A: Fn(Vec<u64>) -> u64>(
    rows: &[Row],
    aggregates: &[Aggregate],
    sum: S,
    avg: A,
) -> (r: AggregateResult)
    requires
        forall|v: Vec<u64>| v@.len() > 0 ==> call_requires(sum, (v,)),
        forall|v: Vec<u64>| v@.len() > 0 ==> call_requires(avg, (v,)),
    ensures
        carried_out(planned(rows_view(rows@), aggregates_view(aggregates@)), sum, avg, r),
{
    let plan = plan_aggregates(rows, aggregates);
    proof {
        planned_cells_are_not_empty(rows_view(rows@), aggregates_view(aggregates@));
    }
    carry_out(plan, sum, avg)
}

/// One more row adds its number to the numbers of a field if it holds
/// one there, and nothing otherwise.
pub proof fn cells_with_one_more_row(rows: Seq<RowView>, row: RowView, field: Seq<char>)
    ensures
        numeric_cells(rows.push(row), field) == match number_at(row, field) {
            Some(n) => numeric_cells(rows, field).push(n),
            None => numeric_cells(rows, field),
        },
{
    assert(rows.push(row).drop_last() =~= rows);
    match number_at(row, field) {
        Some(n) => {
            assert(numeric_cells(rows, field) + seq![n] =~= numeric_cells(rows, field).push(n));
        },
        None => {},
    }
}

/// A count of `*`, asked for alone, is the number of rows, and leaves
/// every other statistic unset.
pub proof fn count_of_all_rows<S: Fn(Vec<u64>) -> u64, A: Fn(Vec<u64>) -> u64>(
    rows: Seq<RowView>,
    sum: S,
    avg: A,
    result: AggregateResult,
)
    requires
        carried_out(planned(rows, seq![AggregateView::Count(seq!['*'])]), sum, avg, result),
    ensures
        result.count matches Some(n) && n == rows.len(),
        result.sum is None,
        result.avg is None,
        result.min is None,
        result.max is None,
{
    let asked = seq![AggregateView::Count(seq!['*'])];
    assert(asked.drop_last() =~= Seq::<AggregateView>::empty());
    assert(planned(rows, asked.drop_last()) == nothing_planned());
    assert(asked.last() == AggregateView::Count(seq!['*']));
}

/// A total and a mean are taken of the numbers that the rows hold under
/// the field and of nothing else; where no row holds a number there, they
/// are unset.
pub proof fn sum_and_avg_take_numbers_only<S: Fn(Vec<u64>) -> u64, A: Fn(Vec<u64>) -> u64>(
    rows: Seq<RowView>,
    field: Seq<char>,
    sum: S,
    avg: A,
    result: AggregateResult,
)
    requires
        carried_out(
            planned(rows, seq![AggregateView::Sum(field), AggregateView::Avg(field)]),
            sum,
            avg,
            result,
        ),
    ensures
        numeric_cells(rows, field).len() == 0 ==> result.sum is None && result.avg is None,
        numeric_cells(rows, field).len() > 0 ==> (result.sum matches Some(total) && exists|
            v: Vec<u64>,
        |
            v@ == numeric_cells(rows, field) && call_ensures(sum, (v,), total)),
        numeric_cells(rows, field).len() > 0 ==> (result.avg matches Some(mean) && exists|
            v: Vec<u64>,
        |
            v@ == numeric_cells(rows, field) && call_ensures(avg, (v,), mean)),
        result.count is None,
        result.min is None,
        result.max is None,
{
    let asked = seq![AggregateView::Sum(field), AggregateView::Avg(field)];
    let first = asked.drop_last();
    assert(first =~= seq![AggregateView::Sum(field)]);
    assert(first.drop_last() =~= Seq::<AggregateView>::empty());
    assert(planned(rows, first.drop_last()) == nothing_planned());
    assert(first.last() == AggregateView::Sum(field));
    assert(asked.last() == AggregateView::Avg(field));
    assert(planned(rows, first) == plan_with(nothing_planned(), rows, AggregateView::Sum(field)));
    assert(planned(rows, asked) == plan_with(
        planned(rows, first),
        rows,
        AggregateView::Avg(field),
    ));
}

} // verus!
