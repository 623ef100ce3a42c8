//! The shapes of a query: what the parser builds and the executor reads.
use crate::row::{RowKind, Value, ValueView};
use crate::text::strings_view;
use vstd::prelude::*;

verus! {

/// The direction of a sort.
#[derive(Debug, Clone, Copy, PartialEq, Eq, Structural)]
pub enum SortOrder {
    Asc,
    Desc,
}

/// One statistic over a set of rows, with the name of the field it reads.
/// `Count` of the name `*` counts every row.
#[derive(Debug, Clone, PartialEq)]
pub enum Aggregate {
    Count(String),
    Sum(String),
    Avg(String),
    Min(String),
    Max(String),
}

/// What an [`Aggregate`] holds.
pub enum AggregateView {
    Count(Seq<char>),
    Sum(Seq<char>),
    Avg(Seq<char>),
    Min(Seq<char>),
    Max(Seq<char>),
}

impl View for Aggregate {
    type V = AggregateView;

    open spec fn view(&self) -> AggregateView {
        match self {
            Aggregate::Count(f) => AggregateView::Count(f@),
            Aggregate::Sum(f) => AggregateView::Sum(f@),
            Aggregate::Avg(f) => AggregateView::Avg(f@),
            Aggregate::Min(f) => AggregateView::Min(f@),
            Aggregate::Max(f) => AggregateView::Max(f@),
        }
    }
}

/// What a list of aggregates holds, one by one.
pub open spec fn aggregates_view(aggregates: Seq<Aggregate>) -> Seq<AggregateView> {
    Seq::new(aggregates.len(), |i: int| aggregates[i]@)
}

/// A condition on a row.
#[derive(Debug, PartialEq)]
pub enum Expr {
    Eq(String, Value),
    Gt(String, Value),
    Lt(String, Value),
    Gte(String, Value),
    Lte(String, Value),
    Like(String, String),
    In(String, Vec<Value>),
    Between(String, Value, Value),
    KindEq(RowKind),
    And(Box<Expr>, Box<Expr>),
    Or(Box<Expr>, Box<Expr>),
    Not(Box<Expr>),
}

/// What an [`Expr`] holds.
pub enum ExprView {
    Eq(Seq<char>, ValueView),
    Gt(Seq<char>, ValueView),
    Lt(Seq<char>, ValueView),
    Gte(Seq<char>, ValueView),
    Lte(Seq<char>, ValueView),
    Like(Seq<char>, Seq<char>),
    In(Seq<char>, Seq<ValueView>),
    Between(Seq<char>, ValueView, ValueView),
    KindEq(RowKind),
    And(Box<ExprView>, Box<ExprView>),
    Or(Box<ExprView>, Box<ExprView>),
    Not(Box<ExprView>),
}

/// What a list of cells holds, cell by cell.
pub open spec fn values_view(values: Seq<Value>) -> Seq<ValueView> {
    Seq::new(values.len(), |i: int| values[i]@)
}

/// What an expression holds, node by node.
pub open spec fn expr_view(expr: Expr) -> ExprView
    decreases expr,
{
    match expr {
        Expr::Eq(f, v) => ExprView::Eq(f@, v@),
        Expr::Gt(f, v) => ExprView::Gt(f@, v@),
        Expr::Lt(f, v) => ExprView::Lt(f@, v@),
        Expr::Gte(f, v) => ExprView::Gte(f@, v@),
        Expr::Lte(f, v) => ExprView::Lte(f@, v@),
        Expr::Like(f, p) => ExprView::Like(f@, p@),
        Expr::In(f, vs) => ExprView::In(f@, values_view(vs@)),
        Expr::Between(f, lo, hi) => ExprView::Between(f@, lo@, hi@),
        Expr::KindEq(k) => ExprView::KindEq(k),
        Expr::And(l, r) => ExprView::And(Box::new(expr_view(*l)), Box::new(expr_view(*r))),
        Expr::Or(l, r) => ExprView::Or(Box::new(expr_view(*l)), Box::new(expr_view(*r))),
        Expr::Not(e) => ExprView::Not(Box::new(expr_view(*e))),
    }
}

impl View for Expr {
    type V = ExprView;

    open spec fn view(&self) -> ExprView {
        expr_view(*self)
    }
}

/// A copy of a list of cells.
fn clone_values(values: &Vec<Value>) -> (r: Vec<Value>)
    ensures
        values_view(r@) == values_view(values@),
{
    let mut out: Vec<Value> = Vec::new();
    let mut i: usize = 0;
    while i < values.len()
        invariant
            i <= values.len(),
            out.len() == i,
            forall|j: int| 0 <= j < i ==> (#[trigger] out@[j])@ == values@[j]@,
        decreases values.len() - i,
    {
        out.push(values[i].clone());
        i += 1;
    }
    assert(values_view(out@) =~= values_view(values@));
    out
}

impl Clone for Expr {
    fn clone(&self) -> (r: Self)
        ensures
            r@ == self@,
        decreases self,
    {
        match self {
            Expr::Eq(f, v) => Expr::Eq(f.clone(), v.clone()),
            Expr::Gt(f, v) => Expr::Gt(f.clone(), v.clone()),
            Expr::Lt(f, v) => Expr::Lt(f.clone(), v.clone()),
            Expr::Gte(f, v) => Expr::Gte(f.clone(), v.clone()),
            Expr::Lte(f, v) => Expr::Lte(f.clone(), v.clone()),
            Expr::Like(f, p) => Expr::Like(f.clone(), p.clone()),
            Expr::In(f, vs) => Expr::In(f.clone(), clone_values(vs)),
            Expr::Between(f, lo, hi) => Expr::Between(f.clone(), lo.clone(), hi.clone()),
            Expr::KindEq(k) => Expr::KindEq(*k),
            Expr::And(l, r) => Expr::And(Box::new((&**l).clone()), Box::new((&**r).clone())),
            Expr::Or(l, r) => Expr::Or(Box::new((&**l).clone()), Box::new((&**r).clone())),
            Expr::Not(e) => Expr::Not(Box::new((&**e).clone())),
        }
    }
}

/// A query: which fields to keep (none named: all), which rows to keep, how
/// many of them, in which order, and which statistics to compute.
#[derive(Debug, Clone)]
pub struct Query {
    pub select: Vec<String>,
    pub filter: Option<Expr>,
    pub limit: Option<usize>,
    pub order_by: Option<(String, SortOrder)>,
    pub aggregates: Vec<Aggregate>,
}

/// What a [`Query`] holds.
pub struct QueryView {
    pub select: Seq<Seq<char>>,
    pub filter: Option<ExprView>,
    pub limit: Option<usize>,
    pub order_by: Option<(Seq<char>, SortOrder)>,
    pub aggregates: Seq<AggregateView>,
}

impl View for Query {
    type V = QueryView;

    open spec fn view(&self) -> QueryView {
        QueryView {
            select: strings_view(self.select@),
            filter: match self.filter {
                Some(expr) => Some(expr@),
                None => None,
            },
            limit: self.limit,
            order_by: match self.order_by {
                Some((field, order)) => Some((field@, order)),
                None => None,
            },
            aggregates: aggregates_view(self.aggregates@),
        }
    }
}

} // verus!
