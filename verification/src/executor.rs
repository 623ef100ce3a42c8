//! Running a query over a source of rows.
use crate::aggregation::{carried_out, execute_aggregates, planned, AggregateResult};
use crate::ast::{ExprView, Query, QueryView};
use crate::eval::{eval, holds};
use crate::ordering::{ordered, sort_rows};
use crate::reader::Reader;
use crate::row::{rows_view, Row, RowView};
use crate::text::strings_view;
use vstd::prelude::*;

verus! {

/// Whether a row passes a filter: always where there is none.
pub open spec fn passes(filter: Option<ExprView>, row: RowView) -> bool {
    match filter {
        Some(expr) => holds(expr, row),
        None => true,
    }
}

/// The rows that pass a filter, in their order.
pub open spec fn survivors(filter: Option<ExprView>, rows: Seq<RowView>) -> Seq<RowView> {
    rows.filter(|row: RowView| passes(filter, row))
}

/// The row with only the selected fields, as far as it has them. Where no
/// field is selected, the row as it is.
pub open spec fn projected(select: Seq<Seq<char>>, row: RowView) -> RowView {
    if select.len() == 0 {
        row
    } else {
        RowView { kind: row.kind, fields: row.fields.restrict(select.to_set()) }
    }
}

/// The rows of a listing before they are ordered and cut: those that pass
/// the filter, each projected.
pub open spec fn listed(query: QueryView, rows: Seq<RowView>) -> Seq<RowView> {
    survivors(query.filter, rows).map_values(|row: RowView| projected(query.select, row))
}

/// The first `limit` rows, or all of them where there are no more.
pub open spec fn limited(rows: Seq<RowView>, limit: Option<usize>) -> Seq<RowView> {
    match limit {
        Some(n) => if n <= rows.len() {
            rows.take(n as int)
        } else {
            rows
        },
        None => rows,
    }
}

/// The listing of a query over some rows: filtered, projected, then
/// ordered, then cut.
pub open spec fn listing(query: QueryView, rows: Seq<RowView>) -> Seq<RowView> {
    let found = listed(query, rows);
    let sorted = match query.order_by {
        Some((field, order)) => ordered(found, field, order),
        None => found,
    };
    limited(sorted, query.limit)
}

/// The place of the first row that passes the filter, or the number of rows
/// where none does.
pub open spec fn first_passing(filter: Option<ExprView>, rows: Seq<RowView>) -> int
    decreases rows.len(),
{
    if rows.len() == 0 {
        0
    } else if passes(filter, rows[0]) {
        0
    } else {
        1 + first_passing(filter, rows.drop_first())
    }
}

/// A projection holds a field exactly when the field is selected and the
/// row holds it, and then the cell that the row holds there.
pub proof fn projection_keeps_selected_only(select: Seq<Seq<char>>, row: RowView, name: Seq<char>)
    requires
        select.len() > 0,
    ensures
        projected(select, row).kind == row.kind,
        projected(select, row).fields.contains_key(name) <==> (select.contains(name)
            && row.fields.contains_key(name)),
        projected(select, row).fields.contains_key(name) ==> projected(select, row).fields[name]
            == row.fields[name],
{
}

/// The row with only the selected fields.
pub fn project(select: &Vec<String>, row: Row) -> (r: Row)
    ensures
        r@ == projected(strings_view(select@), row@),
{
    if select.len() == 0 {
        return row;
    }
    let ghost names = strings_view(select@);
    let mut out = Row::new(row.kind);
    let mut i: usize = 0;
    proof {
        assert(names.take(0).to_set() =~= Set::<Seq<char>>::empty());
        assert(out@.fields =~= row@.fields.restrict(names.take(0).to_set()));
    }
    while i < select.len()
        invariant
            i <= select.len(),
            names == strings_view(select@),
            out@.kind == row@.kind,
            out@.fields == row@.fields.restrict(names.take(i as int).to_set()),
        decreases select.len() - i,
    {
        let field = select[i].as_str();
        let ghost before = out@.fields;
        match row.get(field) {
            Some(cell) => {
                out.insert(field, cell.clone());
            },
            None => {},
        }
        proof {
            let seen = names.take(i as int);
            let now = names.take(i + 1);
            assert(now =~= seen.push(field@));
            assert forall|k: Seq<char>| now.to_set().contains(k) <==> (seen.to_set().contains(k)
                || k == field@) by {
                if seen.contains(k) {
                    let j = choose|j: int| 0 <= j < seen.len() && seen[j] == k;
                    assert(now[j] == k);
                }
                if k == field@ {
                    assert(now[i as int] == k);
                }
                if now.contains(k) {
                    let j = choose|j: int| 0 <= j < now.len() && now[j] == k;
                    if j < i {
                        assert(seen[j] == k);
                    }
                }
            }
            assert(out@.fields =~= row@.fields.restrict(now.to_set()));
        }
        i += 1;
    }
    proof {
        assert(names.take(i as int) =~= names);
    }
    out
}

/// A query at work on a source of rows.
pub struct Executor<R: Reader> {
    reader: R,
    query: Query,
}

impl<R: Reader> Executor<R> {
    /// The rows that the source has yet to give.
    pub closed spec fn remaining(&self) -> Seq<RowView> {
        self.reader.remaining()
    }

    /// The query at work.
    pub closed spec fn query(&self) -> QueryView {
        self.query@
    }

    /// A query set to work on a source.
    pub fn new(reader: R, query: Query) -> (r: Self)
        ensures
            r.remaining() == reader.remaining(),
            r.query() == query@,
    {
        Executor { reader, query }
    }

    /// The next row of the source that passes the filter, projected; `None`
    /// when the source has no such row left. The rows up to the one that is
    /// returned are used up.
    pub fn next(&mut self) -> (r: Option<Row>)
        ensures
            final(self).query() == old(self).query(),
            ({
                let rows = old(self).remaining();
                let place = first_passing(old(self).query().filter, rows);
                &&& 0 <= place <= rows.len()
                &&& match r {
                    Some(row) => place < rows.len() && row@ == projected(
                        old(self).query().select,
                        rows[place],
                    ) && final(self).remaining() == rows.skip(place + 1),
                    None => place == rows.len() && final(self).remaining().len() == 0,
                }
            }),
    {
        let ghost rows = self.reader.remaining();
        let ghost filter = self.query@.filter;
        let ghost mut skipped: int = 0;
        proof {
            assert(rows.skip(0) =~= rows);
        }
        loop
            invariant
                self.query == old(self).query,
                rows == old(self).reader.remaining(),
                filter == self.query@.filter,
                0 <= skipped <= rows.len(),
                self.reader.remaining() == rows.skip(skipped),
                first_passing(filter, rows) == skipped + first_passing(filter, rows.skip(skipped)),
            decreases rows.len() - skipped,
        {
            match self.reader.next() {
                Some(row) => {
                    let keep = match &self.query.filter {
                        Some(expr) => eval(expr, &row),
                        None => true,
                    };
                    proof {
                        assert(rows.skip(skipped)[0] == rows[skipped]);
                        assert(rows.skip(skipped).drop_first() =~= rows.skip(skipped + 1));
                    }
                    if keep {
                        return Some(project(&self.query.select, row));
                    }
                    proof {
                        skipped = skipped + 1;
                    }
                },
                None => {
                    return None;
                },
            }
        }
    }

    /// Reads the source to its end and gathers the rows that pass the
    /// filter, projected where `projecting` says so.
    fn gather(&mut self, projecting: bool) -> (r: Vec<Row>)
        ensures
            final(self).query == old(self).query,
            final(self).reader.remaining().len() == 0,
            rows_view(r@) == if projecting {
                listed(old(self).query@, old(self).reader.remaining())
            } else {
                survivors(old(self).query@.filter, old(self).reader.remaining())
            },
    {
        let ghost rows = self.reader.remaining();
        let ghost query = self.query@;
        let ghost mut read: int = 0;
        let mut out: Vec<Row> = Vec::new();
        proof {
            reveal(Seq::filter);
            assert(rows.skip(0) =~= rows);
            assert(rows.take(0) =~= Seq::<RowView>::empty());
            assert(rows_view(out@) =~= survivors(query.filter, rows.take(0)));
            assert(rows_view(out@) =~= listed(query, rows.take(0)));
        }
        loop
            invariant
                self.query == old(self).query,
                rows == old(self).reader.remaining(),
                query == self.query@,
                0 <= read <= rows.len(),
                self.reader.remaining() == rows.skip(read),
                rows_view(out@) == if projecting {
                    listed(query, rows.take(read))
                } else {
                    survivors(query.filter, rows.take(read))
                },
            decreases rows.len() - read,
        {
            match self.reader.next() {
                Some(row) => {
                    let keep = match &self.query.filter {
                        Some(expr) => eval(expr, &row),
                        None => true,
                    };
                    let ghost shown = rows_view(out@);
                    let ghost upto = rows.take(read + 1);
                    proof {
                        reveal(Seq::filter);
                        assert(rows.skip(read)[0] == rows[read]);
                        assert(rows.skip(read).drop_first() =~= rows.skip(read + 1));
                        assert(upto.drop_last() =~= rows.take(read));
                        assert(upto.last() == rows[read]);
                    }
                    if keep {
                        let ghost held = row@;
                        let shown_row = if projecting {
                            project(&self.query.select, row)
                        } else {
                            row
                        };
                        out.push(shown_row);
                        proof {
                            assert(rows_view(out@) =~= shown.push(shown_row@));
                            assert(survivors(query.filter, upto) == survivors(
                                query.filter,
                                rows.take(read),
                            ).push(held));
                            if projecting {
                                assert(listed(query, upto) =~= listed(query, rows.take(read)).push(
                                    projected(query.select, held),
                                ));
                            }
                        }
                    }
                    proof {
                        read = read + 1;
                    }
                },
                None => {
                    proof {
                        assert(rows.take(read) =~= rows);
                    }
                    return out;
                },
            }
        }
    }

    /// The listing of the query over all rows that the source has yet to
    /// give: those that pass the filter, each projected; then put in the
    /// order asked for, if one is; then cut to the limit, if there is one.
    pub fn collect(self) -> (r: Vec<Row>)
        ensures
            rows_view(r@) == listing(self.query(), self.remaining()),
    {
        let mut this = self;
        let mut results = this.gather(true);
        match &this.query.order_by {
            Some((field, order)) => {
                sort_rows(&mut results, field.as_str(), *order);
            },
            None => {},
        }
        match this.query.limit {
            Some(limit) => {
                let ghost before = rows_view(results@);
                results.truncate(limit);
                proof {
                    if limit <= before.len() {
                        assert(rows_view(results@) =~= before.take(limit as int));
                    }
                }
            },
            None => {},
        }
        results
    }

    /// The statistics of the query over all rows that the source has yet to
    /// give and that pass the filter. What the query selects, its order and
    /// its limit play no part. `sum` gives the total of a list of numbers,
    /// `avg` their mean.
    pub fn collect_with_aggregates<S: Fn(Vec<u64>) -> u64, A: Fn(Vec<u64>) -> u64>(
        self,
        sum: S,
        avg: A,
    ) -> (r: AggregateResult)
        requires
            forall|v: Vec<u64>| v@.len() > 0 ==> call_requires(sum, (v,)),
            forall|v: Vec<u64>| v@.len() > 0 ==> call_requires(avg, (v,)),
        ensures
            carried_out(
                planned(survivors(self.query().filter, self.remaining()), self.query().aggregates),
                sum,
                avg,
                r,
            ),
    {
        let mut this = self;
        let found = this.gather(false);
        execute_aggregates(found.as_slice(), this.query.aggregates.as_slice(), sum, avg)
    }
}

} // verus!
