//! Sources of rows.
use crate::row::{rows_view, Row, RowView};
use vstd::prelude::*;

verus! {

/// A source that gives its rows one by one, and then signals the end.
pub trait Reader {
    /// The rows that the source has yet to give, in the order in which it
    /// will give them.
    spec fn remaining(&self) -> Seq<RowView>;

    /// The next row, or `None` at the end.
    fn next(&mut self) -> (r: Option<Row>)
        ensures
            match r {
                Some(row) => old(self).remaining().len() > 0 && row@ == old(self).remaining()[0]
                    && final(self).remaining() == old(self).remaining().drop_first(),
                None => old(self).remaining().len() == 0 && final(self).remaining() == old(
                    self,
                ).remaining(),
            },
    ;
}

/// A source that gives the rows of a list.
#[derive(Debug, Clone)]
pub struct MockReader {
    rows: Vec<Row>,
    index: usize,
}

impl MockReader {
    /// A source that will give `rows`, first to last.
    pub fn new(rows: Vec<Row>) -> (r: Self)
        ensures
            r.remaining() == rows_view(rows@),
    {
        assert(rows_view(rows@).skip(0) =~= rows_view(rows@));
        MockReader { rows, index: 0 }
    }
}

impl Reader for MockReader {
    closed spec fn remaining(&self) -> Seq<RowView> {
        if self.index <= self.rows.len() {
            rows_view(self.rows@).skip(self.index as int)
        } else {
            Seq::empty()
        }
    }

    fn next(&mut self) -> (r: Option<Row>) {
        if self.index < self.rows.len() {
            let row = self.rows[self.index].clone();
            proof {
                let all = rows_view(self.rows@);
                assert(all.skip(self.index as int).drop_first() =~= all.skip(self.index + 1));
            }
            self.index += 1;
            Some(row)
        } else {
            None
        }
    }
}

} // verus!
