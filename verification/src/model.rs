//! A document in its plainest form.
use vstd::prelude::*;

verus! {

/// One line of a document.
#[derive(Debug, Clone, PartialEq, Eq)]
pub struct Line {
    pub sku: String,
    /// The quantity, a binary64 number held by its encoding.
    pub qty: Option<u64>,
    /// The amount, a binary64 number held by its encoding.
    pub amount: Option<u64>,
}

/// A document.
#[derive(Debug, Clone, PartialEq, Eq)]
pub struct Document {
    pub doc_type: String,
    pub number: String,
    pub date: Option<String>,
    pub buyer: Option<String>,
    pub seller: Option<String>,
    pub lines: Vec<Line>,
    /// The total, a binary64 number held by its encoding.
    pub total: Option<u64>,
}

impl Default for Line {
    fn default() -> (r: Self)
        ensures
            r.sku@ == Seq::<char>::empty(),
            r.qty is None,
            r.amount is None,
    {
        Line { sku: String::new(), qty: None, amount: None }
    }
}

impl Default for Document {
    fn default() -> (r: Self)
        ensures
            r.doc_type@ == Seq::<char>::empty(),
            r.number@ == Seq::<char>::empty(),
            r.date is None,
            r.buyer is None,
            r.seller is None,
            r.lines@ == Seq::<Line>::empty(),
            r.total is None,
    {
        Document {
            doc_type: String::new(),
            number: String::new(),
            date: None,
            buyer: None,
            seller: None,
            lines: Vec::new(),
            total: None,
        }
    }
}

} // verus!
