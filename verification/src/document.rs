//! Documents as they are assembled from the segments of an interchange.
use crate::ast::{Expr, ExprView};
use crate::eval::{eval, holds};
use crate::row::{rows_view, Row, RowKind, RowView, Value, ValueView};
use vstd::prelude::*;

verus! {

/// One line of a document.
#[derive(Debug, Clone, PartialEq, Eq)]
pub struct StreamingLine {
    pub line_no: u64,
    pub sku: String,
    /// The quantity, a binary64 number held by its encoding.
    pub qty: Option<u64>,
    pub uom: Option<String>,
    /// The amount, a binary64 number held by its encoding.
    pub amount: Option<u64>,
}

/// What a [`StreamingLine`] holds.
pub struct LineView {
    pub line_no: u64,
    pub sku: Seq<char>,
    pub qty: Option<u64>,
    pub uom: Option<Seq<char>>,
    pub amount: Option<u64>,
}

/// What an optional text holds.
pub open spec fn text_view(text: Option<String>) -> Option<Seq<char>> {
    match text {
        Some(s) => Some(s@),
        None => None,
    }
}

impl View for StreamingLine {
    type V = LineView;

    open spec fn view(&self) -> LineView {
        LineView {
            line_no: self.line_no,
            sku: self.sku@,
            qty: self.qty,
            uom: text_view(self.uom),
            amount: self.amount,
        }
    }
}

/// One document: its header and its lines.
#[derive(Debug, Clone, PartialEq, Eq)]
pub struct StreamingDocument {
    pub interchange_id: String,
    pub sender: String,
    pub receiver: String,
    pub doc_type: String,
    pub document_number: String,
    pub document_date: Option<String>,
    pub requested_delivery_date: Option<String>,
    pub currency: String,
    pub buyer: Option<String>,
    pub seller: Option<String>,
    pub line_count_check: Option<u64>,
    pub lines: Vec<StreamingLine>,
}

/// What a [`StreamingDocument`] holds.
pub struct DocumentView {
    pub interchange_id: Seq<char>,
    pub sender: Seq<char>,
    pub receiver: Seq<char>,
    pub doc_type: Seq<char>,
    pub document_number: Seq<char>,
    pub document_date: Option<Seq<char>>,
    pub requested_delivery_date: Option<Seq<char>>,
    pub currency: Seq<char>,
    pub buyer: Option<Seq<char>>,
    pub seller: Option<Seq<char>>,
    pub line_count_check: Option<u64>,
    pub lines: Seq<LineView>,
}

/// What a list of lines holds, line by line.
pub open spec fn lines_view(lines: Seq<StreamingLine>) -> Seq<LineView> {
    Seq::new(lines.len(), |i: int| lines[i]@)
}

impl View for StreamingDocument {
    type V = DocumentView;

    open spec fn view(&self) -> DocumentView {
        DocumentView {
            interchange_id: self.interchange_id@,
            sender: self.sender@,
            receiver: self.receiver@,
            doc_type: self.doc_type@,
            document_number: self.document_number@,
            document_date: text_view(self.document_date),
            requested_delivery_date: text_view(self.requested_delivery_date),
            currency: self.currency@,
            buyer: text_view(self.buyer),
            seller: text_view(self.seller),
            line_count_check: self.line_count_check,
            lines: lines_view(self.lines@),
        }
    }
}

/// The document in which nothing is set: its texts are empty, and its
/// currency is the word that stands for "never seen".
pub open spec fn blank_document() -> DocumentView {
    DocumentView {
        interchange_id: Seq::empty(),
        sender: Seq::empty(),
        receiver: Seq::empty(),
        doc_type: Seq::empty(),
        document_number: Seq::empty(),
        document_date: None,
        requested_delivery_date: None,
        currency: "UNKNOWN"@,
        buyer: None,
        seller: None,
        line_count_check: None,
        lines: Seq::empty(),
    }
}

impl Default for StreamingDocument {
    fn default() -> (r: Self)
        ensures
            r@ == blank_document(),
    {
        let r = StreamingDocument {
            interchange_id: String::new(),
            sender: String::new(),
            receiver: String::new(),
            doc_type: String::new(),
            document_number: String::new(),
            document_date: None,
            requested_delivery_date: None,
            currency: "UNKNOWN".to_owned(),
            buyer: None,
            seller: None,
            line_count_check: None,
            lines: Vec::new(),
        };
        assert(lines_view(r.lines@) =~= Seq::<LineView>::empty());
        r
    }
}

/// The cells that every row of a document carries.
pub open spec fn header_fields(doc: DocumentView) -> Map<Seq<char>, ValueView> {
    let named = Map::<Seq<char>, ValueView>::empty().insert(
        "number"@,
        ValueView::Text(doc.document_number),
    ).insert("doc_type"@, ValueView::Text(doc.doc_type)).insert(
        "interchange_id"@,
        ValueView::Text(doc.interchange_id),
    ).insert("sender"@, ValueView::Text(doc.sender));
    let dated = match doc.document_date {
        Some(date) => named.insert("date"@, ValueView::Text(date)),
        None => named,
    };
    let bought = match doc.buyer {
        Some(buyer) => dated.insert("buyer"@, ValueView::Text(buyer)),
        None => dated,
    };
    match doc.seller {
        Some(seller) => bought.insert("seller"@, ValueView::Text(seller)),
        None => bought,
    }
}

/// The one row of a document without lines.
pub open spec fn header_row(doc: DocumentView) -> RowView {
    RowView { kind: RowKind::UNH, fields: header_fields(doc) }
}

/// The row of one line: the header's cells, and over them the line's own.
pub open spec fn line_row(doc: DocumentView, line: LineView) -> RowView {
    let with_sku = header_fields(doc).insert("sku"@, ValueView::Text(line.sku));
    let with_qty = match line.qty {
        Some(q) => with_sku.insert("qty"@, ValueView::Number(q)),
        None => with_sku,
    };
    let with_amount = match line.amount {
        Some(a) => with_qty.insert("amount"@, ValueView::Number(a)),
        None => with_qty,
    };
    RowView { kind: RowKind::LIN, fields: with_amount }
}

/// The rows of a document: one for each line, or the header's row where
/// there is no line.
pub open spec fn flattened(doc: DocumentView) -> Seq<RowView> {
    if doc.lines.len() == 0 {
        seq![header_row(doc)]
    } else {
        Seq::new(doc.lines.len(), |i: int| line_row(doc, doc.lines[i]))
    }
}

/// Whether a finished document is kept: always without a filter, else when
/// the filter holds of one of its rows.
pub open spec fn kept(filter: Option<ExprView>, doc: DocumentView) -> bool {
    match filter {
        None => true,
        Some(expr) => exists|i: int|
            0 <= i < flattened(doc).len() && holds(expr, #[trigger] flattened(doc)[i]),
    }
}

/// The header's row of `doc`.
pub fn header_row_of(doc: &StreamingDocument) -> (r: Row)
    ensures
        r@ == header_row(doc@),
{
    let mut row = Row::new(RowKind::UNH);
    row.insert("number", Value::Text(doc.document_number.clone()));
    row.insert("doc_type", Value::Text(doc.doc_type.clone()));
    row.insert("interchange_id", Value::Text(doc.interchange_id.clone()));
    row.insert("sender", Value::Text(doc.sender.clone()));
    match &doc.document_date {
        Some(date) => {
            row.insert("date", Value::Text(date.clone()));
        },
        None => {},
    }
    match &doc.buyer {
        Some(buyer) => {
            row.insert("buyer", Value::Text(buyer.clone()));
        },
        None => {},
    }
    match &doc.seller {
        Some(seller) => {
            row.insert("seller", Value::Text(seller.clone()));
        },
        None => {},
    }
    row
}

/// The row of `line`, over the header's row `base`.
pub fn line_row_of(base: &Row, line: &StreamingLine) -> (r: Row)
    ensures
        r@.kind == RowKind::LIN,
        r@.fields == {
            let with_sku = base@.fields.insert("sku"@, ValueView::Text(line@.sku));
            let with_qty = match line@.qty {
                Some(q) => with_sku.insert("qty"@, ValueView::Number(q)),
                None => with_sku,
            };
            match line@.amount {
                Some(a) => with_qty.insert("amount"@, ValueView::Number(a)),
                None => with_qty,
            }
        },
{
    let mut row = base.clone();
    row.kind = RowKind::LIN;
    row.insert("sku", Value::Text(line.sku.clone()));
    match line.qty {
        Some(q) => {
            row.insert("qty", Value::Number(q));
        },
        None => {},
    }
    match line.amount {
        Some(a) => {
            row.insert("amount", Value::Number(a));
        },
        None => {},
    }
    row
}

/// The rows of `doc`.
pub fn flatten(doc: &StreamingDocument) -> (r: Vec<Row>)
    ensures
        rows_view(r@) == flattened(doc@),
{
    let base = header_row_of(doc);
    let mut rows: Vec<Row> = Vec::new();
    if doc.lines.len() == 0 {
        rows.push(base);
        assert(rows_view(rows@) =~= flattened(doc@));
        return rows;
    }
    let mut i: usize = 0;
    while i < doc.lines.len()
        invariant
            i <= doc.lines.len(),
            rows.len() == i,
            base@ == header_row(doc@),
            forall|j: int| 0 <= j < i ==> (#[trigger] rows@[j])@ == line_row(doc@, doc.lines@[j]@),
        decreases doc.lines.len() - i,
    {
        rows.push(line_row_of(&base, &doc.lines[i]));
        i += 1;
    }
    assert(rows_view(rows@) =~= flattened(doc@));
    rows
}

/// Decides whether a finished document is kept. The rows are tried in
/// order, and the first that satisfies the filter settles it.
pub fn keeps(filter: Option<&Expr>, doc: &StreamingDocument) -> (r: bool)
    ensures
        r == kept(
            match filter {
                Some(expr) => Some(expr@),
                None => None,
            },
            doc@,
        ),
{
    let expr = match filter {
        Some(expr) => expr,
        None => {
            return true;
        },
    };
    let base = header_row_of(doc);
    if doc.lines.len() == 0 {
        let found = eval(expr, &base);
        proof {
            assert(flattened(doc@)[0] == header_row(doc@));
        }
        return found;
    }
    let mut i: usize = 0;
    while i < doc.lines.len()
        invariant
            i <= doc.lines.len(),
            doc.lines.len() > 0,
            filter == Some(expr),
            base@ == header_row(doc@),
            forall|j: int| 0 <= j < i ==> !holds(expr@, #[trigger] flattened(doc@)[j]),
        decreases doc.lines.len() - i,
    {
        let row = line_row_of(&base, &doc.lines[i]);
        assert(row@ == flattened(doc@)[i as int]);
        if eval(expr, &row) {
            assert(holds(expr@, flattened(doc@)[i as int]));
            return true;
        }
        i += 1;
    }
    false
}

} // verus!
