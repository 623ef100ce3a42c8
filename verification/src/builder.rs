//! The state machine that assembles documents from segments.
use crate::ast::{Expr, ExprView};
use crate::document::{
    blank_document, keeps, kept, lines_view, DocumentView, LineView, StreamingDocument,
    StreamingLine,
};
use crate::segment::{Segment, SegmentView};
use crate::text::{decimal_u64, parse_u64, same_text};
use vstd::prelude::*;

verus! {

/// What is held while an interchange is read: the identifiers of the last
/// interchange header, the document that is open, and the line that is open.
#[derive(Debug)]
pub struct DocumentBuilder {
    pub interchange_id: String,
    pub sender_id: String,
    pub receiver_id: String,
    pub current_doc: Option<StreamingDocument>,
    pub current_line: Option<StreamingLine>,
}

/// What a [`DocumentBuilder`] holds.
pub struct BuilderView {
    pub interchange_id: Seq<char>,
    pub sender_id: Seq<char>,
    pub receiver_id: Seq<char>,
    pub document: Option<DocumentView>,
    pub line: Option<LineView>,
}

impl View for DocumentBuilder {
    type V = BuilderView;

    open spec fn view(&self) -> BuilderView {
        BuilderView {
            interchange_id: self.interchange_id@,
            sender_id: self.sender_id@,
            receiver_id: self.receiver_id@,
            document: match self.current_doc {
                Some(doc) => Some(doc@),
                None => None,
            },
            line: match self.current_line {
                Some(line) => Some(line@),
                None => None,
            },
        }
    }
}

/// The state before any segment: no identifiers, nothing open.
pub open spec fn initial() -> BuilderView {
    BuilderView {
        interchange_id: Seq::empty(),
        sender_id: Seq::empty(),
        receiver_id: Seq::empty(),
        document: None,
        line: None,
    }
}

/// The open document once the open line has been closed: the line becomes
/// the document's last. Without an open document the line is lost.
pub open spec fn with_line(document: Option<DocumentView>, line: Option<LineView>) -> Option<
    DocumentView,
> {
    match (document, line) {
        (Some(doc), Some(l)) => Some(DocumentView { lines: doc.lines.push(l), ..doc }),
        _ => document,
    }
}

/// The name of a document type: `ORDERS` for code 220, else the code.
pub open spec fn document_type(code: Seq<char>) -> Seq<char> {
    if code == "220"@ {
        "ORDERS"@
    } else {
        code
    }
}

/// The open document after a segment that speaks of the document.
pub open spec fn document_after(doc: DocumentView, segment: SegmentView) -> DocumentView {
    match segment {
        SegmentView::BGM(code, number) => DocumentView {
            document_number: number,
            doc_type: document_type(code),
            ..doc
        },
        SegmentView::DTM(qualifier, date) => if qualifier == "137"@ {
            DocumentView { document_date: Some(date), ..doc }
        } else if qualifier == "2"@ {
            DocumentView { requested_delivery_date: Some(date), ..doc }
        } else {
            doc
        },
        SegmentView::NAD(qualifier, id) => if qualifier == "BY"@ {
            DocumentView { buyer: Some(id), ..doc }
        } else if qualifier == "SU"@ {
            DocumentView { seller: Some(id), ..doc }
        } else {
            doc
        },
        SegmentView::CNT(qualifier, value) => if qualifier == "2"@ {
            DocumentView { line_count_check: decimal_u64(value), ..doc }
        } else {
            doc
        },
        SegmentView::CUX(currency) => DocumentView { currency, ..doc },
        _ => doc,
    }
}

/// The open line after a segment that speaks of the line. `number` is what
/// the segment's numeric text was read as, `None` where it is no number.
pub open spec fn line_after(line: LineView, segment: SegmentView, number: Option<u64>) -> LineView {
    match segment {
        SegmentView::QTY(_, _, unit) => LineView {
            qty: number,
            uom: if unit.len() > 0 {
                Some(unit)
            } else {
                None
            },
            ..line
        },
        SegmentView::MOA(_, _) => LineView { amount: number, ..line },
        _ => line,
    }
}

/// The line that a line-start segment opens. A line number that is no
/// unsigned decimal number counts as zero.
pub open spec fn opened_line(line_number: Seq<char>, sku: Seq<char>) -> LineView {
    LineView {
        line_no: match decimal_u64(line_number) {
            Some(n) => n,
            None => 0,
        },
        sku,
        qty: None,
        uom: None,
        amount: None,
    }
}

/// The state after a segment.
pub open spec fn after(state: BuilderView, segment: SegmentView, number: Option<u64>) -> BuilderView {
    match segment {
        SegmentView::UNB(sender, receiver, id) => BuilderView {
            sender_id: sender,
            receiver_id: receiver,
            interchange_id: id,
            ..state
        },
        SegmentView::UNH => BuilderView {
            document: Some(
                DocumentView {
                    interchange_id: state.interchange_id,
                    sender: state.sender_id,
                    receiver: state.receiver_id,
                    ..blank_document()
                },
            ),
            ..state
        },
        SegmentView::LIN(line_number, sku) => BuilderView {
            document: with_line(state.document, state.line),
            line: Some(opened_line(line_number, sku)),
            ..state
        },
        SegmentView::QTY(_, _, _) | SegmentView::MOA(_, _) => match state.line {
            Some(line) => BuilderView { line: Some(line_after(line, segment, number)), ..state },
            None => state,
        },
        SegmentView::UNT => BuilderView { document: None, line: None, ..state },
        SegmentView::UNZ | SegmentView::Unknown(_) => state,
        _ => match state.document {
            Some(doc) => BuilderView { document: Some(document_after(doc, segment)), ..state },
            None => state,
        },
    }
}

/// The document that a segment finishes: the open one, with the open line
/// as its last, when the segment closes a document.
pub open spec fn finished(state: BuilderView, segment: SegmentView) -> Option<DocumentView> {
    match segment {
        SegmentView::UNT => with_line(state.document, state.line),
        _ => None,
    }
}

/// What a segment hands on: the document that it finishes, if that
/// document is kept.
pub open spec fn emitted(
    state: BuilderView,
    segment: SegmentView,
    filter: Option<ExprView>,
) -> Option<DocumentView> {
    match finished(state, segment) {
        Some(doc) => if kept(filter, doc) {
            Some(doc)
        } else {
            None
        },
        None => None,
    }
}

/// Without a filter every finished document is handed on; with one, a
/// finished document is handed on exactly when the filter holds of one of
/// its rows.
pub proof fn finished_documents_are_filtered(
    state: BuilderView,
    segment: SegmentView,
    filter: Option<ExprView>,
)
    ensures
        emitted(state, segment, None) == finished(state, segment),
        emitted(state, segment, filter) is Some <==> (finished(state, segment) matches Some(doc)
            && kept(filter, doc)),
        emitted(state, segment, filter) is Some ==> emitted(state, segment, filter) == finished(
            state,
            segment,
        ),
{
}

/// A document is finished by a document-close segment only, and only
/// where a document is open; whatever the segment, no document and no line
/// is open after a document-close segment.
pub proof fn close_finishes_the_open_document(
    state: BuilderView,
    segment: SegmentView,
    number: Option<u64>,
)
    ensures
        finished(state, segment) is Some <==> (segment is UNT && state.document is Some),
        segment is UNT ==> after(state, segment, number).document is None && after(
            state,
            segment,
            number,
        ).line is None,
        !(segment is UNT) && !(segment is UNH) ==> (after(state, segment, number).document is Some
            <==> state.document is Some),
{
}

/// What an optional document holds.
pub open spec fn document_view(doc: Option<StreamingDocument>) -> Option<DocumentView> {
    match doc {
        Some(d) => Some(d@),
        None => None,
    }
}

/// What an optional condition holds.
pub open spec fn filter_view(filter: Option<&Expr>) -> Option<ExprView> {
    match filter {
        Some(expr) => Some(expr@),
        None => None,
    }
}

impl DocumentBuilder {
    /// A builder that has seen no segment.
    pub fn new() -> (r: Self)
        ensures
            r@ == initial(),
    {
        DocumentBuilder {
            interchange_id: String::new(),
            sender_id: String::new(),
            receiver_id: String::new(),
            current_doc: None,
            current_line: None,
        }
    }

    /// Closes the open line: it becomes the last line of the open document.
    fn flush_line(&mut self)
        ensures
            final(self)@ == (BuilderView {
                document: with_line(old(self)@.document, old(self)@.line),
                line: None,
                ..old(self)@
            }),
    {
        let line = self.current_line.take();
        let doc = self.current_doc.take();
        self.current_doc = match (doc, line) {
            (Some(mut doc), Some(line)) => {
                let ghost before = lines_view(doc.lines@);
                doc.lines.push(line);
                assert(lines_view(doc.lines@) =~= before.push(line@));
                Some(doc)
            },
            (doc, _) => doc,
        };
    }

    /// Takes one segment in, and returns the document that the segment
    /// finishes. `number` is the segment's numeric text read as a number:
    /// `None` where the segment has no such text or the text is no number.
    pub fn consume(&mut self, segment: &Segment, number: Option<u64>) -> (r: Option<
        StreamingDocument,
    >)
        ensures
            final(self)@ == after(old(self)@, segment@, number),
            document_view(r) == finished(old(self)@, segment@),
    {
        match segment {
            Segment::UNB(sender, receiver, id) => {
                self.sender_id = (*sender).to_owned();
                self.receiver_id = (*receiver).to_owned();
                self.interchange_id = (*id).to_owned();
                None
            },
            Segment::UNH => {
                let mut doc = StreamingDocument::default();
                doc.interchange_id = self.interchange_id.clone();
                doc.sender = self.sender_id.clone();
                doc.receiver = self.receiver_id.clone();
                self.current_doc = Some(doc);
                None
            },
            Segment::LIN(line_number, sku) => {
                self.flush_line();
                let line_no = match parse_u64(line_number) {
                    Some(n) => n,
                    None => 0,
                };
                self.current_line = Some(
                    StreamingLine {
                        line_no,
                        sku: (*sku).to_owned(),
                        qty: None,
                        uom: None,
                        amount: None,
                    },
                );
                None
            },
            Segment::QTY(_, _, unit) => {
                match self.current_line.take() {
                    Some(mut line) => {
                        line.qty = number;
                        line.uom = if unit.unicode_len() > 0 {
                            Some((*unit).to_owned())
                        } else {
                            None
                        };
                        self.current_line = Some(line);
                    },
                    None => {},
                }
                None
            },
            Segment::MOA(_, _) => {
                match self.current_line.take() {
                    Some(mut line) => {
                        line.amount = number;
                        self.current_line = Some(line);
                    },
                    None => {},
                }
                None
            },
            Segment::UNT => {
                self.flush_line();
                self.current_doc.take()
            },
            Segment::UNZ => None,
            Segment::Unknown(_) => None,
            Segment::BGM(code, number_text) => {
                match self.current_doc.take() {
                    Some(mut doc) => {
                        doc.document_number = (*number_text).to_owned();
                        doc.doc_type = if same_text(code, "220") {
                            "ORDERS".to_owned()
                        } else {
                            (*code).to_owned()
                        };
                        self.current_doc = Some(doc);
                    },
                    None => {},
                }
                None
            },
            Segment::DTM(qualifier, date) => {
                match self.current_doc.take() {
                    Some(mut doc) => {
                        if same_text(qualifier, "137") {
                            doc.document_date = Some((*date).to_owned());
                        } else if same_text(qualifier, "2") {
                            doc.requested_delivery_date = Some((*date).to_owned());
                        }
                        self.current_doc = Some(doc);
                    },
                    None => {},
                }
                None
            },
            Segment::NAD(qualifier, id) => {
                match self.current_doc.take() {
                    Some(mut doc) => {
                        if same_text(qualifier, "BY") {
                            doc.buyer = Some((*id).to_owned());
                        } else if same_text(qualifier, "SU") {
                            doc.seller = Some((*id).to_owned());
                        }
                        self.current_doc = Some(doc);
                    },
                    None => {},
                }
                None
            },
            Segment::CNT(qualifier, value) => {
                match self.current_doc.take() {
                    Some(mut doc) => {
                        if same_text(qualifier, "2") {
                            doc.line_count_check = parse_u64(value);
                        }
                        self.current_doc = Some(doc);
                    },
                    None => {},
                }
                None
            },
            Segment::CUX(currency) => {
                match self.current_doc.take() {
                    Some(mut doc) => {
                        doc.currency = (*currency).to_owned();
                        self.current_doc = Some(doc);
                    },
                    None => {},
                }
                None
            },
        }
    }

    /// Takes one segment in, and returns the document to hand on: the one
    /// that the segment finishes, if `filter` keeps it. A document that is
    /// not kept is dropped.
    pub fn feed(&mut self, segment: &Segment, number: Option<u64>, filter: Option<&Expr>) -> (r:
        Option<StreamingDocument>)
        ensures
            final(self)@ == after(old(self)@, segment@, number),
            document_view(r) == emitted(old(self)@, segment@, filter_view(filter)),
    {
        match self.consume(segment, number) {
            Some(doc) => if keeps(filter, &doc) {
                Some(doc)
            } else {
                None
            },
            None => None,
        }
    }
}

} // verus!
