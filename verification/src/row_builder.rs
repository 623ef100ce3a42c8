//! Rows built straight from raw segments, one row for each header segment
//! and one for each line with what follows it.
use crate::row::{rows_view, Row, RowKind, RowView, Value, ValueView};
use crate::text::{same_text, strings_view};
use vstd::prelude::*;

verus! {

/// A segment as a tag and the elements that follow it.
#[derive(Debug, Clone, PartialEq, Eq)]
pub struct RawSegment {
    pub tag: String,
    pub elements: Vec<String>,
}

/// What a [`RawSegment`] holds.
pub struct RawSegmentView {
    pub tag: Seq<char>,
    pub elements: Seq<Seq<char>>,
}

impl View for RawSegment {
    type V = RawSegmentView;

    open spec fn view(&self) -> RawSegmentView {
        RawSegmentView { tag: self.tag@, elements: strings_view(self.elements@) }
    }
}

/// The rows built so far, and the line that is still open.
#[derive(Debug)]
pub struct RowBuilder {
    current: Option<Row>,
    rows: Vec<Row>,
}

/// What a [`RowBuilder`] holds.
pub struct RowBuilderView {
    pub current: Option<RowView>,
    pub rows: Seq<RowView>,
}

impl View for RowBuilder {
    type V = RowBuilderView;

    closed spec fn view(&self) -> RowBuilderView {
        RowBuilderView {
            current: match self.current {
                Some(row) => Some(row@),
                None => None,
            },
            rows: rows_view(self.rows@),
        }
    }
}

/// The elements in a row, a `|` between each two.
pub open spec fn joined(elements: Seq<Seq<char>>) -> Seq<char>
    decreases elements.len(),
{
    if elements.len() == 0 {
        Seq::empty()
    } else if elements.len() == 1 {
        elements[0]
    } else {
        joined(elements.drop_last()) + seq!['|'] + elements.last()
    }
}

/// The element of a segment that is to be read as a number: the first of a
/// line, the second of a quantity, an amount or a price.
pub open spec fn raw_numeric_text(segment: RawSegmentView) -> Option<Seq<char>> {
    if segment.tag == "LIN"@ {
        if segment.elements.len() > 0 {
            Some(segment.elements[0])
        } else {
            None
        }
    } else if segment.tag == "QTY"@ || segment.tag == "MOA"@ || segment.tag == "PRI"@ {
        if segment.elements.len() > 1 {
            Some(segment.elements[1])
        } else {
            None
        }
    } else {
        None
    }
}

/// The row of a header segment: its elements, joined, under `raw`.
pub open spec fn simple_row(kind: RowKind, segment: RawSegmentView) -> RowView {
    RowView {
        kind,
        fields: Map::<Seq<char>, ValueView>::empty().insert(
            "raw"@,
            ValueView::Text(joined(segment.elements)),
        ),
    }
}

/// The row that a line segment opens: its number under `line`, if it was
/// read as one, and its second element under `item`, if it has one.
pub open spec fn line_start(segment: RawSegmentView, number: Option<u64>) -> RowView {
    let blank = Map::<Seq<char>, ValueView>::empty();
    let numbered = match number {
        Some(n) => if segment.elements.len() > 0 {
            blank.insert("line"@, ValueView::Number(n))
        } else {
            blank
        },
        None => blank,
    };
    RowView {
        kind: RowKind::LIN,
        fields: if segment.elements.len() > 1 {
            numbered.insert("item"@, ValueView::Text(segment.elements[1]))
        } else {
            numbered
        },
    }
}

/// The name under which a segment's number goes into the open line.
pub open spec fn enriched_field(tag: Seq<char>) -> Option<Seq<char>> {
    if tag == "QTY"@ {
        Some("qty"@)
    } else if tag == "MOA"@ {
        Some("amount"@)
    } else if tag == "PRI"@ {
        Some("price"@)
    } else {
        None
    }
}

/// The rows once the open line is closed.
pub open spec fn closed_rows(state: RowBuilderView) -> Seq<RowView> {
    match state.current {
        Some(row) => state.rows.push(row),
        None => state.rows,
    }
}

/// The state after a segment. `number` is the segment's numeric text read
/// as a number, `None` where it has none or the text is no number.
pub open spec fn consumed(
    state: RowBuilderView,
    segment: RawSegmentView,
    number: Option<u64>,
) -> RowBuilderView {
    if segment.tag == "BGM"@ {
        RowBuilderView { rows: state.rows.push(simple_row(RowKind::BGM, segment)), ..state }
    } else if segment.tag == "NAD"@ {
        RowBuilderView { rows: state.rows.push(simple_row(RowKind::NAD, segment)), ..state }
    } else if segment.tag == "LIN"@ {
        RowBuilderView { current: Some(line_start(segment, number)), rows: closed_rows(state) }
    } else {
        match (enriched_field(segment.tag), state.current, number) {
            (Some(name), Some(row), Some(n)) => if segment.elements.len() > 1 {
                RowBuilderView {
                    current: Some(
                        RowView {
                            kind: row.kind,
                            fields: row.fields.insert(name, ValueView::Number(n)),
                        },
                    ),
                    ..state
                }
            } else {
                state
            },
            _ => state,
        }
    }
}

/// The tags and names that the builder knows are what they read.
proof fn builder_tags_are_spelled()
    ensures
        "BGM"@ == seq!['B', 'G', 'M'],
        "NAD"@ == seq!['N', 'A', 'D'],
        "LIN"@ == seq!['L', 'I', 'N'],
        "QTY"@ == seq!['Q', 'T', 'Y'],
        "MOA"@ == seq!['M', 'O', 'A'],
        "PRI"@ == seq!['P', 'R', 'I'],
{
    reveal_strlit("BGM");
    reveal_strlit("NAD");
    reveal_strlit("LIN");
    reveal_strlit("QTY");
    reveal_strlit("MOA");
    reveal_strlit("PRI");
    assert("BGM"@ =~= seq!['B', 'G', 'M']);
    assert("NAD"@ =~= seq!['N', 'A', 'D']);
    assert("LIN"@ =~= seq!['L', 'I', 'N']);
    assert("QTY"@ =~= seq!['Q', 'T', 'Y']);
    assert("MOA"@ =~= seq!['M', 'O', 'A']);
    assert("PRI"@ =~= seq!['P', 'R', 'I']);
}

/// The elements in a row, a `|` between each two.
pub fn join_elements(elements: &Vec<String>) -> (r: String)
    ensures
        r@ == joined(strings_view(elements@)),
{
    let mut out = String::new();
    let mut i: usize = 0;
    let ghost all = strings_view(elements@);
    proof {
        assert(all.take(0) =~= Seq::<Seq<char>>::empty());
    }
    while i < elements.len()
        invariant
            i <= elements.len(),
            all == strings_view(elements@),
            out@ == joined(all.take(i as int)),
        decreases elements.len() - i,
    {
        let ghost before = out@;
        if i > 0 {
            out.append("|");
        }
        out.append(elements[i].as_str());
        proof {
            reveal_strlit("|");
            let upto = all.take(i + 1);
            assert(upto.drop_last() =~= all.take(i as int));
            assert(upto.last() == elements@[i as int]@);
            if i > 0 {
                assert("|"@ =~= seq!['|']);
                assert(out@ =~= before + seq!['|'] + upto.last());
            } else {
                assert(before =~= Seq::<char>::empty());
                assert(out@ =~= upto[0]);
            }
        }
        i += 1;
    }
    proof {
        assert(all.take(i as int) =~= all);
    }
    out
}

impl RawSegment {
    /// The element of this segment that is to be read as a number, if it
    /// has one.
    pub fn numeric_text(&self) -> (r: Option<&str>)
        ensures
            match r {
                Some(text) => raw_numeric_text(self@) == Some(text@),
                None => raw_numeric_text(self@) is None,
            },
    {
        proof {
            builder_tags_are_spelled();
        }
        let tag = self.tag.as_str();
        if same_text(tag, "LIN") {
            if self.elements.len() > 0 {
                Some(self.elements[0].as_str())
            } else {
                None
            }
        } else if same_text(tag, "QTY") || same_text(tag, "MOA") || same_text(tag, "PRI") {
            if self.elements.len() > 1 {
                Some(self.elements[1].as_str())
            } else {
                None
            }
        } else {
            None
        }
    }
}

impl RowBuilder {
    /// A builder without rows.
    pub fn new() -> (r: Self)
        ensures
            r@.current is None,
            r@.rows == Seq::<RowView>::empty(),
    {
        let rows: Vec<Row> = Vec::new();
        assert(rows_view(rows@) =~= Seq::<RowView>::empty());
        RowBuilder { current: None, rows }
    }

    /// Closes the open line: it becomes the last row.
    fn close_line(&mut self)
        ensures
            final(self)@.current is None,
            final(self)@.rows == closed_rows(old(self)@),
    {
        let ghost before = rows_view(self.rows@);
        match self.current.take() {
            Some(row) => {
                self.rows.push(row);
                assert(rows_view(self.rows@) =~= before.push(row@));
            },
            None => {},
        }
    }

    /// The row of a header segment becomes the last row.
    fn emit_simple(&mut self, kind: RowKind, seg: &RawSegment)
        ensures
            final(self)@ == (RowBuilderView {
                rows: old(self)@.rows.push(simple_row(kind, seg@)),
                ..old(self)@
            }),
    {
        let ghost before = rows_view(self.rows@);
        let mut row = Row::new(kind);
        row.insert("raw", Value::Text(join_elements(&seg.elements)));
        self.rows.push(row);
        assert(rows_view(self.rows@) =~= before.push(row@));
    }

    /// Closes the open line and opens a new one.
    fn start_lin(&mut self, seg: &RawSegment, number: Option<u64>)
        ensures
            final(self)@ == (RowBuilderView {
                current: Some(line_start(seg@, number)),
                rows: closed_rows(old(self)@),
            }),
    {
        self.close_line();
        let mut row = Row::new(RowKind::LIN);
        if seg.elements.len() > 0 {
            match number {
                Some(n) => {
                    row.insert("line", Value::Number(n));
                },
                None => {},
            }
        }
        if seg.elements.len() > 1 {
            row.insert("item", Value::Text(seg.elements[1].clone()));
        }
        self.current = Some(row);
    }

    /// Puts the number of a quantity, an amount or a price into the open
    /// line.
    fn enrich_lin(&mut self, seg: &RawSegment, number: Option<u64>)
        requires
            enriched_field(seg@.tag) is Some,
        ensures
            final(self)@ == consumed(old(self)@, seg@, number),
    {
        proof {
            builder_tags_are_spelled();
        }
        let value = match number {
            Some(n) => n,
            None => {
                return ;
            },
        };
        if seg.elements.len() < 2 {
            return ;
        }
        match self.current.take() {
            Some(mut row) => {
                let tag = seg.tag.as_str();
                if same_text(tag, "QTY") {
                    row.insert("qty", Value::Number(value));
                } else if same_text(tag, "MOA") {
                    row.insert("amount", Value::Number(value));
                } else {
                    row.insert("price", Value::Number(value));
                }
                self.current = Some(row);
            },
            None => {},
        }
    }

    /// Takes one segment in. `number` is the segment's numeric text read
    /// as a number: `None` where the segment has no such text or the text
    /// is no number.
    pub fn consume(&mut self, seg: &RawSegment, number: Option<u64>)
        ensures
            final(self)@ == consumed(old(self)@, seg@, number),
    {
        proof {
            builder_tags_are_spelled();
        }
        let tag = seg.tag.as_str();
        if same_text(tag, "BGM") {
            self.emit_simple(RowKind::BGM, seg);
        } else if same_text(tag, "NAD") {
            self.emit_simple(RowKind::NAD, seg);
        } else if same_text(tag, "LIN") {
            self.start_lin(seg, number);
        } else if same_text(tag, "QTY") || same_text(tag, "MOA") || same_text(tag, "PRI") {
            self.enrich_lin(seg, number);
        }
    }

    /// The rows, the open line last.
    pub fn finish(self) -> (r: Vec<Row>)
        ensures
            rows_view(r@) == closed_rows(self@),
    {
        let mut this = self;
        this.close_line();
        this.rows
    }
}

} // verus!
