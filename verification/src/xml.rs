//! Flat records out of the events of an XML document.
//!
//! Every element named `record`, `item` or `row` is a record; every other
//! element that ends inside a record gives the record one field: the
//! element's name, and the text that was read since the element began.
use crate::text::same_text;
use vstd::prelude::*;

verus! {

/// A flat record. A name occurs in `fields` as often as an element of that
/// name ended in the record; the last entry of a name is the field's text.
#[derive(Debug, Clone, PartialEq, Eq)]
pub struct XmlRecord {
    pub fields: Vec<(String, String)>,
}

/// The texts that a list of entries binds, a later entry of a name taking
/// the place of an earlier one.
pub open spec fn bound_texts(entries: Seq<(String, String)>) -> Map<Seq<char>, Seq<char>>
    decreases entries.len(),
{
    if entries.len() == 0 {
        Map::empty()
    } else {
        bound_texts(entries.drop_last()).insert(entries.last().0@, entries.last().1@)
    }
}

impl View for XmlRecord {
    type V = Map<Seq<char>, Seq<char>>;

    open spec fn view(&self) -> Map<Seq<char>, Seq<char>> {
        bound_texts(self.fields@)
    }
}

/// What happens while an XML document is read.
#[derive(Debug, Clone, Copy, PartialEq, Eq)]
pub enum XmlEvent<'a> {
    /// An element with this name begins.
    Start(&'a str),
    /// This text was read.
    Text(&'a str),
    /// The element with this name ends.
    End(&'a str),
    /// Anything else.
    Other,
}

/// What an [`XmlEvent`] holds.
pub enum XmlEventView {
    Start(Seq<char>),
    Text(Seq<char>),
    End(Seq<char>),
    Other,
}

impl<'a> View for XmlEvent<'a> {
    type V = XmlEventView;

    open spec fn view(&self) -> XmlEventView {
        match self {
            XmlEvent::Start(name) => XmlEventView::Start(name@),
            XmlEvent::Text(text) => XmlEventView::Text(text@),
            XmlEvent::End(name) => XmlEventView::End(name@),
            XmlEvent::Other => XmlEventView::Other,
        }
    }
}

/// What is held while a document is read: the record that is open, the
/// element that was begun last, and the text read since it began.
#[derive(Debug)]
pub struct XmlFlattener {
    pub current_record: Option<XmlRecord>,
    pub current_tag: Option<String>,
    pub current_text: String,
}

/// What an [`XmlFlattener`] holds.
pub struct FlattenerView {
    pub record: Option<Map<Seq<char>, Seq<char>>>,
    pub tag: Option<Seq<char>>,
    pub text: Seq<char>,
}

impl View for XmlFlattener {
    type V = FlattenerView;

    open spec fn view(&self) -> FlattenerView {
        FlattenerView {
            record: match self.current_record {
                Some(record) => Some(record@),
                None => None,
            },
            tag: match self.current_tag {
                Some(tag) => Some(tag@),
                None => None,
            },
            text: self.current_text@,
        }
    }
}

/// Whether elements of this name are records.
pub open spec fn is_record_name(name: Seq<char>) -> bool {
    name == "record"@ || name == "item"@ || name == "row"@
}

/// The state after an event.
pub open spec fn after_event(state: FlattenerView, event: XmlEventView) -> FlattenerView {
    match event {
        XmlEventView::Start(name) => if is_record_name(name) {
            FlattenerView { record: Some(Map::empty()), ..state }
        } else {
            FlattenerView { tag: Some(name), text: Seq::empty(), ..state }
        },
        XmlEventView::Text(text) => if state.tag is Some {
            FlattenerView { text: state.text + text, ..state }
        } else {
            state
        },
        XmlEventView::End(name) => if is_record_name(name) {
            FlattenerView { record: None, ..state }
        } else if state.tag == Some(name) {
            match state.record {
                Some(record) => FlattenerView {
                    record: Some(record.insert(name, state.text)),
                    tag: None,
                    ..state
                },
                None => state,
            }
        } else {
            state
        },
        XmlEventView::Other => state,
    }
}

/// The record that an event finishes: the open one, when a record ends.
pub open spec fn finished_record(state: FlattenerView, event: XmlEventView) -> Option<
    Map<Seq<char>, Seq<char>>,
> {
    match event {
        XmlEventView::End(name) => if is_record_name(name) {
            state.record
        } else {
            None
        },
        _ => None,
    }
}

/// Tells whether elements of this name are records.
pub fn record_name(name: &str) -> (r: bool)
    ensures
        r == is_record_name(name@),
{
    same_text(name, "record") || same_text(name, "item") || same_text(name, "row")
}

impl XmlFlattener {
    /// A flattener that has seen no event.
    pub fn new() -> (r: Self)
        ensures
            r@ == (FlattenerView { record: None, tag: None, text: Seq::empty() }),
    {
        XmlFlattener { current_record: None, current_tag: None, current_text: String::new() }
    }

    /// Takes one event in, and returns the record that the event finishes.
    pub fn feed(&mut self, event: &XmlEvent) -> (r: Option<XmlRecord>)
        ensures
            final(self)@ == after_event(old(self)@, event@),
            match r {
                Some(record) => finished_record(old(self)@, event@) == Some(record@),
                None => finished_record(old(self)@, event@) is None,
            },
    {
        match event {
            XmlEvent::Start(name) => {
                if record_name(name) {
                    self.current_record = Some(XmlRecord { fields: Vec::new() });
                } else {
                    self.current_tag = Some((*name).to_owned());
                    self.current_text = String::new();
                }
                None
            },
            XmlEvent::Text(text) => {
                if self.current_tag.is_some() {
                    self.current_text.append(text);
                }
                None
            },
            XmlEvent::End(name) => {
                if record_name(name) {
                    self.current_record.take()
                } else {
                    let same = match &self.current_tag {
                        Some(tag) => same_text(tag.as_str(), name),
                        None => false,
                    };
                    if same {
                        match self.current_record.take() {
                            Some(mut record) => {
                                let ghost before = record.fields@;
                                match self.current_tag.take() {
                                    Some(tag) => {
                                        record.fields.push((tag, self.current_text.clone()));
                                        assert(record.fields@.drop_last() =~= before);
                                    },
                                    None => {},
                                }
                                self.current_record = Some(record);
                            },
                            None => {},
                        }
                    }
                    None
                }
            },
            XmlEvent::Other => None,
        }
    }
}

} // verus!
