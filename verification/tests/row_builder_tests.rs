use filereduce::row::{RowKind, Value};
use filereduce::row_builder::{join_elements, RawSegment, RowBuilder};

fn num(x: f64) -> Value {
    Value::Number(x.to_bits())
}

fn text(s: &str) -> Value {
    Value::Text(s.to_string())
}

fn raw(tag: &str, elements: &[&str]) -> RawSegment {
    RawSegment { tag: tag.to_string(), elements: elements.iter().map(|e| e.to_string()).collect() }
}

fn decode(text: &str) -> Option<u64> {
    text.parse::<f64>().ok().map(f64::to_bits)
}

fn consume(builder: &mut RowBuilder, segment: &RawSegment) {
    let number = segment.numeric_text().and_then(decode);
    builder.consume(segment, number);
}

#[test]
fn header_segments_become_rows_of_their_own() {
    let mut builder = RowBuilder::new();
    consume(&mut builder, &raw("BGM", &["220", "ORDER001", "9"]));
    consume(&mut builder, &raw("NAD", &["BY", "BUYER001"]));
    consume(&mut builder, &raw("UNH", &["1"]));
    let rows = builder.finish();
    assert_eq!(rows.len(), 2);
    assert_eq!(rows[0].kind, RowKind::BGM);
    assert_eq!(rows[0].get("raw"), Some(&text("220|ORDER001|9")));
    assert_eq!(rows[1].kind, RowKind::NAD);
    assert_eq!(rows[1].get("raw"), Some(&text("BY|BUYER001")));
}

#[test]
fn a_line_gathers_what_follows_it() {
    let mut builder = RowBuilder::new();
    consume(&mut builder, &raw("QTY", &["21", "99"]));
    consume(&mut builder, &raw("LIN", &["1", "SKU001"]));
    consume(&mut builder, &raw("QTY", &["21", "10"]));
    consume(&mut builder, &raw("MOA", &["203", "100.5"]));
    consume(&mut builder, &raw("PRI", &["AAA", "10.05"]));
    consume(&mut builder, &raw("BGM", &["220"]));
    consume(&mut builder, &raw("LIN", &["x"]));
    consume(&mut builder, &raw("QTY", &["21", "many"]));
    consume(&mut builder, &raw("QTY", &["21"]));
    consume(&mut builder, &raw("LIN", &[]));
    let rows = builder.finish();
    assert_eq!(rows.len(), 4);
    assert_eq!(rows[0].kind, RowKind::BGM);
    assert_eq!(rows[0].get("raw"), Some(&text("220")));
    assert_eq!(rows[1].kind, RowKind::LIN);
    assert_eq!(rows[1].get("line"), Some(&num(1.0)));
    assert_eq!(rows[1].get("item"), Some(&text("SKU001")));
    assert_eq!(rows[1].get("qty"), Some(&num(10.0)));
    assert_eq!(rows[1].get("amount"), Some(&num(100.5)));
    assert_eq!(rows[1].get("price"), Some(&num(10.05)));
    assert_eq!(rows[2].kind, RowKind::LIN);
    assert_eq!(rows[2].get("line"), None);
    assert_eq!(rows[2].get("item"), None);
    assert_eq!(rows[2].get("qty"), None);
    assert_eq!(rows[3].kind, RowKind::LIN);
    assert_eq!(rows[3].get("line"), None);
}

#[test]
fn no_segment_no_row() {
    assert!(RowBuilder::new().finish().is_empty());
}

#[test]
fn the_numeric_text_of_a_raw_segment() {
    assert_eq!(raw("LIN", &["1", "SKU"]).numeric_text(), Some("1"));
    assert_eq!(raw("LIN", &[]).numeric_text(), None);
    assert_eq!(raw("QTY", &["21", "10"]).numeric_text(), Some("10"));
    assert_eq!(raw("MOA", &["203", "7"]).numeric_text(), Some("7"));
    assert_eq!(raw("PRI", &["AAA", "8"]).numeric_text(), Some("8"));
    assert_eq!(raw("QTY", &["21"]).numeric_text(), None);
    assert_eq!(raw("BGM", &["220", "1"]).numeric_text(), None);
}

#[test]
fn elements_are_joined_with_bars() {
    let strings = |items: &[&str]| items.iter().map(|s| s.to_string()).collect::<Vec<String>>();
    assert_eq!(join_elements(&strings(&[])), "");
    assert_eq!(join_elements(&strings(&["a"])), "a");
    assert_eq!(join_elements(&strings(&["a", "b", "c"])), "a|b|c");
    assert_eq!(join_elements(&strings(&["", ""])), "|");
    assert_eq!(join_elements(&strings(&["", "x", ""])), "|x|");
}
