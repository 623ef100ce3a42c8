use filereduce::segment::{parse_segment, tokenize_segment, try_parse_segment, MissingElement, Segment};

#[test]
fn a_line_is_cut_into_groups_and_elements() {
    assert_eq!(
        tokenize_segment("NAD+BY+BUYER001::9'"),
        vec![vec!["NAD"], vec!["BY"], vec!["BUYER001", "", "9"]]
    );
    assert_eq!(tokenize_segment("UNH"), vec![vec!["UNH"]]);
    assert_eq!(tokenize_segment(""), vec![vec![""]]);
    assert_eq!(tokenize_segment("'"), vec![vec![""]]);
    assert_eq!(tokenize_segment("+"), vec![vec![""], vec![""]]);
    assert_eq!(tokenize_segment(":"), vec![vec!["", ""]]);
    assert_eq!(tokenize_segment("A+:+B:'''"), vec![vec!["A"], vec!["", ""], vec!["B", ""]]);
    assert_eq!(tokenize_segment("'A'B'"), vec![vec!["'A'B"]]);
    assert_eq!(tokenize_segment("QTY+21:10:PCE"), vec![vec!["QTY"], vec!["21", "10", "PCE"]]);
    assert_eq!(tokenize_segment("ÑAD+é:ü'"), vec![vec!["ÑAD"], vec!["é", "ü"]]);
}

#[test]
fn every_tag_has_its_reading() {
    assert_eq!(
        try_parse_segment("UNB+UNOA:1+SENDER1:14+RECEIVER1:14+230101:1200+REF001'"),
        Ok(Segment::UNB("SENDER1", "RECEIVER1", "REF001"))
    );
    assert_eq!(try_parse_segment("UNH+1+ORDERS:D:96A:UN'"), Ok(Segment::UNH));
    assert_eq!(try_parse_segment("BGM+220+ORDER001+9'"), Ok(Segment::BGM("220", "ORDER001")));
    assert_eq!(try_parse_segment("DTM+137:20230101:102'"), Ok(Segment::DTM("137", "20230101")));
    assert_eq!(try_parse_segment("NAD+BY+BUYER001::9'"), Ok(Segment::NAD("BY", "BUYER001")));
    assert_eq!(try_parse_segment("LIN+1++SKU001:EN'"), Ok(Segment::LIN("1", "SKU001")));
    assert_eq!(try_parse_segment("QTY+21:10:PCE'"), Ok(Segment::QTY("21", "10", "PCE")));
    assert_eq!(try_parse_segment("QTY+21:10'"), Ok(Segment::QTY("21", "10", "")));
    assert_eq!(try_parse_segment("MOA+203:100.50'"), Ok(Segment::MOA("203", "100.50")));
    assert_eq!(try_parse_segment("CNT+2:3'"), Ok(Segment::CNT("2", "3")));
    assert_eq!(try_parse_segment("CUX+2:EUR:9'"), Ok(Segment::CUX("EUR")));
    assert_eq!(try_parse_segment("UNT+10+1'"), Ok(Segment::UNT));
    assert_eq!(try_parse_segment("UNZ+1+REF001'"), Ok(Segment::UNZ));
    assert_eq!(try_parse_segment("UNS+S'"), Ok(Segment::Unknown("UNS")));
    assert_eq!(try_parse_segment(""), Ok(Segment::Unknown("")));
    assert_eq!(try_parse_segment("unh"), Ok(Segment::Unknown("unh")));
    assert_eq!(try_parse_segment("UNH:x+1"), Ok(Segment::UNH));
}

#[test]
fn elements_that_can_be_done_without_are_read_as_empty() {
    assert_eq!(try_parse_segment("UNB"), Ok(Segment::UNB("", "", "")));
    assert_eq!(try_parse_segment("UNB+a+b+c"), Ok(Segment::UNB("b", "c", "")));
    assert_eq!(try_parse_segment("BGM"), Ok(Segment::BGM("", "")));
    assert_eq!(try_parse_segment("BGM+220"), Ok(Segment::BGM("220", "")));
    assert_eq!(try_parse_segment("DTM+137"), Ok(Segment::DTM("137", "")));
    assert_eq!(try_parse_segment("DTM+"), Ok(Segment::DTM("", "")));
    assert_eq!(try_parse_segment("NAD+BY"), Ok(Segment::NAD("BY", "")));
    assert_eq!(try_parse_segment("LIN"), Ok(Segment::LIN("", "")));
    assert_eq!(try_parse_segment("LIN+1"), Ok(Segment::LIN("1", "")));
    assert_eq!(try_parse_segment("CUX"), Ok(Segment::CUX("")));
    assert_eq!(try_parse_segment("CUX+2"), Ok(Segment::CUX("")));
    assert_eq!(try_parse_segment("QTY+:"), Ok(Segment::QTY("", "", "")));
}

#[test]
fn elements_that_cannot_be_done_without_are_missed() {
    let group = Err(MissingElement { group: 1, element: 0 });
    let element = Err(MissingElement { group: 1, element: 1 });
    assert_eq!(try_parse_segment("DTM"), group);
    assert_eq!(try_parse_segment("NAD'"), group);
    assert_eq!(try_parse_segment("QTY"), group);
    assert_eq!(try_parse_segment("MOA"), group);
    assert_eq!(try_parse_segment("CNT"), group);
    assert_eq!(try_parse_segment("QTY+21"), element);
    assert_eq!(try_parse_segment("MOA+203'"), element);
    assert_eq!(try_parse_segment("CNT+"), element);
}

#[test]
fn a_complete_line_is_read_without_more_ado() {
    assert_eq!(parse_segment("QTY+21:10:PCE'"), Segment::QTY("21", "10", "PCE"));
    assert_eq!(parse_segment("BGM+220+ORDER001+9'"), Segment::BGM("220", "ORDER001"));
    assert_eq!(parse_segment("XYZ+1"), Segment::Unknown("XYZ"));
}

#[test]
fn quantity_and_amount_have_a_text_to_read_as_a_number() {
    assert_eq!(Segment::QTY("21", "10", "PCE").numeric_text(), Some("10"));
    assert_eq!(Segment::MOA("203", "100.50").numeric_text(), Some("100.50"));
    assert_eq!(Segment::CNT("2", "3").numeric_text(), None);
    assert_eq!(Segment::LIN("1", "SKU").numeric_text(), None);
    assert_eq!(Segment::UNH.numeric_text(), None);
}
