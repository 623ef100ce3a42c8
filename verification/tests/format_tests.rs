use filereduce::format::{determine_format, unsupported_message, FileFormat};

#[test]
fn a_named_format_wins_over_the_extension() {
    assert_eq!(determine_format(Some("xml"), Some("json")), FileFormat::Json);
    assert_eq!(determine_format(Some("json"), Some("xml")), FileFormat::Xml);
    assert_eq!(determine_format(Some("xml"), Some("edifact")), FileFormat::Edifact);
    assert_eq!(determine_format(Some("xml"), Some("")), FileFormat::Edifact);
    assert_eq!(determine_format(None, Some("xml")), FileFormat::Xml);
}

#[test]
fn a_named_format_counts_whatever_its_case() {
    for name in ["xml", "XML", "Xml", "xMl"] {
        assert_eq!(determine_format(None, Some(name)), FileFormat::Xml);
        assert_eq!(name.to_lowercase(), "xml");
    }
    for name in ["json", "JSON", "Json", "jSoN"] {
        assert_eq!(determine_format(None, Some(name)), FileFormat::Json);
    }
    for name in ["jsonl", "xmls", "xm", " xml", "edi", "ｘml", "JSÖN"] {
        assert_eq!(determine_format(None, Some(name)), FileFormat::Edifact, "{:?}", name);
        assert!(name.to_lowercase() != "xml" && name.to_lowercase() != "json");
    }
}

#[test]
fn without_a_name_the_extension_decides_as_it_is_written() {
    assert_eq!(determine_format(Some("xml"), None), FileFormat::Xml);
    assert_eq!(determine_format(Some("json"), None), FileFormat::Json);
    assert_eq!(determine_format(Some("jsonl"), None), FileFormat::Json);
    assert_eq!(determine_format(Some("XML"), None), FileFormat::Edifact);
    assert_eq!(determine_format(Some("Json"), None), FileFormat::Edifact);
    assert_eq!(determine_format(Some("edi"), None), FileFormat::Edifact);
    assert_eq!(determine_format(Some(""), None), FileFormat::Edifact);
    assert_eq!(determine_format(None, None), FileFormat::Edifact);
}

#[test]
fn only_interchanges_are_handed_to_a_sink() {
    assert_eq!(unsupported_message(FileFormat::Edifact), None);
    assert_eq!(unsupported_message(FileFormat::Xml), Some("XML not yet supported with async Sink"));
    assert_eq!(unsupported_message(FileFormat::Json), Some("JSON not yet supported with async Sink"));
}
