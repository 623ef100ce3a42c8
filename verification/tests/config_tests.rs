use filereduce::config::{default_batch_size, IngestSection};
use filereduce::model::{Document, Line};

#[test]
fn batch_size_defaults_to_a_thousand() {
    assert_eq!(default_batch_size(), 1000);
}

#[test]
fn statement_names_procedure_and_parameter() {
    let section = IngestSection {
        connection_string: "server=tcp:localhost,1433".to_string(),
        procedure_name: "dbo.ingest_documents".to_string(),
        json_param: "@json".to_string(),
        batch_size: 2,
    };
    assert_eq!(section.statement(), "EXEC dbo.ingest_documents @json = @P1");
    assert!(!section.batch_is_full(1));
    assert!(section.batch_is_full(2));
    assert!(section.batch_is_full(3));
}

#[test]
fn a_plain_document_starts_empty() {
    let doc = Document::default();
    assert_eq!(doc.doc_type, "");
    assert_eq!(doc.number, "");
    assert_eq!(doc.date, None);
    assert_eq!(doc.buyer, None);
    assert_eq!(doc.seller, None);
    assert!(doc.lines.is_empty());
    assert_eq!(doc.total, None);
    assert_eq!(Line::default(), Line { sku: String::new(), qty: None, amount: None });
}
