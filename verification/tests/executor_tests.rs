use filereduce::ast::{Expr, Query, SortOrder};
use filereduce::executor::{project, Executor};
use filereduce::reader::{MockReader, Reader};
use filereduce::row::{Row, RowKind, Value};

fn num(x: f64) -> Value {
    Value::Number(x.to_bits())
}

fn plain_query() -> Query {
    Query { select: vec![], filter: None, limit: None, order_by: None, aggregates: vec![] }
}

#[test]
fn test_limit_functionality() {
    let mut rows = Vec::new();
    for i in 1..=10 {
        let mut row = Row::new(RowKind::LIN);
        row.insert("sku", Value::Text(format!("ITEM{}", i)));
        row.insert("qty", num(i as f64));
        rows.push(row);
    }

    let query = Query {
        select: vec![],
        filter: None,
        limit: Some(5),
        order_by: None,
        aggregates: vec![],
    };

    let reader = MockReader::new(rows);
    let executor = Executor::new(reader, query);

    let results = executor.collect();

    assert_eq!(results.len(), 5, "LIMIT should return only 5 rows");
}

#[test]
fn test_select_projection() {
    let mut row = Row::new(RowKind::LIN);
    row.insert("sku", Value::Text("ITEM1".into()));
    row.insert("qty", num(10.0));
    row.insert("price", num(99.99));

    let query = Query {
        select: vec!["sku".to_string(), "qty".to_string()],
        filter: None,
        limit: None,
        order_by: None,
        aggregates: vec![],
    };

    let reader = MockReader::new(vec![row]);
    let mut executor = Executor::new(reader, query);

    let projected = executor.next().unwrap();

    assert!(projected.get("sku").is_some(), "sku should be in projection");
    assert!(projected.get("qty").is_some(), "qty should be in projection");
    assert!(projected.get("price").is_none(), "price should NOT be in projection");
}

#[test]
fn collect_projects_and_keeps_the_kind() {
    let mut row = Row::new(RowKind::NAD);
    row.insert("sku", Value::Text("ITEM1".into()));
    row.insert("qty", num(10.0));
    row.insert("price", num(99.99));
    let mut query = plain_query();
    query.select = vec!["sku".to_string(), "qty".to_string(), "absent".to_string()];
    let results = Executor::new(MockReader::new(vec![row]), query).collect();
    assert_eq!(results.len(), 1);
    assert_eq!(results[0].kind, RowKind::NAD);
    assert_eq!(results[0].get("sku"), Some(&Value::Text("ITEM1".to_string())));
    assert_eq!(results[0].get("qty"), Some(&num(10.0)));
    assert_eq!(results[0].get("price"), None);
    assert_eq!(results[0].get("absent"), None);
}

#[test]
fn an_empty_select_keeps_the_row_as_it_is() {
    let mut row = Row::new(RowKind::LIN);
    row.insert("price", num(99.99));
    let kept = project(&Vec::new(), row);
    assert_eq!(kept.get("price"), Some(&num(99.99)));
    assert_eq!(kept.kind, RowKind::LIN);
}

#[test]
fn rows_that_fail_the_filter_are_skipped() {
    let mut rows = Vec::new();
    for i in 1..=6 {
        let mut row = Row::new(RowKind::LIN);
        row.insert("qty", num(i as f64));
        rows.push(row);
    }
    let mut query = plain_query();
    query.filter = Some(Expr::Gte("qty".to_string(), num(4.0)));
    let mut executor = Executor::new(MockReader::new(rows), query);
    assert_eq!(executor.next().unwrap().get("qty"), Some(&num(4.0)));
    assert_eq!(executor.next().unwrap().get("qty"), Some(&num(5.0)));
    assert_eq!(executor.next().unwrap().get("qty"), Some(&num(6.0)));
    assert!(executor.next().is_none());
    assert!(executor.next().is_none());
}

#[test]
fn collect_takes_what_is_left_of_the_source() {
    let mut rows = Vec::new();
    for i in 1..=4 {
        let mut row = Row::new(RowKind::LIN);
        row.insert("qty", num(i as f64));
        rows.push(row);
    }
    let mut executor = Executor::new(MockReader::new(rows), plain_query());
    assert!(executor.next().is_some());
    let rest = executor.collect();
    assert_eq!(rest.len(), 3);
    assert_eq!(rest[0].get("qty"), Some(&num(2.0)));
}

#[test]
fn a_limit_beyond_the_rows_keeps_them_all_and_zero_keeps_none() {
    let mut rows = Vec::new();
    for i in 1..=3 {
        let mut row = Row::new(RowKind::LIN);
        row.insert("qty", num(i as f64));
        rows.push(row);
    }
    let mut query = plain_query();
    query.limit = Some(10);
    assert_eq!(Executor::new(MockReader::new(rows.clone()), query).collect().len(), 3);
    let mut query = plain_query();
    query.limit = Some(0);
    assert_eq!(Executor::new(MockReader::new(rows), query).collect().len(), 0);
}

#[test]
fn sorting_by_a_field_that_the_projection_drops_changes_nothing() {
    let mut rows = Vec::new();
    for (sku, qty) in [("B", 2.0), ("A", 3.0), ("C", 1.0)] {
        let mut row = Row::new(RowKind::LIN);
        row.insert("sku", Value::Text(sku.to_string()));
        row.insert("qty", num(qty));
        rows.push(row);
    }
    let query = Query {
        select: vec!["sku".to_string()],
        filter: None,
        limit: None,
        order_by: Some(("qty".to_string(), SortOrder::Asc)),
        aggregates: vec![],
    };
    let results = Executor::new(MockReader::new(rows), query).collect();
    let skus: Vec<&Value> = results.iter().map(|r| r.get("sku").unwrap()).collect();
    assert_eq!(
        skus,
        vec![
            &Value::Text("B".to_string()),
            &Value::Text("A".to_string()),
            &Value::Text("C".to_string())
        ]
    );
}

#[test]
fn a_list_source_gives_its_rows_in_order_and_then_ends() {
    let mut first = Row::new(RowKind::BGM);
    first.insert("n", num(1.0));
    let mut second = Row::new(RowKind::UNT);
    second.insert("n", num(2.0));
    let mut reader = MockReader::new(vec![first, second]);
    let a = reader.next().unwrap();
    assert_eq!(a.kind, RowKind::BGM);
    assert_eq!(a.get("n"), Some(&num(1.0)));
    let b = reader.next().unwrap();
    assert_eq!(b.kind, RowKind::UNT);
    assert!(reader.next().is_none());
    assert!(reader.next().is_none());
}
