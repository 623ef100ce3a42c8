use filereduce::aggregation::{
    count_present, execute_aggregates, greatest_of, least_of, numeric_values, plan_aggregates,
    AggregateResult,
};
use filereduce::ast::{Aggregate, Query};
use filereduce::executor::Executor;
use filereduce::reader::MockReader;
use filereduce::row::{Row, RowKind, Value};

fn num(x: f64) -> Value {
    Value::Number(x.to_bits())
}

fn bits(x: f64) -> u64 {
    x.to_bits()
}

fn total(values: Vec<u64>) -> u64 {
    values.iter().map(|b| f64::from_bits(*b)).sum::<f64>().to_bits()
}

fn mean(values: Vec<u64>) -> u64 {
    (values.iter().map(|b| f64::from_bits(*b)).sum::<f64>() / values.len() as f64).to_bits()
}

fn qty_rows(values: &[f64]) -> Vec<Row> {
    let mut rows = Vec::new();
    for v in values {
        let mut row = Row::new(RowKind::LIN);
        row.insert("qty", num(*v));
        rows.push(row);
    }
    rows
}

#[test]
fn test_count_aggregate() {
    let mut rows = Vec::new();
    for i in 1..=5 {
        let mut row = Row::new(RowKind::LIN);
        row.insert("qty", num(i as f64));
        rows.push(row);
    }

    let agg = Aggregate::Count("qty".to_string());
    let result = execute_aggregates(&rows, &[agg], total, mean);

    assert_eq!(result.count, Some(5));
}

#[test]
fn test_sum_aggregate() {
    let mut rows = Vec::new();
    for i in 1..=5 {
        let mut row = Row::new(RowKind::LIN);
        row.insert("qty", num(i as f64));
        rows.push(row);
    }

    let agg = Aggregate::Sum("qty".to_string());
    let result = execute_aggregates(&rows, &[agg], total, mean);

    assert_eq!(result.sum, Some(bits(15.0)));
}

#[test]
fn test_avg_aggregate() {
    let mut rows = Vec::new();
    for i in [10, 20, 30] {
        let mut row = Row::new(RowKind::LIN);
        row.insert("qty", num(i as f64));
        rows.push(row);
    }

    let agg = Aggregate::Avg("qty".to_string());
    let result = execute_aggregates(&rows, &[agg], total, mean);

    assert_eq!(result.avg, Some(bits(20.0)));
}

#[test]
fn test_min_max_aggregate() {
    let mut rows = Vec::new();
    for i in [10, 50, 30, 70, 20] {
        let mut row = Row::new(RowKind::LIN);
        row.insert("qty", num(i as f64));
        rows.push(row);
    }

    let aggs = vec![Aggregate::Min("qty".to_string()), Aggregate::Max("qty".to_string())];
    let result = execute_aggregates(&rows, &aggs, total, mean);

    assert_eq!(result.min, Some(bits(10.0)));
    assert_eq!(result.max, Some(bits(70.0)));
}

#[test]
fn test_count_aggregation() {
    let mut rows = Vec::new();
    for i in 1..=5 {
        let mut row = Row::new(RowKind::LIN);
        row.insert("qty", num(i as f64));
        rows.push(row);
    }

    let query = Query {
        select: vec![],
        filter: None,
        limit: None,
        order_by: None,
        aggregates: vec![Aggregate::Count("qty".to_string())],
    };

    let reader = MockReader::new(rows);
    let executor = Executor::new(reader, query);
    let result = executor.collect_with_aggregates(total, mean);

    assert_eq!(result.count, Some(5));
}

#[test]
fn test_sum_aggregation() {
    let mut rows = Vec::new();
    for i in 1..=5 {
        let mut row = Row::new(RowKind::LIN);
        row.insert("qty", num(i as f64));
        rows.push(row);
    }

    let query = Query {
        select: vec![],
        filter: None,
        limit: None,
        order_by: None,
        aggregates: vec![Aggregate::Sum("qty".to_string())],
    };

    let reader = MockReader::new(rows);
    let executor = Executor::new(reader, query);
    let result = executor.collect_with_aggregates(total, mean);

    assert_eq!(result.sum, Some(bits(15.0)));
}

#[test]
fn test_avg_aggregation() {
    let mut rows = Vec::new();
    for i in [10.0, 20.0, 30.0] {
        let mut row = Row::new(RowKind::LIN);
        row.insert("price", num(i));
        rows.push(row);
    }

    let query = Query {
        select: vec![],
        filter: None,
        limit: None,
        order_by: None,
        aggregates: vec![Aggregate::Avg("price".to_string())],
    };

    let reader = MockReader::new(rows);
    let executor = Executor::new(reader, query);
    let result = executor.collect_with_aggregates(total, mean);

    assert_eq!(result.avg, Some(bits(20.0)));
}

#[test]
fn test_min_max_aggregation() {
    let mut rows = Vec::new();
    for i in [10.0, 50.0, 30.0, 70.0, 20.0] {
        let mut row = Row::new(RowKind::LIN);
        row.insert("qty", num(i));
        rows.push(row);
    }

    let query = Query {
        select: vec![],
        filter: None,
        limit: None,
        order_by: None,
        aggregates: vec![Aggregate::Min("qty".to_string()), Aggregate::Max("qty".to_string())],
    };

    let reader = MockReader::new(rows);
    let executor = Executor::new(reader, query);
    let result = executor.collect_with_aggregates(total, mean);

    assert_eq!(result.min, Some(bits(10.0)));
    assert_eq!(result.max, Some(bits(70.0)));
}

#[test]
fn test_multiple_aggregations() {
    let mut rows = Vec::new();
    for i in 1..=5 {
        let mut row = Row::new(RowKind::LIN);
        row.insert("qty", num(i as f64));
        row.insert("price", num((i * 10) as f64));
        rows.push(row);
    }

    let query = Query {
        select: vec![],
        filter: None,
        limit: None,
        order_by: None,
        aggregates: vec![
            Aggregate::Count("qty".to_string()),
            Aggregate::Sum("qty".to_string()),
            Aggregate::Avg("price".to_string()),
        ],
    };

    let reader = MockReader::new(rows);
    let executor = Executor::new(reader, query);
    let result = executor.collect_with_aggregates(total, mean);

    assert_eq!(result.count, Some(5));
    assert_eq!(result.sum, Some(bits(15.0)));
    assert_eq!(result.avg, Some(bits(30.0)));
}

#[test]
fn count_star_counts_every_row_and_sets_nothing_else() {
    let mut rows = qty_rows(&[1.0, 2.0]);
    rows.push(Row::new(RowKind::BGM));
    let result = execute_aggregates(&rows, &[Aggregate::Count("*".to_string())], total, mean);
    assert_eq!(
        result,
        AggregateResult { count: Some(3), sum: None, avg: None, min: None, max: None }
    );
}

#[test]
fn count_star_of_no_rows_is_zero() {
    let rows: Vec<Row> = Vec::new();
    let result = execute_aggregates(&rows, &[Aggregate::Count("*".to_string())], total, mean);
    assert_eq!(result.count, Some(0));
}

#[test]
fn count_of_a_field_counts_rows_that_hold_it_whatever_they_hold() {
    let mut rows = qty_rows(&[1.0]);
    let mut text = Row::new(RowKind::LIN);
    text.insert("qty", Value::Text("many".to_string()));
    rows.push(text);
    rows.push(Row::new(RowKind::LIN));
    assert_eq!(count_present(&rows, "qty"), 2);
    let result = execute_aggregates(&rows, &[Aggregate::Count("qty".to_string())], total, mean);
    assert_eq!(result.count, Some(2));
}

#[test]
fn no_aggregate_leaves_everything_unset() {
    let rows = qty_rows(&[1.0, 2.0]);
    let result = execute_aggregates(&rows, &[], total, mean);
    assert_eq!(
        result,
        AggregateResult { count: None, sum: None, avg: None, min: None, max: None }
    );
}

#[test]
fn sum_and_avg_skip_rows_without_a_number() {
    let mut rows = qty_rows(&[4.0, 6.0]);
    let mut text = Row::new(RowKind::LIN);
    text.insert("qty", Value::Text("8".to_string()));
    rows.insert(1, text);
    rows.push(Row::new(RowKind::LIN));
    assert_eq!(numeric_values(&rows, "qty"), vec![bits(4.0), bits(6.0)]);
    let aggs = vec![Aggregate::Sum("qty".to_string()), Aggregate::Avg("qty".to_string())];
    let result = execute_aggregates(&rows, &aggs, total, mean);
    assert_eq!(result.sum, Some(bits(10.0)));
    assert_eq!(result.avg, Some(bits(5.0)));
    assert_eq!(result.count, None);
}

#[test]
fn sum_avg_min_max_of_nothing_are_unset_not_zero() {
    let mut rows = Vec::new();
    let mut text = Row::new(RowKind::LIN);
    text.insert("qty", Value::Text("8".to_string()));
    rows.push(text);
    rows.push(Row::new(RowKind::LIN));
    let aggs = vec![
        Aggregate::Sum("qty".to_string()),
        Aggregate::Avg("qty".to_string()),
        Aggregate::Min("qty".to_string()),
        Aggregate::Max("qty".to_string()),
    ];
    let result = execute_aggregates(&rows, &aggs, total, mean);
    assert_eq!(
        result,
        AggregateResult { count: None, sum: None, avg: None, min: None, max: None }
    );
}

#[test]
fn a_later_aggregate_of_a_kind_overwrites_an_earlier_one() {
    let mut rows = Vec::new();
    for (a, b) in [(1.0, 10.0), (2.0, 20.0)] {
        let mut row = Row::new(RowKind::LIN);
        row.insert("a", num(a));
        row.insert("b", num(b));
        rows.push(row);
    }
    let aggs = vec![
        Aggregate::Sum("a".to_string()),
        Aggregate::Sum("b".to_string()),
        Aggregate::Min("b".to_string()),
        Aggregate::Min("a".to_string()),
        Aggregate::Count("*".to_string()),
        Aggregate::Count("missing".to_string()),
    ];
    let result = execute_aggregates(&rows, &aggs, total, mean);
    assert_eq!(result.sum, Some(bits(30.0)));
    assert_eq!(result.min, Some(bits(1.0)));
    assert_eq!(result.count, Some(0));
}

#[test]
fn an_empty_sum_unsets_but_an_empty_avg_leaves_what_there_was() {
    let rows = qty_rows(&[2.0, 4.0]);
    let aggs = vec![
        Aggregate::Sum("qty".to_string()),
        Aggregate::Sum("missing".to_string()),
        Aggregate::Avg("qty".to_string()),
        Aggregate::Avg("missing".to_string()),
        Aggregate::Max("qty".to_string()),
        Aggregate::Max("missing".to_string()),
    ];
    let result = execute_aggregates(&rows, &aggs, total, mean);
    assert_eq!(result.sum, None);
    assert_eq!(result.avg, Some(bits(3.0)));
    assert_eq!(result.max, None);
}

#[test]
fn plan_holds_the_numbers_for_total_and_mean() {
    let rows = qty_rows(&[2.0, 4.0]);
    let aggs = vec![
        Aggregate::Sum("qty".to_string()),
        Aggregate::Avg("qty".to_string()),
        Aggregate::Count("*".to_string()),
        Aggregate::Min("qty".to_string()),
        Aggregate::Max("qty".to_string()),
    ];
    let plan = plan_aggregates(&rows, &aggs);
    assert_eq!(plan.count, Some(2));
    assert_eq!(plan.sum_of, Some(vec![bits(2.0), bits(4.0)]));
    assert_eq!(plan.avg_of, Some(vec![bits(2.0), bits(4.0)]));
    assert_eq!(plan.min, Some(bits(2.0)));
    assert_eq!(plan.max, Some(bits(4.0)));
}

#[test]
fn least_and_greatest_pass_over_nan() {
    let values = vec![bits(f64::NAN), bits(3.0), bits(f64::NAN), bits(-1.5), bits(7.0)];
    assert_eq!(least_of(&values), Some(bits(-1.5)));
    assert_eq!(greatest_of(&values), Some(bits(7.0)));
    assert_eq!(least_of(&Vec::new()), None);
    assert_eq!(greatest_of(&Vec::new()), None);
    let only_nan = vec![bits(f64::NAN)];
    assert!(f64::from_bits(least_of(&only_nan).unwrap()).is_nan());
}

#[test]
fn aggregates_see_only_rows_that_pass_the_filter() {
    let rows = qty_rows(&[1.0, 5.0, 9.0]);
    let query = Query {
        select: vec!["nothing".to_string()],
        filter: Some(filereduce::ast::Expr::Gt("qty".to_string(), num(2.0))),
        limit: Some(1),
        order_by: None,
        aggregates: vec![
            Aggregate::Count("*".to_string()),
            Aggregate::Sum("qty".to_string()),
        ],
    };
    let result = Executor::new(MockReader::new(rows), query).collect_with_aggregates(total, mean);
    assert_eq!(result.count, Some(2));
    assert_eq!(result.sum, Some(bits(14.0)));
}
