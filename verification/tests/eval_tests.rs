use filereduce::ast::Expr;
use filereduce::eval::{eval, like_outcome, like_regex, matches_like};
use filereduce::row::{Row, RowKind, Value};

fn num(x: f64) -> Value {
    Value::Number(x.to_bits())
}

fn text(s: &str) -> Value {
    Value::Text(s.to_string())
}

fn row_with(field: &str, value: Value) -> Row {
    let mut row = Row::new(RowKind::LIN);
    row.insert(field, value);
    row
}

#[test]
fn between_takes_both_bounds_in() {
    let between = Expr::Between("f".to_string(), num(1.0), num(10.0));
    assert!(eval(&between, &row_with("f", num(1.0))));
    assert!(eval(&between, &row_with("f", num(10.0))));
    assert!(eval(&between, &row_with("f", num(5.5))));
    assert!(!eval(&between, &row_with("f", num(0.999))));
    assert!(!eval(&between, &row_with("f", num(10.001))));
}

#[test]
fn between_holds_of_numbers_only() {
    let between = Expr::Between("f".to_string(), num(1.0), num(10.0));
    assert!(!eval(&between, &row_with("f", text("5"))));
    assert!(!eval(&between, &row_with("g", num(5.0))));
    assert!(!eval(&between, &row_with("f", num(f64::NAN))));
    let texts = Expr::Between("f".to_string(), text("a"), text("z"));
    assert!(!eval(&texts, &row_with("f", text("m"))));
    let mixed = Expr::Between("f".to_string(), num(1.0), text("z"));
    assert!(!eval(&mixed, &row_with("f", num(5.0))));
    let empty = Expr::Between("f".to_string(), num(10.0), num(1.0));
    assert!(!eval(&empty, &row_with("f", num(5.0))));
}

#[test]
fn like_with_a_trailing_percent_matches_what_begins_so() {
    let like = Expr::Like("sku".to_string(), "ABC%".to_string());
    assert!(eval(&like, &row_with("sku", text("ABC123"))));
    assert!(eval(&like, &row_with("sku", text("ABC"))));
    assert!(!eval(&like, &row_with("sku", text("XABC"))));
}

#[test]
fn like_holds_of_texts_only() {
    let like = Expr::Like("sku".to_string(), "%".to_string());
    assert!(eval(&like, &row_with("sku", text(""))));
    assert!(!eval(&like, &row_with("sku", num(1.0))));
    assert!(!eval(&like, &row_with("other", text("ABC"))));
}

#[test]
fn like_patterns() {
    assert!(matches_like("ABC", "A_C"));
    assert!(!matches_like("ABBC", "A_C"));
    assert!(!matches_like("AC", "A_C"));
    assert!(matches_like("anything at all", "%"));
    assert!(matches_like("", "%"));
    assert!(!matches_like("", "_"));
    assert!(matches_like("xABCy", "%ABC%"));
    assert!(matches_like("ABC", "ABC"));
    assert!(!matches_like("ABCD", "ABC"));
    assert!(!matches_like("abc", "ABC"));
    assert!(matches_like("", ""));
    assert!(!matches_like("a", ""));
    assert!(matches_like("ñandú", "ñ%ú"));
}

#[test]
fn like_reads_the_rest_of_its_pattern_as_a_regular_expression() {
    assert!(matches_like("abc", "a.c"));
    assert!(matches_like("aaa", "a+"));
    assert!(matches_like("b", "[abc]"));
    assert!(!matches_like("a.c", "a\\.d"));
}

#[test]
fn a_pattern_that_does_not_compile_matches_nothing() {
    assert!(!matches_like("(", "("));
    assert!(!matches_like("", "("));
    assert!(!matches_like("a", "[a"));
    let like = Expr::Like("sku".to_string(), "(".to_string());
    assert!(!eval(&like, &row_with("sku", text("("))));
}

#[test]
fn like_patterns_become_anchored_regular_expressions() {
    assert_eq!(like_regex("ABC%"), "^ABC.*$");
    assert_eq!(like_regex("A_C"), "^A.C$");
    assert_eq!(like_regex(""), "^$");
    assert_eq!(like_regex("%_%"), "^.*..*$");
    assert_eq!(like_regex("é_"), "^é.$");
}

#[test]
fn only_a_found_match_counts() {
    assert!(like_outcome(Some(true)));
    assert!(!like_outcome(Some(false)));
    assert!(!like_outcome(None));
}

#[test]
fn in_finds_a_cell_that_equals_a_listed_one() {
    let list = Expr::In("qty".to_string(), vec![num(1.0), num(2.0), num(3.0)]);
    assert!(eval(&list, &row_with("qty", num(1.0))));
    assert!(eval(&list, &row_with("qty", num(2.0))));
    assert!(eval(&list, &row_with("qty", num(3.0))));
    assert!(!eval(&list, &row_with("qty", num(4.0))));
    assert!(!eval(&list, &row_with("other", num(1.0))));
}

#[test]
fn a_text_is_never_in_a_list_of_numbers() {
    let list = Expr::In("qty".to_string(), vec![num(1.0), num(2.0), num(3.0)]);
    assert!(!eval(&list, &row_with("qty", text("1"))));
    assert!(!eval(&list, &row_with("qty", text("2.0"))));
    let texts = Expr::In("qty".to_string(), vec![text("1"), text("2")]);
    assert!(!eval(&texts, &row_with("qty", num(1.0))));
    assert!(eval(&texts, &row_with("qty", text("2"))));
    let none = Expr::In("qty".to_string(), vec![]);
    assert!(!eval(&none, &row_with("qty", num(1.0))));
}

#[test]
fn equality_is_by_kind_and_value() {
    assert!(eval(&Expr::Eq("f".to_string(), num(1.0)), &row_with("f", num(1.0))));
    assert!(!eval(&Expr::Eq("f".to_string(), num(1.0)), &row_with("f", num(2.0))));
    assert!(!eval(&Expr::Eq("f".to_string(), num(1.0)), &row_with("f", text("1"))));
    assert!(!eval(&Expr::Eq("f".to_string(), text("1")), &row_with("f", num(1.0))));
    assert!(eval(&Expr::Eq("f".to_string(), text("x")), &row_with("f", text("x"))));
    assert!(!eval(&Expr::Eq("f".to_string(), text("x")), &row_with("f", text("X"))));
    assert!(!eval(&Expr::Eq("f".to_string(), num(1.0)), &row_with("g", num(1.0))));
    assert!(eval(&Expr::Eq("f".to_string(), num(0.0)), &row_with("f", num(-0.0))));
    assert!(!eval(&Expr::Eq("f".to_string(), num(f64::NAN)), &row_with("f", num(f64::NAN))));
    assert!(!eval(&Expr::Eq("f".to_string(), text("")), &Row::new(RowKind::LIN)));
}

#[test]
fn order_comparisons_hold_between_numbers_only() {
    let row = row_with("q", num(5.0));
    assert!(eval(&Expr::Gt("q".to_string(), num(4.0)), &row));
    assert!(!eval(&Expr::Gt("q".to_string(), num(5.0)), &row));
    assert!(eval(&Expr::Gte("q".to_string(), num(5.0)), &row));
    assert!(!eval(&Expr::Gte("q".to_string(), num(5.5)), &row));
    assert!(eval(&Expr::Lt("q".to_string(), num(6.0)), &row));
    assert!(!eval(&Expr::Lt("q".to_string(), num(5.0)), &row));
    assert!(eval(&Expr::Lte("q".to_string(), num(5.0)), &row));
    assert!(!eval(&Expr::Lte("q".to_string(), num(4.0)), &row));
    assert!(eval(&Expr::Gt("q".to_string(), num(-7.0)), &row));
    assert!(!eval(&Expr::Gt("q".to_string(), text("4")), &row));
    assert!(!eval(&Expr::Lt("q".to_string(), text("6")), &row));
    let texts = row_with("q", text("5"));
    assert!(!eval(&Expr::Gt("q".to_string(), num(4.0)), &texts));
    assert!(!eval(&Expr::Lte("q".to_string(), num(6.0)), &texts));
    assert!(!eval(&Expr::Gte("q".to_string(), text("5")), &texts));
    assert!(!eval(&Expr::Gt("missing".to_string(), num(4.0)), &row));
    assert!(!eval(&Expr::Lt("missing".to_string(), num(4.0)), &row));
    assert!(!eval(&Expr::Gte("q".to_string(), num(f64::NAN)), &row));
    assert!(!eval(&Expr::Lte("q".to_string(), num(f64::NAN)), &row));
}

#[test]
fn kind_is_compared_with_the_rows_kind() {
    let row = Row::new(RowKind::LIN);
    assert!(eval(&Expr::KindEq(RowKind::LIN), &row));
    assert!(!eval(&Expr::KindEq(RowKind::BGM), &row));
}

#[test]
fn and_or_not_combine() {
    let row = row_with("q", num(5.0));
    let yes = || Box::new(Expr::Gt("q".to_string(), num(1.0)));
    let no = || Box::new(Expr::Lt("q".to_string(), num(1.0)));
    assert!(eval(&Expr::And(yes(), yes()), &row));
    assert!(!eval(&Expr::And(yes(), no()), &row));
    assert!(!eval(&Expr::And(no(), yes()), &row));
    assert!(eval(&Expr::Or(no(), yes()), &row));
    assert!(eval(&Expr::Or(yes(), no()), &row));
    assert!(!eval(&Expr::Or(no(), no()), &row));
    assert!(eval(&Expr::Not(no()), &row));
    assert!(!eval(&Expr::Not(yes()), &row));
}

#[test]
fn a_later_cell_takes_the_place_of_an_earlier_one() {
    let mut row = Row::new(RowKind::LIN);
    assert_eq!(row.get("q"), None);
    row.insert("q", num(1.0));
    row.insert("r", text("x"));
    row.insert("q", text("now a text"));
    assert_eq!(row.get("q"), Some(&text("now a text")));
    assert_eq!(row.get("r"), Some(&text("x")));
    assert_eq!(row.get(""), None);
    assert_eq!(row.fields.len(), 2);
    row.fields.push(("r".to_string(), num(7.0)));
    assert_eq!(row.get("r"), Some(&num(7.0)));
    row.insert("r", num(8.0));
    assert_eq!(row.get("r"), Some(&num(8.0)));
    assert_eq!(row.fields.len(), 3);
    let copy = row.clone();
    assert_eq!(copy.get("q"), Some(&text("now a text")));
    assert_eq!(copy.kind, RowKind::LIN);
}

#[test]
fn cells_are_equal_by_kind_and_value() {
    assert_eq!(num(1.0), num(1.0));
    assert_eq!(num(0.0), num(-0.0));
    assert_ne!(num(f64::NAN), num(f64::NAN));
    assert_ne!(num(1.0), text("1"));
    assert_eq!(text("a"), text("a"));
    assert_ne!(text("a"), text("b"));
    assert_eq!(text("a").clone(), text("a"));
}
