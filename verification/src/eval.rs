//! Evaluation of a condition on a row.
use crate::ast::{values_view, Expr, ExprView};
use crate::number::{less, less_or_equal, num_le, num_lt};
use crate::row::{value_eq, Row, RowView, Value, ValueView};
use crate::text::chars_of;
use vstd::prelude::*;

verus! {

/// What one character of a `LIKE` pattern becomes in a regular expression:
/// `%` stands for any run of characters, `_` for any one character, and every
/// other character for itself, as the regular-expression syntax reads it.
pub open spec fn like_piece(c: char) -> Seq<char> {
    if c == '%' {
        seq!['.', '*']
    } else if c == '_' {
        seq!['.']
    } else {
        seq![c]
    }
}

/// The pieces of all characters of a pattern, in order.
pub open spec fn like_body(pattern: Seq<char>) -> Seq<char>
    decreases pattern.len(),
{
    if pattern.len() == 0 {
        Seq::empty()
    } else {
        like_body(pattern.drop_last()) + like_piece(pattern.last())
    }
}

/// The regular expression of a `LIKE` pattern, anchored at both ends.
pub open spec fn like_source(pattern: Seq<char>) -> Seq<char> {
    seq!['^'] + like_body(pattern) + seq!['$']
}

/// What the `regex` crate answers when `source` is compiled and the compiled
/// expression is asked for a match in `haystack`: `None` where `source` does
/// not compile, else whether there is a match.
pub uninterp spec fn regex_search(source: Seq<char>, haystack: Seq<char>) -> Option<bool>;

/// What a search means to `LIKE`: only a match that was found counts.
pub open spec fn like_verdict(found: Option<bool>) -> bool {
    found == Some(true)
}

/// Whether `text` is like `pattern`.
pub open spec fn like_holds(pattern: Seq<char>, text: Seq<char>) -> bool {
    like_verdict(regex_search(like_source(pattern), text))
}

/// Whether `expr` holds of `row`. A field that the row lacks satisfies no
/// comparison; an order comparison holds only between two numbers.
pub open spec fn holds(expr: ExprView, row: RowView) -> bool
    decreases expr,
{
    match expr {
        ExprView::Eq(f, v) => row.fields.contains_key(f) && value_eq(row.fields[f], v),
        ExprView::Gt(f, v) => row.fields.contains_key(f) && match (row.fields[f], v) {
            (ValueView::Number(x), ValueView::Number(n)) => num_lt(n, x),
            _ => false,
        },
        ExprView::Lt(f, v) => row.fields.contains_key(f) && match (row.fields[f], v) {
            (ValueView::Number(x), ValueView::Number(n)) => num_lt(x, n),
            _ => false,
        },
        ExprView::Gte(f, v) => row.fields.contains_key(f) && match (row.fields[f], v) {
            (ValueView::Number(x), ValueView::Number(n)) => num_le(n, x),
            _ => false,
        },
        ExprView::Lte(f, v) => row.fields.contains_key(f) && match (row.fields[f], v) {
            (ValueView::Number(x), ValueView::Number(n)) => num_le(x, n),
            _ => false,
        },
        ExprView::Like(f, p) => row.fields.contains_key(f) && match row.fields[f] {
            ValueView::Text(t) => like_holds(p, t),
            _ => false,
        },
        ExprView::In(f, vs) => row.fields.contains_key(f) && exists|i: int|
            0 <= i < vs.len() && value_eq(#[trigger] vs[i], row.fields[f]),
        ExprView::Between(f, lo, hi) => row.fields.contains_key(f) && match (
            row.fields[f],
            lo,
            hi,
        ) {
            (ValueView::Number(x), ValueView::Number(s), ValueView::Number(e)) => num_le(s, x)
                && num_le(x, e),
            _ => false,
        },
        ExprView::KindEq(k) => row.kind == k,
        ExprView::And(l, r) => holds(*l, row) && holds(*r, row),
        ExprView::Or(l, r) => holds(*l, row) || holds(*r, row),
        ExprView::Not(e) => !holds(*e, row),
    }
}

/// `Between` takes both of its bounds in: a row whose field is a number
/// satisfies it exactly when the number is neither below the lower bound nor
/// above the upper one, so the bounds themselves satisfy it wherever the
/// lower one is not above the upper one.
pub proof fn between_is_inclusive(field: Seq<char>, lo: u64, hi: u64, x: u64, row: RowView)
    requires
        row.fields.contains_key(field),
        row.fields[field] == ValueView::Number(x),
    ensures
        holds(ExprView::Between(field, ValueView::Number(lo), ValueView::Number(hi)), row) <==> (
        num_le(lo, x) && num_le(x, hi)),
        num_le(lo, hi) && (x == lo || x == hi) ==> holds(
            ExprView::Between(field, ValueView::Number(lo), ValueView::Number(hi)),
            row,
        ),
{
}

/// `In` holds of a row exactly when the row has the field and one of the
/// listed cells equals it; so a text is never found in a list of numbers.
pub proof fn in_is_membership(field: Seq<char>, values: Seq<ValueView>, row: RowView)
    ensures
        holds(ExprView::In(field, values), row) <==> (row.fields.contains_key(field) && exists|
            i: int,
        |
            0 <= i < values.len() && value_eq(#[trigger] values[i], row.fields[field])),
        row.fields.contains_key(field) && row.fields[field] is Text && (forall|i: int|
            0 <= i < values.len() ==> #[trigger] values[i] is Number) ==> !holds(
            ExprView::In(field, values),
            row,
        ),
{
}

/// Compiles `source` with `regex::Regex::new` and asks the compiled
/// expression, with `Regex::is_match`, whether `haystack` holds a match.
/// Neither is verified here. Both depend on their arguments alone (in one
/// build of the crate: the bound that it sets on the size of a compiled
/// expression is counted in bytes); the contract gives the answer its name
/// and claims nothing else of it.
#[verifier::external_body]
fn regex_is_match(source: &str, haystack: &str) -> (r: Option<bool>)
    ensures
        r == regex_search(source@, haystack@),
{
    match regex::Regex::new(source) {
        Ok(re) => Some(re.is_match(haystack)),
        Err(_) => None,
    }
}

/// The regular expression that a `LIKE` pattern stands for.
pub fn like_regex(pattern: &str) -> (r: String)
    ensures
        r@ == like_source(pattern@),
{
    let chars = chars_of(pattern);
    let mut out = String::new();
    out.append("^");
    proof {
        reveal_strlit("^");
        assert(out@ =~= seq!['^']);
        assert(pattern@.subrange(0, 0) =~= Seq::<char>::empty());
    }
    let mut i: usize = 0;
    while i < chars.len()
        invariant
            chars@ == pattern@,
            i <= chars.len(),
            out@ == seq!['^'] + like_body(pattern@.subrange(0, i as int)),
        decreases chars.len() - i,
    {
        let c = chars[i];
        let ghost before = out@;
        if c == '%' {
            out.append(".*");
            proof {
                reveal_strlit(".*");
                assert(".*"@ =~= like_piece(c));
            }
        } else if c == '_' {
            out.append(".");
            proof {
                reveal_strlit(".");
                assert("."@ =~= like_piece(c));
            }
        } else {
            out.append(pattern.substring_char(i, i + 1));
            assert(pattern@.subrange(i as int, i + 1) =~= like_piece(c));
        }
        proof {
            let upto = pattern@.subrange(0, i + 1);
            assert(upto.drop_last() =~= pattern@.subrange(0, i as int));
            assert(upto.last() == c);
            assert(out@ =~= seq!['^'] + like_body(upto));
        }
        i += 1;
    }
    out.append("$");
    proof {
        reveal_strlit("$");
        assert(pattern@.subrange(0, i as int) =~= pattern@);
        assert(out@ =~= like_source(pattern@));
    }
    out
}

/// The answer of `LIKE` to the outcome of a search.
pub fn like_outcome(found: Option<bool>) -> (r: bool)
    ensures
        r == like_verdict(found),
{
    match found {
        Some(hit) => hit,
        None => false,
    }
}

/// Whether `text` is like `pattern`: whether the pattern's regular
/// expression compiles and matches `text` from end to end.
pub fn matches_like(text: &str, pattern: &str) -> (r: bool)
    ensures
        r == like_holds(pattern@, text@),
{
    let source = like_regex(pattern);
    like_outcome(regex_is_match(source.as_str(), text))
}

/// Whether one of `values` equals `cell`.
fn contains_value(values: &Vec<Value>, cell: &Value) -> (r: bool)
    ensures
        r == exists|i: int| 0 <= i < values.len() && value_eq(#[trigger] values@[i]@, cell@),
{
    let mut i: usize = 0;
    while i < values.len()
        invariant
            i <= values.len(),
            forall|j: int| 0 <= j < i ==> !value_eq(#[trigger] values@[j]@, cell@),
        decreases values.len() - i,
    {
        if values[i] == *cell {
            return true;
        }
        i += 1;
    }
    false
}

/// Evaluates `expr` on `row`.
pub fn eval(expr: &Expr, row: &Row) -> (r: bool)
    ensures
        r == holds(expr@, row@),
    decreases expr,
{
    match expr {
        Expr::Eq(field, value) => match row.get(field.as_str()) {
            Some(cell) => *cell == *value,
            None => false,
        },
        Expr::Gt(field, value) => match (row.get(field.as_str()), value) {
            (Some(Value::Number(x)), Value::Number(n)) => less(*n, *x),
            _ => false,
        },
        Expr::Lt(field, value) => match (row.get(field.as_str()), value) {
            (Some(Value::Number(x)), Value::Number(n)) => less(*x, *n),
            _ => false,
        },
        Expr::Gte(field, value) => match (row.get(field.as_str()), value) {
            (Some(Value::Number(x)), Value::Number(n)) => less_or_equal(*n, *x),
            _ => false,
        },
        Expr::Lte(field, value) => match (row.get(field.as_str()), value) {
            (Some(Value::Number(x)), Value::Number(n)) => less_or_equal(*x, *n),
            _ => false,
        },
        Expr::Like(field, pattern) => match row.get(field.as_str()) {
            Some(Value::Text(text)) => matches_like(text.as_str(), pattern.as_str()),
            _ => false,
        },
        Expr::In(field, values) => match row.get(field.as_str()) {
            Some(cell) => {
                let found = contains_value(values, cell);
                proof {
                    let vs = values_view(values@);
                    if found {
                        let i = choose|i: int|
                            0 <= i < values.len() && value_eq(#[trigger] values@[i]@, cell@);
                        assert(value_eq(vs[i], cell@));
                    } else {
                        assert forall|i: int| 0 <= i < vs.len() implies !value_eq(
                            #[trigger] vs[i],
                            cell@,
                        ) by {
                            assert(!value_eq(values@[i]@, cell@));
                        }
                    }
                }
                found
            },
            None => false,
        },
        Expr::Between(field, start, end) => match (row.get(field.as_str()), start, end) {
            (Some(Value::Number(x)), Value::Number(s), Value::Number(e)) => less_or_equal(*s, *x)
                && less_or_equal(*x, *e),
            _ => false,
        },
        Expr::KindEq(kind) => row.kind == *kind,
        Expr::And(left, right) => {
            let l = eval(left, row);
            let r = eval(right, row);
            l && r
        },
        Expr::Or(left, right) => {
            let l = eval(left, row);
            let r = eval(right, row);
            l || r
        },
        Expr::Not(inner) => !eval(inner, row),
    }
}

} // verus!
