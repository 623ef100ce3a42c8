//! The parser of conditions.
//!
//! The grammar, from the loosest binding to the tightest:
//!
//! ```text
//! expr   ::= and (OR and)*
//! and    ::= term (AND term)*
//! term   ::= '(' expr ')' | NOT term | factor
//! factor ::= field ('=' | '>' | '<' | '>=' | '<=') literal
//!          | field LIKE 'pattern'
//!          | field IN '(' literal (',' literal)* ')'
//!          | field BETWEEN literal AND literal
//! ```
//!
//! A literal that begins with a quote is a text; any other literal is a
//! number. To read a token as a binary64 number takes arithmetic that this
//! library leaves to its caller: the caller hands in, for each token, what it
//! reads as, and the parser takes the reading of the tokens that the grammar
//! makes literals.
use crate::ast::{values_view, Expr, ExprView};
use crate::error::{EngineError, ErrorView};
use crate::row::{Value, ValueView};
use crate::text::{chars_of, same_text, strings_view, trim_both, trimmed};
use crate::tokenizer::{tokenize, tokenized};
use vstd::prelude::*;

verus! {

/// A parser over the tokens of one query.
#[derive(Debug, Clone)]
pub struct Parser {
    tokens: Vec<String>,
    pos: usize,
}

/// What a [`Parser`] holds: the tokens, and how many of them it has read.
pub struct ParserView {
    pub tokens: Seq<Seq<char>>,
    pub pos: int,
}

impl View for Parser {
    type V = ParserView;

    closed spec fn view(&self) -> ParserView {
        ParserView { tokens: strings_view(self.tokens@), pos: self.pos as int }
    }
}

/// The error of a query that ends where a token is due.
pub open spec fn end_of_query() -> ErrorView {
    ErrorView::Parse("unexpected end of query"@)
}

/// Whether the token at `pos` is `word`.
pub open spec fn is_token(tokens: Seq<Seq<char>>, pos: int, word: Seq<char>) -> bool {
    0 <= pos < tokens.len() && tokens[pos] == word
}

/// What the caller read the token at `pos` as: `None` where it is no
/// number, or where the caller gave no reading for it.
pub open spec fn number_of(numbers: Seq<Option<u64>>, pos: int) -> Option<u64> {
    if 0 <= pos < numbers.len() {
        numbers[pos]
    } else {
        None
    }
}

/// The token at `pos`, and the place after it.
pub open spec fn token_at(tokens: Seq<Seq<char>>, pos: int) -> Result<(Seq<char>, int), ErrorView> {
    if 0 <= pos < tokens.len() {
        Ok((tokens[pos], pos + 1))
    } else {
        Err(end_of_query())
    }
}

/// The place after the token at `pos`, which must be `word`.
pub open spec fn expected_at(tokens: Seq<Seq<char>>, pos: int, word: Seq<char>) -> Result<
    int,
    ErrorView,
> {
    match token_at(tokens, pos) {
        Ok((token, next)) => if token == word {
            Ok(next)
        } else {
            Err(ErrorView::UnexpectedToken { expected: word, found: token })
        },
        Err(e) => Err(e),
    }
}

/// The literal at `pos`: a text without the quotes at its ends where the
/// token begins with a quote, else the number that the token was read as.
pub open spec fn value_at(tokens: Seq<Seq<char>>, numbers: Seq<Option<u64>>, pos: int) -> Result<
    (ValueView, int),
    ErrorView,
> {
    match token_at(tokens, pos) {
        Ok((token, next)) => if token.len() > 0 && token[0] == '\'' {
            Ok((ValueView::Text(trimmed(token, '\'')), next))
        } else {
            match number_of(numbers, pos) {
                Some(n) => Ok((ValueView::Number(n), next)),
                None => Err(ErrorView::InvalidValue(token)),
            }
        },
        Err(e) => Err(e),
    }
}

/// The pattern at `pos`: the token without the quotes at its ends.
pub open spec fn pattern_at(tokens: Seq<Seq<char>>, pos: int) -> Result<(Seq<char>, int), ErrorView> {
    match token_at(tokens, pos) {
        Ok((token, next)) => Ok((trimmed(token, '\''), next)),
        Err(e) => Err(e),
    }
}

/// The rest of an `IN` list from `pos` on, `values` having been read: the
/// list ends at a `)`; a literal is followed by a `,` and more, or by the
/// closing `)`.
pub open spec fn in_list_at(
    tokens: Seq<Seq<char>>,
    numbers: Seq<Option<u64>>,
    field: Seq<char>,
    values: Seq<ValueView>,
    pos: int,
) -> Result<(ExprView, int), ErrorView>
    decreases tokens.len() - pos, 1nat,
{
    if is_token(tokens, pos, ")"@) {
        Ok((ExprView::In(field, values), pos + 1))
    } else {
        match value_at(tokens, numbers, pos) {
            Ok((value, next)) => if next == pos + 1 && is_token(tokens, next, ","@) {
                in_list_at(tokens, numbers, field, values.push(value), next + 1)
            } else {
                match expected_at(tokens, next, ")"@) {
                    Ok(after) => Ok((ExprView::In(field, values.push(value)), after)),
                    Err(e) => Err(e),
                }
            },
            Err(e) => Err(e),
        }
    }
}

/// The comparison whose field is at `pos`.
pub open spec fn comparison_at(tokens: Seq<Seq<char>>, numbers: Seq<Option<u64>>, pos: int) -> Result<
    (ExprView, int),
    ErrorView,
> {
    if pos < 0 || pos + 1 >= tokens.len() {
        Err(end_of_query())
    } else {
        let field = tokens[pos];
        let op = tokens[pos + 1];
        let at = pos + 2;
        if op == "="@ || op == ">"@ || op == "<"@ || op == ">="@ || op == "<="@ {
            match value_at(tokens, numbers, at) {
                Ok((value, next)) => Ok(
                    (
                        if op == "="@ {
                            ExprView::Eq(field, value)
                        } else if op == ">"@ {
                            ExprView::Gt(field, value)
                        } else if op == "<"@ {
                            ExprView::Lt(field, value)
                        } else if op == ">="@ {
                            ExprView::Gte(field, value)
                        } else {
                            ExprView::Lte(field, value)
                        },
                        next,
                    ),
                ),
                Err(e) => Err(e),
            }
        } else if op == "LIKE"@ {
            match pattern_at(tokens, at) {
                Ok((pattern, next)) => Ok((ExprView::Like(field, pattern), next)),
                Err(e) => Err(e),
            }
        } else if op == "IN"@ {
            match expected_at(tokens, at, "("@) {
                Ok(next) => in_list_at(tokens, numbers, field, Seq::empty(), next),
                Err(e) => Err(e),
            }
        } else if op == "BETWEEN"@ {
            match value_at(tokens, numbers, at) {
                Ok((low, next)) => match expected_at(tokens, next, "AND"@) {
                    Ok(after) => match value_at(tokens, numbers, after) {
                        Ok((high, end)) => Ok((ExprView::Between(field, low, high), end)),
                        Err(e) => Err(e),
                    },
                    Err(e) => Err(e),
                },
                Err(e) => Err(e),
            }
        } else {
            Err(ErrorView::InvalidToken(op))
        }
    }
}

/// The expression at `pos`: terms joined by `AND` bind tighter than those
/// joined by `OR`, and both join from the left.
///
/// (The tests on `next` in the four definitions that follow only show that
/// the definitions are well founded: what is read ends after the place
/// where it began and within the tokens, see [`parse_moves_on`].)
pub open spec fn or_at(tokens: Seq<Seq<char>>, numbers: Seq<Option<u64>>, pos: int) -> Result<
    (ExprView, int),
    ErrorView,
>
    decreases tokens.len() - pos, 7nat,
{
    match and_at(tokens, numbers, pos) {
        Ok((left, next)) => if pos < next <= tokens.len() {
            or_rest(tokens, numbers, left, next)
        } else {
            Err(end_of_query())
        },
        Err(e) => Err(e),
    }
}

/// What follows a first alternative: any number of `OR` and one more.
pub open spec fn or_rest(
    tokens: Seq<Seq<char>>,
    numbers: Seq<Option<u64>>,
    left: ExprView,
    pos: int,
) -> Result<(ExprView, int), ErrorView>
    decreases tokens.len() - pos, 6nat,
{
    if is_token(tokens, pos, "OR"@) {
        match and_at(tokens, numbers, pos + 1) {
            Ok((right, next)) => if pos < next <= tokens.len() {
                or_rest(tokens, numbers, ExprView::Or(Box::new(left), Box::new(right)), next)
            } else {
                Err(end_of_query())
            },
            Err(e) => Err(e),
        }
    } else {
        Ok((left, pos))
    }
}

/// The conjunction at `pos`.
pub open spec fn and_at(tokens: Seq<Seq<char>>, numbers: Seq<Option<u64>>, pos: int) -> Result<
    (ExprView, int),
    ErrorView,
>
    decreases tokens.len() - pos, 5nat,
{
    match term_at(tokens, numbers, pos) {
        Ok((left, next)) => if pos < next <= tokens.len() {
            and_rest(tokens, numbers, left, next)
        } else {
            Err(end_of_query())
        },
        Err(e) => Err(e),
    }
}

/// What follows a first term: any number of `AND` and one more.
pub open spec fn and_rest(
    tokens: Seq<Seq<char>>,
    numbers: Seq<Option<u64>>,
    left: ExprView,
    pos: int,
) -> Result<(ExprView, int), ErrorView>
    decreases tokens.len() - pos, 4nat,
{
    if is_token(tokens, pos, "AND"@) {
        match term_at(tokens, numbers, pos + 1) {
            Ok((right, next)) => if pos < next <= tokens.len() {
                and_rest(tokens, numbers, ExprView::And(Box::new(left), Box::new(right)), next)
            } else {
                Err(end_of_query())
            },
            Err(e) => Err(e),
        }
    } else {
        Ok((left, pos))
    }
}

/// The term at `pos`: an expression in parentheses, or a factor.
pub open spec fn term_at(tokens: Seq<Seq<char>>, numbers: Seq<Option<u64>>, pos: int) -> Result<
    (ExprView, int),
    ErrorView,
>
    decreases tokens.len() - pos, 3nat,
{
    if is_token(tokens, pos, "("@) {
        match or_at(tokens, numbers, pos + 1) {
            Ok((inner, next)) => match expected_at(tokens, next, ")"@) {
                Ok(after) => Ok((inner, after)),
                Err(e) => Err(e),
            },
            Err(e) => Err(e),
        }
    } else {
        factor_at(tokens, numbers, pos)
    }
}

/// The factor at `pos`: a negated term, or a comparison.
pub open spec fn factor_at(tokens: Seq<Seq<char>>, numbers: Seq<Option<u64>>, pos: int) -> Result<
    (ExprView, int),
    ErrorView,
>
    decreases tokens.len() - pos, 2nat,
{
    if is_token(tokens, pos, "NOT"@) {
        match term_at(tokens, numbers, pos + 1) {
            Ok((inner, next)) => Ok((ExprView::Not(Box::new(inner)), next)),
            Err(e) => Err(e),
        }
    } else {
        comparison_at(tokens, numbers, pos)
    }
}

/// The condition that a list of tokens writes, under the given readings of
/// its tokens as numbers. Tokens after the condition are not looked at.
pub open spec fn parsed(tokens: Seq<Seq<char>>, numbers: Seq<Option<u64>>) -> Result<
    ExprView,
    ErrorView,
> {
    match or_at(tokens, numbers, 0) {
        Ok((expr, _)) => Ok(expr),
        Err(e) => Err(e),
    }
}

/// Whether what was read from `pos` ends after `pos` and within `len`.
pub open spec fn moves_on(read: Result<(ExprView, int), ErrorView>, pos: int, len: int) -> bool {
    read matches Ok((_, next)) ==> pos < next <= len
}

/// Whether what was read from `pos` ends no earlier than `pos`, and within
/// `len` where `pos` is.
pub open spec fn stays_within(read: Result<(ExprView, int), ErrorView>, pos: int, len: int) -> bool {
    read matches Ok((_, next)) ==> pos <= next && (pos <= len ==> next <= len)
}

/// Whatever is read ends after the place where it began, and within the
/// tokens.
pub proof fn parse_moves_on(tokens: Seq<Seq<char>>, numbers: Seq<Option<u64>>, pos: int)
    requires
        0 <= pos,
    ensures
        moves_on(or_at(tokens, numbers, pos), pos, tokens.len() as int),
        moves_on(and_at(tokens, numbers, pos), pos, tokens.len() as int),
        moves_on(term_at(tokens, numbers, pos), pos, tokens.len() as int),
        moves_on(factor_at(tokens, numbers, pos), pos, tokens.len() as int),
        forall|left: ExprView|
            stays_within(#[trigger] or_rest(tokens, numbers, left, pos), pos, tokens.len() as int),
        forall|left: ExprView|
            stays_within(#[trigger] and_rest(tokens, numbers, left, pos), pos, tokens.len() as int),
        forall|field: Seq<char>, values: Seq<ValueView>|
            moves_on(
                #[trigger] in_list_at(tokens, numbers, field, values, pos),
                pos,
                tokens.len() as int,
            ),
    decreases tokens.len() - pos,
{
    let len = tokens.len() as int;
    if pos < len {
        parse_moves_on(tokens, numbers, pos + 1);
        if pos + 2 <= len {
            parse_moves_on(tokens, numbers, pos + 2);
        }
        if pos + 3 <= len {
            parse_moves_on(tokens, numbers, pos + 3);
        }
        assert forall|field: Seq<char>, values: Seq<ValueView>|
            moves_on(#[trigger] in_list_at(tokens, numbers, field, values, pos), pos, len) by {
            match value_at(tokens, numbers, pos) {
                Ok((value, next)) => {
                    if is_token(tokens, next, ","@) {
                        assert(moves_on(
                            in_list_at(tokens, numbers, field, values.push(value), pos + 2),
                            pos + 2,
                            len,
                        ));
                    }
                },
                Err(_) => {},
            }
        }
        assert(moves_on(factor_at(tokens, numbers, pos), pos, len));
        assert(moves_on(term_at(tokens, numbers, pos), pos, len));
        assert forall|left: ExprView|
            stays_within(#[trigger] and_rest(tokens, numbers, left, pos), pos, len) by {
            if is_token(tokens, pos, "AND"@) {
                match term_at(tokens, numbers, pos + 1) {
                    Ok((right, next)) => {
                        assert(moves_on(term_at(tokens, numbers, pos + 1), pos + 1, len));
                        parse_moves_on(tokens, numbers, next);
                        let joined = ExprView::And(Box::new(left), Box::new(right));
                        assert(stays_within(and_rest(tokens, numbers, joined, next), next, len));
                    },
                    Err(_) => {},
                }
            }
        }
        match term_at(tokens, numbers, pos) {
            Ok((left, next)) => {
                parse_moves_on(tokens, numbers, next);
                assert(stays_within(and_rest(tokens, numbers, left, next), next, len));
            },
            Err(_) => {},
        }
        assert(moves_on(and_at(tokens, numbers, pos), pos, len));
        assert forall|left: ExprView|
            stays_within(#[trigger] or_rest(tokens, numbers, left, pos), pos, len) by {
            if is_token(tokens, pos, "OR"@) {
                match and_at(tokens, numbers, pos + 1) {
                    Ok((right, next)) => {
                        assert(moves_on(and_at(tokens, numbers, pos + 1), pos + 1, len));
                        parse_moves_on(tokens, numbers, next);
                        let joined = ExprView::Or(Box::new(left), Box::new(right));
                        assert(stays_within(or_rest(tokens, numbers, joined, next), next, len));
                    },
                    Err(_) => {},
                }
            }
        }
        match and_at(tokens, numbers, pos) {
            Ok((left, next)) => {
                parse_moves_on(tokens, numbers, next);
                assert(stays_within(or_rest(tokens, numbers, left, next), next, len));
            },
            Err(_) => {},
        }
        assert(moves_on(or_at(tokens, numbers, pos), pos, len));
    }
}

/// Whether an answer and a place are what the grammar asks for.
pub open spec fn agrees(
    answer: Result<Expr, EngineError>,
    place: int,
    wanted: Result<(ExprView, int), ErrorView>,
) -> bool {
    match wanted {
        Ok((expr, next)) => answer matches Ok(e) && e@ == expr && place == next,
        Err(error) => answer matches Err(e) && e@ == error,
    }
}

/// Two readings of the same tokens, under the same readings of the tokens
/// as numbers, give the same answer: the same condition and the same place,
/// or the same error.
pub proof fn parsing_is_deterministic(
    tokens: Seq<Seq<char>>,
    numbers: Seq<Option<u64>>,
    pos: int,
    first: Result<Expr, EngineError>,
    first_place: int,
    second: Result<Expr, EngineError>,
    second_place: int,
)
    requires
        agrees(first, first_place, or_at(tokens, numbers, pos)),
        agrees(second, second_place, or_at(tokens, numbers, pos)),
    ensures
        match (first, second) {
            (Ok(a), Ok(b)) => a@ == b@ && first_place == second_place,
            (Err(a), Err(b)) => a@ == b@,
            _ => false,
        },
{
}

/// `AND` binds tighter than `OR`: of three terms, the first followed by
/// `OR`, the second by `AND`, and the third by neither, the second and the
/// third are joined first; with `AND` before `OR`, the first and the
/// second are.
pub proof fn and_binds_tighter_than_or(
    tokens: Seq<Seq<char>>,
    numbers: Seq<Option<u64>>,
    first: ExprView,
    second: ExprView,
    third: ExprView,
    start: int,
    after_first: int,
    after_second: int,
    end: int,
)
    requires
        0 <= start,
        term_at(tokens, numbers, start) == Ok::<(ExprView, int), ErrorView>((first, after_first)),
        term_at(tokens, numbers, after_first + 1) == Ok::<(ExprView, int), ErrorView>(
            (second, after_second),
        ),
        term_at(tokens, numbers, after_second + 1) == Ok::<(ExprView, int), ErrorView>(
            (third, end),
        ),
        !is_token(tokens, end, "AND"@),
        !is_token(tokens, end, "OR"@),
    ensures
        is_token(tokens, after_first, "OR"@) && is_token(tokens, after_second, "AND"@) ==> or_at(
            tokens,
            numbers,
            start,
        ) == Ok::<(ExprView, int), ErrorView>(
            (
                ExprView::Or(
                    Box::new(first),
                    Box::new(ExprView::And(Box::new(second), Box::new(third))),
                ),
                end,
            ),
        ),
        is_token(tokens, after_first, "AND"@) && is_token(tokens, after_second, "OR"@) ==> or_at(
            tokens,
            numbers,
            start,
        ) == Ok::<(ExprView, int), ErrorView>(
            (
                ExprView::Or(
                    Box::new(ExprView::And(Box::new(first), Box::new(second))),
                    Box::new(third),
                ),
                end,
            ),
        ),
{
    reveal_strlit("AND");
    reveal_strlit("OR");
    assert("AND"@.len() != "OR"@.len());
    parse_moves_on(tokens, numbers, start);
    if after_first >= 0 {
        parse_moves_on(tokens, numbers, after_first + 1);
    }
    if after_second >= 0 {
        parse_moves_on(tokens, numbers, after_second + 1);
    }
    if is_token(tokens, after_first, "OR"@) && is_token(tokens, after_second, "AND"@) {
        let joined = ExprView::And(Box::new(second), Box::new(third));
        assert(and_rest(tokens, numbers, first, after_first) == Ok::<(ExprView, int), ErrorView>(
            (first, after_first),
        ));
        assert(and_at(tokens, numbers, start) == Ok::<(ExprView, int), ErrorView>(
            (first, after_first),
        ));
        assert(and_rest(tokens, numbers, joined, end) == Ok::<(ExprView, int), ErrorView>(
            (joined, end),
        ));
        assert(and_rest(tokens, numbers, second, after_second) == Ok::<(ExprView, int), ErrorView>(
            (joined, end),
        ));
        assert(and_at(tokens, numbers, after_first + 1) == Ok::<(ExprView, int), ErrorView>(
            (joined, end),
        ));
        let whole = ExprView::Or(Box::new(first), Box::new(joined));
        assert(or_rest(tokens, numbers, whole, end) == Ok::<(ExprView, int), ErrorView>(
            (whole, end),
        ));
        assert(or_rest(tokens, numbers, first, after_first) == Ok::<(ExprView, int), ErrorView>(
            (whole, end),
        ));
    }
    if is_token(tokens, after_first, "AND"@) && is_token(tokens, after_second, "OR"@) {
        let joined = ExprView::And(Box::new(first), Box::new(second));
        assert(and_rest(tokens, numbers, joined, after_second) == Ok::<
            (ExprView, int),
            ErrorView,
        >((joined, after_second)));
        assert(and_rest(tokens, numbers, first, after_first) == Ok::<(ExprView, int), ErrorView>(
            (joined, after_second),
        ));
        assert(and_at(tokens, numbers, start) == Ok::<(ExprView, int), ErrorView>(
            (joined, after_second),
        ));
        assert(and_rest(tokens, numbers, third, end) == Ok::<(ExprView, int), ErrorView>(
            (third, end),
        ));
        assert(and_at(tokens, numbers, after_second + 1) == Ok::<(ExprView, int), ErrorView>(
            (third, end),
        ));
        let whole = ExprView::Or(Box::new(joined), Box::new(third));
        assert(or_rest(tokens, numbers, whole, end) == Ok::<(ExprView, int), ErrorView>(
            (whole, end),
        ));
        assert(or_rest(tokens, numbers, joined, after_second) == Ok::<(ExprView, int), ErrorView>(
            (whole, end),
        ));
    }
}

impl Parser {
    /// A parser at the start of the tokens of `input`.
    pub fn new(input: &str) -> (r: Self)
        ensures
            r@.tokens == tokenized(input@),
            r@.pos == 0,
    {
        Parser { tokens: tokenize(input), pos: 0 }
    }

    /// The tokens of the query.
    pub fn tokens(&self) -> (r: &Vec<String>)
        ensures
            strings_view(r@) == self@.tokens,
    {
        &self.tokens
    }

    /// The token that is next, if there is one.
    fn peek(&self) -> (r: Option<&str>)
        ensures
            match r {
                Some(token) => token_at(strings_view(self.tokens@), self.pos as int) == Ok::<
                    (Seq<char>, int),
                    ErrorView,
                >((token@, self.pos + 1)),
                None => self.pos >= self.tokens.len(),
            },
            r is Some ==> self.pos < self.tokens.len(),
    {
        if self.pos < self.tokens.len() {
            Some(self.tokens[self.pos].as_str())
        } else {
            None
        }
    }

    /// Reads the next token if it is `expected`.
    fn match_token(&mut self, expected: &str) -> (r: bool)
        ensures
            r == is_token(strings_view(old(self).tokens@), old(self).pos as int, expected@),
            final(self).tokens == old(self).tokens,
            final(self).pos == if r {
                old(self).pos + 1
            } else {
                old(self).pos as int
            },
    {
        match self.peek() {
            Some(token) => if same_text(token, expected) {
                self.pos += 1;
                true
            } else {
                false
            },
            None => false,
        }
    }

    /// Reads the next token.
    fn next(&mut self) -> (r: Result<String, EngineError>)
        ensures
            final(self).tokens == old(self).tokens,
            match token_at(strings_view(old(self).tokens@), old(self).pos as int) {
                Ok((token, next)) => r matches Ok(t) && t@ == token && final(self).pos == next,
                Err(error) => r matches Err(e) && e@ == error,
            },
    {
        if self.pos < self.tokens.len() {
            let token = self.tokens[self.pos].clone();
            self.pos += 1;
            Ok(token)
        } else {
            Err(EngineError::Parse("unexpected end of query".to_owned()))
        }
    }

    /// Reads the next token, which must be `expected`.
    fn expect(&mut self, expected: &str) -> (r: Result<(), EngineError>)
        ensures
            final(self).tokens == old(self).tokens,
            match expected_at(strings_view(old(self).tokens@), old(self).pos as int, expected@) {
                Ok(next) => r is Ok && final(self).pos == next,
                Err(error) => r matches Err(e) && e@ == error,
            },
    {
        let token = self.next()?;
        if same_text(token.as_str(), expected) {
            Ok(())
        } else {
            Err(EngineError::UnexpectedToken { expected: expected.to_owned(), found: token })
        }
    }

    /// Reads a literal.
    fn parse_value(&mut self, numbers: &[Option<u64>]) -> (r: Result<Value, EngineError>)
        ensures
            final(self).tokens == old(self).tokens,
            match value_at(strings_view(old(self).tokens@), numbers@, old(self).pos as int) {
                Ok((value, next)) => r matches Ok(v) && v@ == value && final(self).pos == next,
                Err(error) => r matches Err(e) && e@ == error,
            },
    {
        let at = self.pos;
        let token = self.next()?;
        let chars = chars_of(token.as_str());
        if chars.len() > 0 && chars[0] == '\'' {
            Ok(Value::Text(trim_both(token.as_str(), '\'').to_owned()))
        } else {
            let reading = if at < numbers.len() {
                numbers[at]
            } else {
                None
            };
            match reading {
                Some(n) => Ok(Value::Number(n)),
                None => Err(EngineError::InvalidValue(token)),
            }
        }
    }

    /// Reads a pattern.
    fn parse_string(&mut self) -> (r: Result<String, EngineError>)
        ensures
            final(self).tokens == old(self).tokens,
            match pattern_at(strings_view(old(self).tokens@), old(self).pos as int) {
                Ok((pattern, next)) => r matches Ok(p) && p@ == pattern && final(self).pos == next,
                Err(error) => r matches Err(e) && e@ == error,
            },
    {
        let token = self.next()?;
        Ok(trim_both(token.as_str(), '\'').to_owned())
    }

    /// Reads the rest of an `IN` list.
    fn parse_in_list(&mut self, numbers: &[Option<u64>], field: String) -> (r: Result<
        Expr,
        EngineError,
    >)
        ensures
            final(self).tokens == old(self).tokens,
            agrees(
                r,
                final(self).pos as int,
                in_list_at(
                    strings_view(old(self).tokens@),
                    numbers@,
                    field@,
                    Seq::empty(),
                    old(self).pos as int,
                ),
            ),
    {
        let mut values: Vec<Value> = Vec::new();
        let ghost tokens = strings_view(self.tokens@);
        let ghost start = self.pos as int;
        proof {
            assert(values_view(values@) =~= Seq::<ValueView>::empty());
        }
        loop
            invariant
                self.tokens == old(self).tokens,
                tokens == strings_view(self.tokens@),
                in_list_at(tokens, numbers@, field@, values_view(values@), self.pos as int)
                    == in_list_at(tokens, numbers@, field@, Seq::empty(), start),
                start == old(self).pos,
            decreases self.tokens.len() - self.pos,
        {
            if self.match_token(")") {
                return Ok(Expr::In(field, values));
            }
            let ghost before = values_view(values@);
            let value = self.parse_value(numbers)?;
            values.push(value);
            proof {
                assert(values_view(values@) =~= before.push(value@));
            }
            if !self.match_token(",") {
                self.expect(")")?;
                return Ok(Expr::In(field, values));
            }
        }
    }

    /// Reads a comparison.
    fn parse_comparison(&mut self, numbers: &[Option<u64>]) -> (r: Result<Expr, EngineError>)
        ensures
            final(self).tokens == old(self).tokens,
            agrees(
                r,
                final(self).pos as int,
                comparison_at(strings_view(old(self).tokens@), numbers@, old(self).pos as int),
            ),
    {
        let field = self.next()?;
        let op = self.next()?;
        proof {
            operators_are_spelled();
        }
        if same_text(op.as_str(), "=") {
            let value = self.parse_value(numbers)?;
            Ok(Expr::Eq(field, value))
        } else if same_text(op.as_str(), ">") {
            let value = self.parse_value(numbers)?;
            Ok(Expr::Gt(field, value))
        } else if same_text(op.as_str(), "<") {
            let value = self.parse_value(numbers)?;
            Ok(Expr::Lt(field, value))
        } else if same_text(op.as_str(), ">=") {
            let value = self.parse_value(numbers)?;
            Ok(Expr::Gte(field, value))
        } else if same_text(op.as_str(), "<=") {
            let value = self.parse_value(numbers)?;
            Ok(Expr::Lte(field, value))
        } else if same_text(op.as_str(), "LIKE") {
            let pattern = self.parse_string()?;
            Ok(Expr::Like(field, pattern))
        } else if same_text(op.as_str(), "IN") {
            self.expect("(")?;
            self.parse_in_list(numbers, field)
        } else if same_text(op.as_str(), "BETWEEN") {
            let low = self.parse_value(numbers)?;
            self.expect("AND")?;
            let high = self.parse_value(numbers)?;
            Ok(Expr::Between(field, low, high))
        } else {
            Err(EngineError::InvalidToken(op))
        }
    }

    /// Reads a factor.
    fn parse_factor(&mut self, numbers: &[Option<u64>]) -> (r: Result<Expr, EngineError>)
        ensures
            final(self).tokens == old(self).tokens,
            agrees(
                r,
                final(self).pos as int,
                factor_at(strings_view(old(self).tokens@), numbers@, old(self).pos as int),
            ),
        decreases old(self).tokens.len() - old(self).pos, 2nat,
    {
        if self.match_token("NOT") {
            let inner = self.parse_term(numbers)?;
            Ok(Expr::Not(Box::new(inner)))
        } else {
            self.parse_comparison(numbers)
        }
    }

    /// Reads a term.
    fn parse_term(&mut self, numbers: &[Option<u64>]) -> (r: Result<Expr, EngineError>)
        ensures
            final(self).tokens == old(self).tokens,
            agrees(
                r,
                final(self).pos as int,
                term_at(strings_view(old(self).tokens@), numbers@, old(self).pos as int),
            ),
        decreases old(self).tokens.len() - old(self).pos, 3nat,
    {
        if self.match_token("(") {
            let expr = self.parse_or(numbers)?;
            self.expect(")")?;
            Ok(expr)
        } else {
            self.parse_factor(numbers)
        }
    }

    /// Reads a conjunction.
    fn parse_and(&mut self, numbers: &[Option<u64>]) -> (r: Result<Expr, EngineError>)
        ensures
            final(self).tokens == old(self).tokens,
            agrees(
                r,
                final(self).pos as int,
                and_at(strings_view(old(self).tokens@), numbers@, old(self).pos as int),
            ),
        decreases old(self).tokens.len() - old(self).pos, 5nat,
    {
        let ghost tokens = strings_view(self.tokens@);
        let ghost start = self.pos as int;
        let mut left = self.parse_term(numbers)?;
        proof {
            parse_moves_on(tokens, numbers@, start);
        }
        loop
            invariant
                self.tokens == old(self).tokens,
                tokens == strings_view(self.tokens@),
                start == old(self).pos,
                start < self.pos <= self.tokens.len(),
                and_rest(tokens, numbers@, left@, self.pos as int) == and_at(
                    tokens,
                    numbers@,
                    start,
                ),
            decreases self.tokens.len() - self.pos,
        {
            let ghost here = self.pos as int;
            if !self.match_token("AND") {
                return Ok(left);
            }
            let right = self.parse_term(numbers)?;
            proof {
                parse_moves_on(tokens, numbers@, here + 1);
            }
            left = Expr::And(Box::new(left), Box::new(right));
        }
    }

    /// Reads an expression.
    fn parse_or(&mut self, numbers: &[Option<u64>]) -> (r: Result<Expr, EngineError>)
        ensures
            final(self).tokens == old(self).tokens,
            agrees(
                r,
                final(self).pos as int,
                or_at(strings_view(old(self).tokens@), numbers@, old(self).pos as int),
            ),
        decreases old(self).tokens.len() - old(self).pos, 7nat,
    {
        let ghost tokens = strings_view(self.tokens@);
        let ghost start = self.pos as int;
        let mut left = self.parse_and(numbers)?;
        proof {
            parse_moves_on(tokens, numbers@, start);
        }
        loop
            invariant
                self.tokens == old(self).tokens,
                tokens == strings_view(self.tokens@),
                start == old(self).pos,
                start < self.pos <= self.tokens.len(),
                or_rest(tokens, numbers@, left@, self.pos as int) == or_at(tokens, numbers@, start),
            decreases self.tokens.len() - self.pos,
        {
            let ghost here = self.pos as int;
            if !self.match_token("OR") {
                return Ok(left);
            }
            let right = self.parse_and(numbers)?;
            proof {
                parse_moves_on(tokens, numbers@, here + 1);
            }
            left = Expr::Or(Box::new(left), Box::new(right));
        }
    }

    /// Reads the condition that begins at the parser's place. `numbers`
    /// holds, for each token of the query, what the caller read it as:
    /// the encoding of a binary64 number, or `None` where the token is no
    /// number. The answer is the condition, or the first error that the
    /// grammar meets.
    pub fn try_parse(&mut self, numbers: &[Option<u64>]) -> (r: Result<Expr, EngineError>)
        ensures
            final(self)@.tokens == old(self)@.tokens,
            agrees(r, final(self)@.pos, or_at(old(self)@.tokens, numbers@, old(self)@.pos)),
    {
        self.parse_or(numbers)
    }

    /// Reads the condition that begins at the parser's place, for a query
    /// that keeps to the grammar.
    pub fn parse(&mut self, numbers: &[Option<u64>]) -> (r: Expr)
        requires
            or_at(old(self)@.tokens, numbers@, old(self)@.pos) is Ok,
        ensures
            final(self)@.tokens == old(self)@.tokens,
            agrees(
                Ok::<Expr, EngineError>(r),
                final(self)@.pos,
                or_at(old(self)@.tokens, numbers@, old(self)@.pos),
            ),
    {
        match self.parse_or(numbers) {
            Ok(expr) => expr,
            Err(_) => vstd::pervasive::unreached(),
        }
    }
}

/// The operators are what they read, so no two of them are the same text.
proof fn operators_are_spelled()
    ensures
        "="@ == seq!['='],
        ">"@ == seq!['>'],
        "<"@ == seq!['<'],
        ">="@ == seq!['>', '='],
        "<="@ == seq!['<', '='],
        "LIKE"@ == seq!['L', 'I', 'K', 'E'],
        "IN"@ == seq!['I', 'N'],
        "BETWEEN"@ == seq!['B', 'E', 'T', 'W', 'E', 'E', 'N'],
{
    reveal_strlit("=");
    reveal_strlit(">");
    reveal_strlit("<");
    reveal_strlit(">=");
    reveal_strlit("<=");
    reveal_strlit("LIKE");
    reveal_strlit("IN");
    reveal_strlit("BETWEEN");
    assert("="@ =~= seq!['=']);
    assert(">"@ =~= seq!['>']);
    assert("<"@ =~= seq!['<']);
    assert(">="@ =~= seq!['>', '=']);
    assert("<="@ =~= seq!['<', '=']);
    assert("LIKE"@ =~= seq!['L', 'I', 'K', 'E']);
    assert("IN"@ =~= seq!['I', 'N']);
    assert("BETWEEN"@ =~= seq!['B', 'E', 'T', 'W', 'E', 'E', 'N']);
}

} // verus!
