//! Cutting a query into tokens.
use crate::text::{chars_of, is_space, space, strings_view};
use vstd::prelude::*;

verus! {

/// Whether `c` is a character that is a token by itself.
pub open spec fn is_structural(c: char) -> bool {
    c == '(' || c == ')' || c == ','
}

/// Whether `a` and `b` together are one of `>=`, `<=`, `!=`.
pub open spec fn is_operator_pair(a: char, b: char) -> bool {
    (a == '>' || a == '<' || a == '!') && b == '='
}

/// The query with a space on either side of every structural character and
/// of every `>=`, `<=` and `!=`, read from the left. (To pad each of the six
/// in turn over the whole query gives the same text.)
pub open spec fn padded(s: Seq<char>) -> Seq<char>
    decreases s.len(),
{
    if s.len() == 0 {
        Seq::empty()
    } else if s.len() >= 2 && is_operator_pair(s[0], s[1]) {
        seq![' ', s[0], s[1], ' '] + padded(s.skip(2))
    } else if is_structural(s[0]) {
        seq![' ', s[0], ' '] + padded(s.skip(1))
    } else {
        seq![s[0]] + padded(s.skip(1))
    }
}

/// The pieces of `s` between its white-space characters, empty ones too.
pub open spec fn space_pieces(s: Seq<char>) -> Seq<Seq<char>>
    decreases s.len(),
{
    if s.len() == 0 {
        seq![Seq::empty()]
    } else {
        let before = space_pieces(s.drop_last());
        if is_space(s.last()) {
            before.push(Seq::empty())
        } else {
            before.drop_last().push(before.last().push(s.last()))
        }
    }
}

/// The words among some pieces: those that are not empty.
pub open spec fn words(pieces: Seq<Seq<char>>) -> Seq<Seq<char>> {
    pieces.filter(|w: Seq<char>| w.len() > 0)
}

/// The tokens of a query: the words of the padded query.
pub open spec fn tokenized(s: Seq<char>) -> Seq<Seq<char>> {
    words(space_pieces(padded(s)))
}

/// Pieces are never none.
proof fn pieces_are_not_empty(s: Seq<char>)
    ensures
        space_pieces(s).len() >= 1,
    decreases s.len(),
{
    if s.len() > 0 {
        pieces_are_not_empty(s.drop_last());
    }
}

/// The pieces after one more character that is no white space: the last
/// piece has grown by it.
proof fn pieces_after_letter(s: Seq<char>, c: char)
    requires
        !is_space(c),
    ensures
        space_pieces(s.push(c)).len() == space_pieces(s).len(),
        space_pieces(s.push(c)).drop_last() == space_pieces(s).drop_last(),
        space_pieces(s.push(c)).last() == space_pieces(s).last().push(c),
{
    pieces_are_not_empty(s);
    assert(s.push(c).drop_last() =~= s);
    let before = space_pieces(s);
    let now = before.drop_last().push(before.last().push(c));
    assert(now.drop_last() =~= before.drop_last());
}

/// The words after one more white-space character: the last piece is
/// closed, and is a word unless it is empty; a new empty piece is open.
proof fn pieces_after_space(s: Seq<char>, c: char)
    requires
        is_space(c),
    ensures
        space_pieces(s.push(c)).last() == Seq::<char>::empty(),
        words(space_pieces(s.push(c)).drop_last()) == if space_pieces(s).last().len() > 0 {
            words(space_pieces(s).drop_last()).push(space_pieces(s).last())
        } else {
            words(space_pieces(s).drop_last())
        },
{
    reveal(Seq::filter);
    pieces_are_not_empty(s);
    assert(s.push(c).drop_last() =~= s);
    let before = space_pieces(s);
    assert(before.push(Seq::empty()).drop_last() =~= before);
}

/// No piece holds white space.
proof fn pieces_hold_no_space(s: Seq<char>)
    ensures
        forall|i: int, j: int|
            0 <= i < space_pieces(s).len() && 0 <= j < space_pieces(s)[i].len() ==> !is_space(
                #[trigger] space_pieces(s)[i][j],
            ),
    decreases s.len(),
{
    if s.len() > 0 {
        pieces_hold_no_space(s.drop_last());
        pieces_are_not_empty(s.drop_last());
        let before = space_pieces(s.drop_last());
        let now = space_pieces(s);
        assert forall|i: int, j: int| 0 <= i < now.len() && 0 <= j < now[i].len() implies !is_space(
            #[trigger] now[i][j],
        ) by {
            if i < before.len() - 1 {
                assert(now[i][j] == before[i][j]);
            } else if !is_space(s.last()) {
                if j < before.last().len() {
                    assert(now[i][j] == before[before.len() - 1][j]);
                }
            } else if i < before.len() {
                assert(now[i][j] == before[i][j]);
            }
        }
    }
}

/// Every token holds at least one character, and none that is white space.
pub proof fn tokens_are_words(s: Seq<char>)
    ensures
        forall|i: int| 0 <= i < tokenized(s).len() ==> (#[trigger] tokenized(s)[i]).len() > 0,
        forall|i: int, j: int|
            0 <= i < tokenized(s).len() && 0 <= j < tokenized(s)[i].len() ==> !is_space(
                #[trigger] tokenized(s)[i][j],
            ),
{
    let pieces = space_pieces(padded(s));
    let not_empty = |w: Seq<char>| w.len() > 0;
    pieces_hold_no_space(padded(s));
    assert forall|i: int| 0 <= i < tokenized(s).len() implies (#[trigger] tokenized(s)[i]).len() > 0
        && forall|j: int| 0 <= j < tokenized(s)[i].len() ==> !is_space(#[trigger] tokenized(s)[i][j]) by {
        pieces.lemma_filter_pred(not_empty, i);
        let token = tokenized(s)[i];
        assert(pieces.filter(not_empty).contains(token));
        pieces.lemma_filter_contains_rev(not_empty, token);
        let k = choose|k: int| 0 <= k < pieces.len() && pieces[k] == token;
        assert forall|j: int| 0 <= j < token.len() implies !is_space(#[trigger] token[j]) by {
            assert(token[j] == pieces[k][j]);
        }
    }
}

/// Cuts a query into its tokens.
pub fn tokenize(input: &str) -> (r: Vec<String>)
    ensures
        strings_view(r@) == tokenized(input@),
{
    let chars = chars_of(input);
    let n = chars.len();
    let mut out: Vec<String> = Vec::new();
    let ghost mut done: Seq<char> = Seq::empty();
    let mut start: usize = 0;
    let mut i: usize = 0;
    proof {
        reveal(Seq::filter);
        assert(input@.skip(0) =~= input@);
        assert(done + padded(input@.skip(0)) =~= padded(input@));
        assert(space_pieces(done).drop_last() =~= Seq::<Seq<char>>::empty());
        assert(input@.subrange(0, 0) =~= Seq::<char>::empty());
        assert(strings_view(out@) =~= Seq::<Seq<char>>::empty());
    }
    while i < n
        invariant
            chars@ == input@,
            n == chars.len(),
            start <= i <= n,
            padded(input@) == done + padded(input@.skip(i as int)),
            strings_view(out@) == words(space_pieces(done).drop_last()),
            space_pieces(done).last() == input@.subrange(start as int, i as int),
        decreases n - i,
    {
        let c = chars[i];
        let ghost rest = input@.skip(i as int);
        let ghost shown = strings_view(out@);
        proof {
            assert(rest[0] == c);
            assert(rest.len() == n - i);
        }
        let pair = i + 1 < n && (c == '>' || c == '<' || c == '!') && chars[i + 1] == '=';
        proof {
            if i + 1 < n {
                assert(rest[1] == chars@[i + 1]);
            }
            assert(pair == (rest.len() >= 2 && is_operator_pair(rest[0], rest[1])));
        }
        if pair || c == '(' || c == ')' || c == ',' {
            let width: usize = if pair {
                2
            } else {
                1
            };
            // the word before the mark
            if start < i {
                let word = input.substring_char(start, i).to_owned();
                out.push(word);
            }
            let ghost flushed = strings_view(out@);
            let mark = input.substring_char(i, i + width).to_owned();
            out.push(mark);
            proof {
                let d1 = done.push(' ');
                pieces_after_space(done, ' ');
                assert(flushed =~= words(space_pieces(d1).drop_last()));
                pieces_after_letter(d1, c);
                let d2 = d1.push(c);
                let d3 = if pair {
                    d2.push(chars@[i + 1])
                } else {
                    d2
                };
                if pair {
                    pieces_after_letter(d2, chars@[i + 1]);
                }
                assert(space_pieces(d3).drop_last() == space_pieces(d1).drop_last());
                assert(space_pieces(d3).last() =~= input@.subrange(i as int, i + width));
                let d4 = d3.push(' ');
                pieces_after_space(d3, ' ');
                assert(strings_view(out@) =~= flushed.push(mark@));
                assert(rest.skip(width as int) =~= input@.skip(i + width));
                if pair {
                    assert(d4 =~= done + seq![' ', rest[0], rest[1], ' ']);
                } else {
                    assert(d4 =~= done + seq![' ', rest[0], ' ']);
                }
                assert(padded(input@) =~= d4 + padded(input@.skip(i + width)));
                assert(input@.subrange(i + width, i + width) =~= Seq::<char>::empty());
                done = d4;
            }
            i = i + width;
            start = i;
        } else if space(c) {
            if start < i {
                let word = input.substring_char(start, i).to_owned();
                out.push(word);
            }
            proof {
                pieces_after_space(done, c);
                assert(rest.skip(1) =~= input@.skip(i + 1));
                assert(done.push(c) =~= done + seq![rest[0]]);
                assert(padded(input@) =~= done.push(c) + padded(input@.skip(i + 1)));
                assert(input@.subrange(i + 1, i + 1) =~= Seq::<char>::empty());
                if start < i {
                    assert(strings_view(out@) =~= shown.push(
                        input@.subrange(start as int, i as int),
                    ));
                }
                done = done.push(c);
            }
            i = i + 1;
            start = i;
        } else {
            proof {
                pieces_after_letter(done, c);
                assert(rest.skip(1) =~= input@.skip(i + 1));
                assert(done.push(c) =~= done + seq![rest[0]]);
                assert(padded(input@) =~= done.push(c) + padded(input@.skip(i + 1)));
                assert(input@.subrange(start as int, i + 1) =~= input@.subrange(
                    start as int,
                    i as int,
                ).push(c));
                done = done.push(c);
            }
            i = i + 1;
        }
    }
    let ghost shown = strings_view(out@);
    if start < i {
        let word = input.substring_char(start, i).to_owned();
        out.push(word);
    }
    proof {
        reveal(Seq::filter);
        assert(input@.skip(n as int) =~= Seq::<char>::empty());
        assert(done =~= padded(input@));
        pieces_are_not_empty(done);
        let pieces = space_pieces(done);
        assert(pieces =~= pieces.drop_last().push(pieces.last()));
        if start < i {
            assert(strings_view(out@) =~= shown.push(
                input@.subrange(start as int, i as int),
            ));
        }
    }
    out
}

} // verus!
