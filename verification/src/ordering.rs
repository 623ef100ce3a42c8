//! Putting rows in order by one of their fields.
use crate::ast::SortOrder;
use crate::number::{less, num_lt};
use crate::row::{rows_view, rows_view_insert, rows_view_remove, Row, RowView, Value, ValueView};
use crate::text::{less_text, lex_less, lex_less_is_one_way};
use vstd::prelude::*;

verus! {

/// Whether `a` is above `b` by `field`: the greater of two numbers, the
/// later of two texts in the dictionary, and a row that has the field above
/// one that lacks it. In every other case neither row is above the other.
pub open spec fn above(a: RowView, b: RowView, field: Seq<char>) -> bool {
    if a.fields.contains_key(field) {
        if b.fields.contains_key(field) {
            match (a.fields[field], b.fields[field]) {
                (ValueView::Number(x), ValueView::Number(y)) => num_lt(y, x),
                (ValueView::Text(s), ValueView::Text(t)) => lex_less(t, s),
                _ => false,
            }
        } else {
            true
        }
    } else {
        false
    }
}

/// Whether `a` has to stand after `b` in the order asked for.
pub open spec fn comes_after(a: RowView, b: RowView, field: Seq<char>, order: SortOrder) -> bool {
    match order {
        SortOrder::Asc => above(a, b, field),
        SortOrder::Desc => above(b, a, field),
    }
}

/// An ordered list with one more row: the row stands behind the last row
/// that does not have to stand after it.
pub open spec fn inserted(rows: Seq<RowView>, row: RowView, field: Seq<char>, order: SortOrder) -> Seq<
    RowView,
>
    decreases rows.len(),
{
    if rows.len() == 0 || !comes_after(rows.last(), row, field, order) {
        rows.push(row)
    } else {
        inserted(rows.drop_last(), row, field, order).push(rows.last())
    }
}

/// The rows in the order asked for: each row in turn is put into the list
/// of those before it. Rows of which neither has to stand after the other
/// keep the order in which they came.
pub open spec fn ordered(rows: Seq<RowView>, field: Seq<char>, order: SortOrder) -> Seq<RowView>
    decreases rows.len(),
{
    if rows.len() == 0 {
        rows
    } else {
        inserted(ordered(rows.drop_last(), field, order), rows.last(), field, order)
    }
}

/// Tells whether `a` is above `b` by `field`.
fn is_above(a: &Row, b: &Row, field: &str) -> (r: bool)
    ensures
        r == above(a@, b@, field@),
{
    match (a.get(field), b.get(field)) {
        (Some(Value::Number(x)), Some(Value::Number(y))) => less(*y, *x),
        (Some(Value::Text(s)), Some(Value::Text(t))) => less_text(t.as_str(), s.as_str()),
        (Some(_), None) => true,
        _ => false,
    }
}

/// Tells whether `a` has to stand after `b`.
fn stands_after(a: &Row, b: &Row, field: &str, order: SortOrder) -> (r: bool)
    ensures
        r == comes_after(a@, b@, field@, order),
{
    match order {
        SortOrder::Asc => is_above(a, b, field),
        SortOrder::Desc => is_above(b, a, field),
    }
}

/// To put a row into an ordered list is to insert it at the place from
/// which on every row has to stand after it, and before which the next row
/// does not.
proof fn insertion_place(
    rows: Seq<RowView>,
    row: RowView,
    field: Seq<char>,
    order: SortOrder,
    place: int,
)
    requires
        0 <= place <= rows.len(),
        forall|k: int| place <= k < rows.len() ==> comes_after(#[trigger] rows[k], row, field, order),
        place > 0 ==> !comes_after(rows[place - 1], row, field, order),
    ensures
        inserted(rows, row, field, order) == rows.insert(place, row),
    decreases rows.len(),
{
    if place == rows.len() {
        assert(rows.insert(place, row) =~= rows.push(row));
    } else {
        assert(comes_after(rows[rows.len() - 1], row, field, order));
        let front = rows.drop_last();
        assert forall|k: int| place <= k < front.len() implies comes_after(
            #[trigger] front[k],
            row,
            field,
            order,
        ) by {
            assert(comes_after(rows[k], row, field, order));
        }
        insertion_place(front, row, field, order, place);
        assert(front.insert(place, row).push(rows.last()) =~= rows.insert(place, row));
    }
}

/// Puts `rows` into the order asked for.
pub fn sort_rows(rows: &mut Vec<Row>, field: &str, order: SortOrder)
    ensures
        rows_view(final(rows)@) == ordered(rows_view(old(rows)@), field@, order),
{
    let ghost start = rows_view(rows@);
    let mut i: usize = 0;
    proof {
        assert(start.take(0) =~= Seq::<RowView>::empty());
        assert(ordered(start.take(0), field@, order) + start.skip(0) =~= start);
    }
    while i < rows.len()
        invariant
            i <= rows.len(),
            rows.len() == start.len(),
            rows_view(rows@) == ordered(start.take(i as int), field@, order) + start.skip(i as int),
            ordered(start.take(i as int), field@, order).len() == i,
        decreases rows.len() - i,
    {
        let ghost before = rows_view(rows@);
        let ghost head = ordered(start.take(i as int), field@, order);
        let ghost whole = rows@;
        let row = rows.remove(i);
        proof {
            rows_view_remove(whole, i as int);
            assert(row@ == before[i as int]);
            assert(before[i as int] == start[i as int]);
            assert(rows_view(rows@) =~= head + start.skip(i + 1));
        }
        let mut j: usize = i;
        while j > 0 && stands_after(&rows[j - 1], &row, field, order)
            invariant
                j <= i,
                i <= rows.len(),
                rows_view(rows@) == head + start.skip(i + 1),
                head.len() == i,
                forall|k: int| j <= k < i ==> comes_after(#[trigger] head[k], row@, field@, order),
            decreases j,
        {
            proof {
                assert(rows_view(rows@)[j - 1] == head[j - 1]);
            }
            j -= 1;
        }
        proof {
            if j > 0 {
                assert(rows_view(rows@)[j - 1] == head[j - 1]);
            }
            insertion_place(head, row@, field@, order, j as int);
        }
        let ghost rest = rows@;
        rows.insert(j, row);
        proof {
            rows_view_insert(rest, j as int, row);
            let upto = start.take(i + 1);
            assert(upto.drop_last() =~= start.take(i as int));
            assert(upto.last() == start[i as int]);
            assert(ordered(upto, field@, order) == head.insert(j as int, row@));
            assert(rows_view(rows@) =~= head.insert(j as int, row@) + start.skip(i + 1));
        }
        i += 1;
    }
    proof {
        assert(start.take(i as int) =~= start);
        assert(start.skip(i as int) =~= Seq::<RowView>::empty());
        assert(rows_view(rows@) =~= ordered(start, field@, order));
    }
}

/// Of two rows at most one has to stand after the other.
pub proof fn order_is_one_way(a: RowView, b: RowView, field: Seq<char>, order: SortOrder)
    ensures
        !(comes_after(a, b, field, order) && comes_after(b, a, field, order)),
{
    if a.fields.contains_key(field) && b.fields.contains_key(field) {
        match (a.fields[field], b.fields[field]) {
            (ValueView::Text(s), ValueView::Text(t)) => {
                lex_less_is_one_way(s, t);
            },
            _ => {},
        }
    }
}

/// Whether no row of a list has to stand after the row that follows it.
pub open spec fn in_order(rows: Seq<RowView>, field: Seq<char>, order: SortOrder) -> bool {
    forall|i: int|
        0 <= i < rows.len() - 1 ==> !comes_after(#[trigger] rows[i], rows[i + 1], field, order)
}

/// A list in order stays in order when a row is put into it, holds the
/// rows it held and the new one, and ends with the new row or as before.
pub proof fn inserted_keeps_order(
    rows: Seq<RowView>,
    row: RowView,
    field: Seq<char>,
    order: SortOrder,
)
    requires
        in_order(rows, field, order),
    ensures
        in_order(inserted(rows, row, field, order), field, order),
        inserted(rows, row, field, order).len() == rows.len() + 1,
        inserted(rows, row, field, order).to_multiset() == rows.to_multiset().insert(row),
        inserted(rows, row, field, order).last() == row || (rows.len() > 0 && inserted(
            rows,
            row,
            field,
            order,
        ).last() == rows.last()),
    decreases rows.len(),
{
    broadcast use vstd::seq_lib::to_multiset_build;

    let out = inserted(rows, row, field, order);
    if rows.len() == 0 || !comes_after(rows.last(), row, field, order) {
        assert forall|i: int| 0 <= i < out.len() - 1 implies !comes_after(
            #[trigger] out[i],
            out[i + 1],
            field,
            order,
        ) by {
            if i < rows.len() - 1 {
                assert(out[i] == rows[i] && out[i + 1] == rows[i + 1]);
            }
        }
    } else {
        let front = rows.drop_last();
        assert forall|i: int| 0 <= i < front.len() - 1 implies !comes_after(
            #[trigger] front[i],
            front[i + 1],
            field,
            order,
        ) by {
            assert(front[i] == rows[i] && front[i + 1] == rows[i + 1]);
        }
        inserted_keeps_order(front, row, field, order);
        let inner = inserted(front, row, field, order);
        order_is_one_way(rows.last(), row, field, order);
        assert forall|i: int| 0 <= i < out.len() - 1 implies !comes_after(
            #[trigger] out[i],
            out[i + 1],
            field,
            order,
        ) by {
            if i < inner.len() - 1 {
                assert(out[i] == inner[i] && out[i + 1] == inner[i + 1]);
            } else {
                assert(out[i] == inner.last());
                assert(out[i + 1] == rows.last());
                if inner.last() != row {
                    assert(front.last() == rows[rows.len() - 2]);
                }
            }
        }
        assert(rows =~= front.push(rows.last()));
        assert(inner.push(rows.last()).to_multiset() =~= rows.to_multiset().insert(row));
    }
}

/// The ordered list is in order, and holds the rows of the list it came
/// from, each as often as that list does.
pub proof fn ordered_is_in_order(rows: Seq<RowView>, field: Seq<char>, order: SortOrder)
    ensures
        in_order(ordered(rows, field, order), field, order),
        ordered(rows, field, order).len() == rows.len(),
        ordered(rows, field, order).to_multiset() == rows.to_multiset(),
    decreases rows.len(),
{
    broadcast use vstd::seq_lib::to_multiset_build;

    if rows.len() > 0 {
        ordered_is_in_order(rows.drop_last(), field, order);
        inserted_keeps_order(ordered(rows.drop_last(), field, order), rows.last(), field, order);
        assert(rows =~= rows.drop_last().push(rows.last()));
    }
}

/// Where the rows of the ordered list came from: the place in `rows` of the
/// row that stands first, of the row that stands second, and so on.
pub open spec fn ordered_places(rows: Seq<RowView>, field: Seq<char>, order: SortOrder) -> Seq<int>
    decreases rows.len(),
{
    if rows.len() == 0 {
        Seq::empty()
    } else {
        inserted_place(
            ordered_places(rows.drop_last(), field, order),
            rows,
            rows.len() - 1,
            field,
            order,
        )
    }
}

/// The places of an ordered list with the row at `place` put into it.
pub open spec fn inserted_place(
    places: Seq<int>,
    rows: Seq<RowView>,
    place: int,
    field: Seq<char>,
    order: SortOrder,
) -> Seq<int>
    decreases places.len(),
{
    if places.len() == 0 || !comes_after(rows[places.last()], rows[place], field, order) {
        places.push(place)
    } else {
        inserted_place(places.drop_last(), rows, place, field, order).push(places.last())
    }
}

/// Whether `places` names places of `rows` below `bound`, none of them
/// twice, and no row stands before a row that came earlier unless the
/// earlier row has to stand after it.
pub open spec fn is_stable(
    places: Seq<int>,
    rows: Seq<RowView>,
    bound: int,
    field: Seq<char>,
    order: SortOrder,
) -> bool {
    &&& forall|k: int| 0 <= k < places.len() ==> 0 <= #[trigger] places[k] < bound
    &&& forall|k: int, l: int|
        0 <= k < l < places.len() ==> #[trigger] places[k] != #[trigger] places[l]
    &&& forall|k: int, l: int|
        0 <= k < l < places.len() && #[trigger] places[k] > #[trigger] places[l] ==> comes_after(
            rows[places[l]],
            rows[places[k]],
            field,
            order,
        )
}

/// Where the row at `place` goes into the places of an ordered list:
/// before the run of rows at the list's end that have to stand after it.
pub open spec fn insertion_index(
    places: Seq<int>,
    rows: Seq<RowView>,
    place: int,
    field: Seq<char>,
    order: SortOrder,
) -> int
    decreases places.len(),
{
    if places.len() == 0 || !comes_after(rows[places.last()], rows[place], field, order) {
        places.len() as int
    } else {
        insertion_index(places.drop_last(), rows, place, field, order)
    }
}

/// To put a row into the places of an ordered list is to insert its place
/// at the insertion index, and every row from there on has to stand after
/// it.
proof fn inserted_place_is_an_insertion(
    places: Seq<int>,
    rows: Seq<RowView>,
    place: int,
    field: Seq<char>,
    order: SortOrder,
)
    ensures
        0 <= insertion_index(places, rows, place, field, order) <= places.len(),
        inserted_place(places, rows, place, field, order) == places.insert(
            insertion_index(places, rows, place, field, order),
            place,
        ),
        forall|k: int|
            insertion_index(places, rows, place, field, order) <= k < places.len() ==> comes_after(
                rows[#[trigger] places[k]],
                rows[place],
                field,
                order,
            ),
    decreases places.len(),
{
    let at = insertion_index(places, rows, place, field, order);
    if places.len() == 0 || !comes_after(rows[places.last()], rows[place], field, order) {
        assert(places.push(place) =~= places.insert(at, place));
    } else {
        let front = places.drop_last();
        inserted_place_is_an_insertion(front, rows, place, field, order);
        assert(front.insert(at, place).push(places.last()) =~= places.insert(at, place));
        assert forall|k: int| at <= k < places.len() implies comes_after(
            rows[#[trigger] places[k]],
            rows[place],
            field,
            order,
        ) by {
            if k < front.len() {
                assert(places[k] == front[k]);
            }
        }
    }
}

/// Stable places stay stable when a place beyond all of them is inserted
/// before rows that all have to stand after its row.
proof fn insertion_keeps_stable(
    places: Seq<int>,
    rows: Seq<RowView>,
    place: int,
    at: int,
    field: Seq<char>,
    order: SortOrder,
)
    requires
        is_stable(places, rows, place, field, order),
        0 <= place,
        0 <= at <= places.len(),
        forall|k: int|
            at <= k < places.len() ==> comes_after(
                rows[#[trigger] places[k]],
                rows[place],
                field,
                order,
            ),
    ensures
        is_stable(places.insert(at, place), rows, place + 1, field, order),
{
    let out = places.insert(at, place);
    assert(out.len() == places.len() + 1);
    assert forall|k: int| 0 <= k < out.len() implies 0 <= #[trigger] out[k] < place + 1 by {
        if k < at {
            assert(out[k] == places[k]);
        } else if k > at {
            assert(out[k] == places[k - 1]);
        }
    }
    assert forall|k: int, l: int| 0 <= k < l < out.len() implies #[trigger] out[k]
        != #[trigger] out[l] by {
        let a = if k < at { k } else { k - 1 };
        let b = if l < at { l } else { l - 1 };
        if k != at {
            assert(out[k] == places[a]);
        }
        if l != at {
            assert(out[l] == places[b]);
        }
    }
    assert forall|k: int, l: int|
        0 <= k < l < out.len() && #[trigger] out[k] > #[trigger] out[l] implies comes_after(
        rows[out[l]],
        rows[out[k]],
        field,
        order,
    ) by {
        let a = if k < at { k } else { k - 1 };
        let b = if l < at { l } else { l - 1 };
        if k != at {
            assert(out[k] == places[a]);
        }
        if l != at {
            assert(out[l] == places[b]);
        }
        if k == at {
            assert(comes_after(rows[places[b]], rows[place], field, order));
        }
    }
}

/// The ordered list holds the rows at their places, in the places' order.
proof fn inserted_follows_places(
    list: Seq<RowView>,
    places: Seq<int>,
    rows: Seq<RowView>,
    place: int,
    field: Seq<char>,
    order: SortOrder,
)
    requires
        list.len() == places.len(),
        forall|k: int| 0 <= k < list.len() ==> #[trigger] list[k] == rows[places[k]],
    ensures
        inserted(list, rows[place], field, order).len() == inserted_place(
            places,
            rows,
            place,
            field,
            order,
        ).len(),
        forall|k: int|
            0 <= k < list.len() + 1 ==> #[trigger] inserted(list, rows[place], field, order)[k]
                == rows[inserted_place(places, rows, place, field, order)[k]],
        inserted(list, rows[place], field, order).len() == list.len() + 1,
    decreases list.len(),
{
    if list.len() > 0 {
        assert(list.last() == rows[places.last()]);
        if comes_after(list.last(), rows[place], field, order) {
            let front = list.drop_last();
            let front_places = places.drop_last();
            assert forall|k: int| 0 <= k < front.len() implies #[trigger] front[k]
                == rows[front_places[k]] by {
                assert(list[k] == rows[places[k]]);
            }
            inserted_follows_places(front, front_places, rows, place, field, order);
        }
    }
}

/// Ordering is stable. The ordered list holds every row of the list it
/// came from once, at the places that [`ordered_places`] names; and a row
/// stands before a row that came earlier only where the earlier row has to
/// stand after it: rows of which neither has to stand after the other keep
/// the order in which they came.
pub proof fn ordering_is_stable(rows: Seq<RowView>, field: Seq<char>, order: SortOrder)
    ensures
        ordered_places(rows, field, order).len() == rows.len(),
        ordered(rows, field, order).len() == rows.len(),
        forall|k: int|
            0 <= k < rows.len() ==> #[trigger] ordered(rows, field, order)[k]
                == rows[ordered_places(rows, field, order)[k]],
        is_stable(ordered_places(rows, field, order), rows, rows.len() as int, field, order),
    decreases rows.len(),
{
    if rows.len() > 0 {
        let front = rows.drop_last();
        let place = rows.len() - 1;
        ordering_is_stable(front, field, order);
        let places = ordered_places(front, field, order);
        let list = ordered(front, field, order);
        assert forall|k: int| 0 <= k < places.len() implies rows[#[trigger] places[k]]
            == front[places[k]] by {}
        assert forall|k: int, l: int|
            0 <= k < l < places.len() && #[trigger] places[k] > #[trigger] places[l] implies comes_after(
            rows[places[l]],
            rows[places[k]],
            field,
            order,
        ) by {
            assert(rows[places[k]] == front[places[k]]);
            assert(rows[places[l]] == front[places[l]]);
        }
        assert(is_stable(places, rows, place, field, order));
        inserted_place_is_an_insertion(places, rows, place, field, order);
        insertion_keeps_stable(
            places,
            rows,
            place,
            insertion_index(places, rows, place, field, order),
            field,
            order,
        );
        assert forall|k: int| 0 <= k < list.len() implies #[trigger] list[k] == rows[places[k]] by {
            assert(list[k] == front[places[k]]);
        }
        inserted_follows_places(list, places, rows, place, field, order);
        assert(rows.last() == rows[place]);
    }
}

} // verus!
