//! JSON values, and how they are normalized: every member of an object
//! whose value is `null` is left out, at every depth.
use vstd::prelude::*;

verus! {

/// A JSON value. A number is held as it is written; the members of an
/// object are held in their order.
#[derive(Debug, PartialEq, Eq)]
pub enum Json {
    Null,
    Bool(bool),
    Number(String),
    Text(String),
    Array(Vec<Json>),
    Object(Vec<(String, Json)>),
}

/// What a [`Json`] holds.
pub enum JsonView {
    Null,
    Bool(bool),
    Number(Seq<char>),
    Text(Seq<char>),
    Array(Seq<JsonView>),
    Object(Seq<(Seq<char>, JsonView)>),
}

/// What a JSON value holds, node by node.
pub open spec fn json_view(value: Json) -> JsonView
    decreases value,
{
    match value {
        Json::Null => JsonView::Null,
        Json::Bool(b) => JsonView::Bool(b),
        Json::Number(n) => JsonView::Number(n@),
        Json::Text(t) => JsonView::Text(t@),
        Json::Array(items) => JsonView::Array(items_view(items@)),
        Json::Object(members) => JsonView::Object(members_view(members@)),
    }
}

/// What a list of JSON values holds.
pub open spec fn items_view(items: Seq<Json>) -> Seq<JsonView>
    decreases items,
{
    if items.len() == 0 {
        Seq::empty()
    } else {
        items_view(items.drop_last()).push(json_view(items.last()))
    }
}

/// What a list of members holds.
pub open spec fn members_view(members: Seq<(String, Json)>) -> Seq<(Seq<char>, JsonView)>
    decreases members,
{
    if members.len() == 0 {
        Seq::empty()
    } else {
        members_view(members.drop_last()).push((members.last().0@, json_view(members.last().1)))
    }
}

impl View for Json {
    type V = JsonView;

    open spec fn view(&self) -> JsonView {
        json_view(*self)
    }
}

/// The value without the members that are `null`: an object keeps its
/// other members, each normalized; an array keeps all its items, each
/// normalized, `null` items too; any other value is left as it is.
pub open spec fn normalized(value: JsonView) -> JsonView
    decreases value,
{
    match value {
        JsonView::Array(items) => JsonView::Array(normalized_items(items)),
        JsonView::Object(members) => JsonView::Object(normalized_members(members)),
        other => other,
    }
}

/// The items of an array, each normalized.
pub open spec fn normalized_items(items: Seq<JsonView>) -> Seq<JsonView>
    decreases items,
{
    if items.len() == 0 {
        Seq::empty()
    } else {
        normalized_items(items.drop_last()).push(normalized(items.last()))
    }
}

/// The members of an object that are not `null`, each normalized.
pub open spec fn normalized_members(members: Seq<(Seq<char>, JsonView)>) -> Seq<
    (Seq<char>, JsonView),
>
    decreases members,
{
    if members.len() == 0 {
        Seq::empty()
    } else if members.last().1 is Null {
        normalized_members(members.drop_last())
    } else {
        normalized_members(members.drop_last()).push(
            (members.last().0, normalized(members.last().1)),
        )
    }
}

/// Normalizes a JSON value.
pub fn normalize(value: &Json) -> (r: Json)
    ensures
        r@ == normalized(value@),
    decreases value,
{
    match value {
        Json::Null => Json::Null,
        Json::Bool(b) => Json::Bool(*b),
        Json::Number(n) => Json::Number(n.clone()),
        Json::Text(t) => Json::Text(t.clone()),
        Json::Array(items) => {
            let mut out: Vec<Json> = Vec::new();
            let mut i: usize = 0;
            assert(items@.take(0) =~= Seq::<Json>::empty());
            while i < items.len()
                invariant
                    i <= items.len(),
                    value == Json::Array(*items),
                    items_view(out@) == normalized_items(items_view(items@.take(i as int))),
                decreases items.len() - i,
            {
                let ghost before = out@;
                let ghost upto = items@.take(i + 1);
                proof {
                    assert(upto.drop_last() =~= items@.take(i as int));
                    assert(upto.last() == items@[i as int]);
                    assert(items_view(upto).drop_last() =~= items_view(upto.drop_last()));
                    assert(items_view(upto).last() == json_view(items@[i as int]));
                    vstd::std_specs::vec::axiom_vec_index_decreases(*items, i as int);
                    assert(*value is Array && value->Array_0 == *items);
                    assert(decreases_to!(*value => value->Array_0));
                }
                let item = normalize(&items[i]);
                out.push(item);
                proof {
                    assert(out@.drop_last() =~= before);
                }
                i += 1;
            }
            assert(items@.take(i as int) =~= items@);
            Json::Array(out)
        },
        Json::Object(members) => {
            let mut out: Vec<(String, Json)> = Vec::new();
            let mut i: usize = 0;
            assert(members@.take(0) =~= Seq::<(String, Json)>::empty());
            while i < members.len()
                invariant
                    i <= members.len(),
                    value == Json::Object(*members),
                    members_view(out@) == normalized_members(
                        members_view(members@.take(i as int)),
                    ),
                decreases members.len() - i,
            {
                let ghost before = out@;
                let ghost upto = members@.take(i + 1);
                proof {
                    assert(upto.drop_last() =~= members@.take(i as int));
                    assert(upto.last() == members@[i as int]);
                    assert(members_view(upto).drop_last() =~= members_view(upto.drop_last()));
                    assert(members_view(upto).last() == (
                        members@[i as int].0@,
                        json_view(members@[i as int].1),
                    ));
                    vstd::std_specs::vec::axiom_vec_index_decreases(*members, i as int);
                    assert(*value is Object && value->Object_0 == *members);
                    assert(decreases_to!(*value => value->Object_0));
                    assert(decreases_to!(members@[i as int] => members@[i as int].1));
                }
                let member = &members[i];
                match &member.1 {
                    Json::Null => {},
                    other => {
                        let kept = normalize(other);
                        out.push((member.0.clone(), kept));
                        proof {
                            assert(out@.drop_last() =~= before);
                        }
                    },
                }
                i += 1;
            }
            assert(members@.take(i as int) =~= members@);
            Json::Object(out)
        },
    }
}

/// Normalizing takes every `null` member away, so to normalize once more
/// changes nothing.
pub proof fn normalized_twice_is_normalized(value: JsonView)
    ensures
        normalized(normalized(value)) == normalized(value),
    decreases value,
{
    match value {
        JsonView::Array(items) => {
            normalized_items_twice(items);
        },
        JsonView::Object(members) => {
            normalized_members_twice(members);
        },
        _ => {},
    }
}

/// [`normalized_twice_is_normalized`], of the items of an array.
pub proof fn normalized_items_twice(items: Seq<JsonView>)
    ensures
        normalized_items(normalized_items(items)) == normalized_items(items),
    decreases items,
{
    if items.len() > 0 {
        normalized_items_twice(items.drop_last());
        normalized_twice_is_normalized(items.last());
        let once = normalized_items(items);
        assert(once.drop_last() =~= normalized_items(items.drop_last()));
    }
}

/// [`normalized_twice_is_normalized`], of the members of an object.
pub proof fn normalized_members_twice(members: Seq<(Seq<char>, JsonView)>)
    ensures
        normalized_members(normalized_members(members)) == normalized_members(members),
    decreases members,
{
    if members.len() > 0 {
        normalized_members_twice(members.drop_last());
        normalized_twice_is_normalized(members.last().1);
        if !(members.last().1 is Null) {
            let once = normalized_members(members);
            assert(once.drop_last() =~= normalized_members(members.drop_last()));
            assert(!(normalized(members.last().1) is Null));
        }
    }
}

} // verus!
