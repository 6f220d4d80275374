//! The values that the value parser builds.

use vstd::prelude::*;

verus! {

/// A parsed value.
///
/// A number is kept as the decimal text that stood in the input, so that
/// nothing of it is lost. An object keeps its entries in the order of the
/// input, repeated keys included.
#[derive(Debug, PartialEq)]
pub enum JsonValue {
    Null,
    Bool(bool),
    Number(String),
    String(String),
    Array(Vec<JsonValue>),
    Object(Vec<(String, JsonValue)>),
}

/// A [`JsonValue`] as contracts speak of it.
pub ghost enum Json {
    Null,
    Bool(bool),
    Number(Seq<char>),
    Text(Seq<char>),
    Array(Seq<Json>),
    Object(Seq<(Seq<char>, Json)>),
}

impl View for JsonValue {
    type V = Json;

    open spec fn view(&self) -> Json
        decreases self,
    {
        match self {
            JsonValue::Null => Json::Null,
            JsonValue::Bool(b) => Json::Bool(*b),
            JsonValue::Number(text) => Json::Number(text@),
            JsonValue::String(text) => Json::Text(text@),
            JsonValue::Array(items) => Json::Array(item_views(items@)),
            JsonValue::Object(entries) => Json::Object(entry_views(entries@)),
        }
    }
}

/// The views of a list of values, in order.
pub open spec fn item_views(items: Seq<JsonValue>) -> Seq<Json>
    decreases items,
{
    if items.len() == 0 {
        Seq::empty()
    } else {
        item_views(items.drop_last()).push(items.last()@)
    }
}

/// The views of a list of entries, in order.
pub open spec fn entry_views(entries: Seq<(String, JsonValue)>) -> Seq<(Seq<char>, Json)>
    decreases entries,
{
    if entries.len() == 0 {
        Seq::empty()
    } else {
        entry_views(entries.drop_last()).push((entries.last().0@, entries.last().1@))
    }
}

/// [`item_views`] keeps the length and views item by item.
pub proof fn lemma_item_views(items: Seq<JsonValue>)
    ensures
        item_views(items).len() == items.len(),
        forall|i: int| 0 <= i < items.len() ==> #[trigger] item_views(items)[i] == items[i]@,
    decreases items.len(),
{
    if items.len() > 0 {
        lemma_item_views(items.drop_last());
        assert(item_views(items) == item_views(items.drop_last()).push(items.last()@));
    } else {
        assert(item_views(items) == Seq::<Json>::empty());
    }
}

/// [`entry_views`] keeps the length and views entry by entry.
pub proof fn lemma_entry_views(entries: Seq<(String, JsonValue)>)
    ensures
        entry_views(entries).len() == entries.len(),
        forall|i: int|
            0 <= i < entries.len() ==> #[trigger] entry_views(entries)[i] == (
                entries[i].0@,
                entries[i].1@,
            ),
    decreases entries.len(),
{
    if entries.len() > 0 {
        lemma_entry_views(entries.drop_last());
        assert(entry_views(entries) == entry_views(entries.drop_last()).push(
            (entries.last().0@, entries.last().1@),
        ));
    } else {
        assert(entry_views(entries) == Seq::<(Seq<char>, Json)>::empty());
    }
}

impl Clone for JsonValue {
    fn clone(&self) -> (copy: Self)
        ensures
            copy@ == self@,
        decreases self,
    {
        match self {
            JsonValue::Null => JsonValue::Null,
            JsonValue::Bool(b) => JsonValue::Bool(*b),
            JsonValue::Number(text) => JsonValue::Number(text.clone()),
            JsonValue::String(text) => JsonValue::String(text.clone()),
            JsonValue::Array(items) => {
                let mut copies: Vec<JsonValue> = Vec::new();
                let mut i: usize = 0;
                assert(items@.take(0) == Seq::<JsonValue>::empty());
                while i < items.len()
                    invariant
                        i <= items@.len(),
                        *self == JsonValue::Array(*items),
                        item_views(copies@) == item_views(items@.take(i as int)),
                    decreases items@.len() - i,
                {
                    assert(decreases_to!(*self => self->Array_0));
                    assert(decreases_to!(*items => items[i as int]));
                    let copy = items[i].clone();
                    proof {
                        assert(copies@.push(copy).drop_last() == copies@);
                        assert(items@.take(i + 1).drop_last() == items@.take(i as int));
                        assert(item_views(copies@.push(copy)) == item_views(copies@).push(copy@));
                        assert(item_views(items@.take(i + 1)) == item_views(
                            items@.take(i as int),
                        ).push(items@[i as int]@));
                    }
                    copies.push(copy);
                    i += 1;
                }
                assert(items@.take(i as int) == items@);
                JsonValue::Array(copies)
            },
            JsonValue::Object(entries) => {
                let mut copies: Vec<(String, JsonValue)> = Vec::new();
                let mut i: usize = 0;
                assert(entries@.take(0) == Seq::<(String, JsonValue)>::empty());
                while i < entries.len()
                    invariant
                        i <= entries@.len(),
                        *self == JsonValue::Object(*entries),
                        entry_views(copies@) == entry_views(entries@.take(i as int)),
                    decreases entries@.len() - i,
                {
                    let key = entries[i].0.clone();
                    assert(decreases_to!(*self => self->Object_0));
                    assert(decreases_to!(*entries => entries[i as int]));
                    assert(decreases_to!(entries[i as int] => entries[i as int].1));
                    let value = entries[i].1.clone();
                    proof {
                        let copy = (key, value);
                        assert(copies@.push(copy).drop_last() == copies@);
                        assert(entries@.take(i + 1).drop_last() == entries@.take(i as int));
                        assert(entry_views(copies@.push(copy)) == entry_views(copies@).push(
                            (key@, value@),
                        ));
                        assert(entry_views(entries@.take(i + 1)) == entry_views(
                            entries@.take(i as int),
                        ).push((entries@[i as int].0@, entries@[i as int].1@)));
                    }
                    copies.push((key, value));
                    i += 1;
                }
                assert(entries@.take(i as int) == entries@);
                JsonValue::Object(copies)
            },
        }
    }
}

} // verus!
