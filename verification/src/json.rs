//! JSON values as plain data: what a tool's input schema and annotations are.
use vstd::prelude::*;

verus! {

broadcast use vstd::seq_lib::group_seq_properties, vstd::std_specs::vec::group_vec_axioms;

/// A JSON value. A number is held as its JSON text; an object as its entries
/// in order.
#[derive(Debug, PartialEq)]
pub enum JsonValue {
    Null,
    Bool(bool),
    Number(String),
    String(String),
    Array(Vec<JsonValue>),
    Object(Vec<(String, JsonValue)>),
}

pub enum JsonView {
    Null,
    Bool(bool),
    Number(Seq<char>),
    String(Seq<char>),
    Array(Seq<JsonView>),
    Object(Seq<(Seq<char>, JsonView)>),
}

pub open spec fn json_view(v: JsonValue) -> JsonView
    decreases v, 0nat,
{
    match v {
        JsonValue::Null => JsonView::Null,
        JsonValue::Bool(b) => JsonView::Bool(b),
        JsonValue::Number(n) => JsonView::Number(n@),
        JsonValue::String(s) => JsonView::String(s@),
        JsonValue::Array(items) => JsonView::Array(items_view(items, items.len() as int)),
        JsonValue::Object(entries) => JsonView::Object(entries_view(entries, entries.len() as int)),
    }
}

/// The views of the first `n` items.
pub open spec fn items_view(items: Vec<JsonValue>, n: int) -> Seq<JsonView>
    decreases items, n,
{
    if n <= 0 || n > items.len() {
        seq![]
    } else {
        items_view(items, n - 1).push(json_view(items[n - 1]))
    }
}

/// The views of the first `n` entries.
pub open spec fn entries_view(entries: Vec<(String, JsonValue)>, n: int) -> Seq<(Seq<char>, JsonView)>
    decreases entries, n,
{
    if n <= 0 || n > entries.len() {
        seq![]
    } else {
        proof {
            assert(decreases_to!(entries => entries[n - 1]));
        }
        entries_view(entries, n - 1).push((entries[n - 1].0@, json_view(entries[n - 1].1)))
    }
}

impl View for JsonValue {
    type V = JsonView;

    open spec fn view(&self) -> JsonView {
        json_view(*self)
    }
}

pub proof fn lemma_items_view(items: Vec<JsonValue>, n: int)
    requires
        0 <= n <= items.len(),
    ensures
        items_view(items, n).len() == n,
        forall|i: int| 0 <= i < n ==> #[trigger] items_view(items, n)[i] == json_view(items[i]),
    decreases n,
{
    if n > 0 {
        lemma_items_view(items, n - 1);
    }
}

pub proof fn lemma_entries_view(entries: Vec<(String, JsonValue)>, n: int)
    requires
        0 <= n <= entries.len(),
    ensures
        entries_view(entries, n).len() == n,
        forall|i: int|
            0 <= i < n ==> #[trigger] entries_view(entries, n)[i] == (
                entries[i].0@,
                json_view(entries[i].1),
            ),
    decreases n,
{
    if n > 0 {
        lemma_entries_view(entries, n - 1);
    }
}

/// A copy of a JSON value.
pub fn copy_json(v: &JsonValue) -> (r: JsonValue)
    ensures
        r@ == v@,
    decreases v,
{
    match v {
        JsonValue::Null => JsonValue::Null,
        JsonValue::Bool(b) => JsonValue::Bool(*b),
        JsonValue::Number(n) => JsonValue::Number(n.clone()),
        JsonValue::String(s) => JsonValue::String(s.clone()),
        JsonValue::Array(items) => {
            let mut out: Vec<JsonValue> = Vec::new();
            let mut i: usize = 0;
            while i < items.len()
                invariant
                    *v == JsonValue::Array(*items),
                    i <= items.len(),
                    out.len() == i,
                    forall|j: int| 0 <= j < i ==> json_view(#[trigger] out[j]) == json_view(items[j]),
                decreases items.len() - i,
            {
                proof {
                    assert(decreases_to!(*v => (*v)->Array_0));
                    assert(decreases_to!(*items => items[i as int]));
                }
                let c = copy_json(&items[i]);
                out.push(c);
                i = i + 1;
            }
            proof {
                lemma_items_view(*items, items.len() as int);
                lemma_items_view(out, out.len() as int);
                assert(items_view(out, out.len() as int) =~= items_view(*items, items.len() as int));
            }
            JsonValue::Array(out)
        },
        JsonValue::Object(entries) => {
            let mut out: Vec<(String, JsonValue)> = Vec::new();
            let mut i: usize = 0;
            while i < entries.len()
                invariant
                    *v == JsonValue::Object(*entries),
                    i <= entries.len(),
                    out.len() == i,
                    forall|j: int|
                        0 <= j < i ==> (#[trigger] out[j]).0@ == entries[j].0@ && json_view(
                            out[j].1,
                        ) == json_view(entries[j].1),
                decreases entries.len() - i,
            {
                proof {
                    assert(decreases_to!(*v => (*v)->Object_0));
                    assert(decreases_to!(*entries => entries[i as int]));
                    assert(decreases_to!(entries[i as int] => entries[i as int].1));
                }
                let c = copy_json(&entries[i].1);
                out.push((entries[i].0.clone(), c));
                i = i + 1;
            }
            proof {
                lemma_entries_view(*entries, entries.len() as int);
                lemma_entries_view(out, out.len() as int);
                assert(entries_view(out, out.len() as int) =~= entries_view(
                    *entries,
                    entries.len() as int,
                ));
            }
            JsonValue::Object(out)
        },
    }
}

impl Clone for JsonValue {
    fn clone(&self) -> (r: Self)
        ensures
            r@ == self@,
    {
        copy_json(self)
    }
}

/// A JSON string with the text `s`.
pub fn json_string(s: String) -> (r: JsonValue)
    ensures
        r@ == JsonView::String(s@),
{
    JsonValue::String(s)
}

/// A JSON array of the given strings.
pub fn json_string_array(items: &Vec<String>) -> (r: JsonValue)
    ensures
        r@ == JsonView::Array(items@.map_values(|s: String| JsonView::String(s@))),
{
    let mut out: Vec<JsonValue> = Vec::new();
    let mut i: usize = 0;
    while i < items.len()
        invariant
            i <= items.len(),
            out.len() == i,
            forall|j: int| 0 <= j < i ==> json_view(#[trigger] out[j]) == JsonView::String(items@[j]@),
        decreases items.len() - i,
    {
        out.push(JsonValue::String(items[i].clone()));
        i = i + 1;
    }
    proof {
        lemma_items_view(out, out.len() as int);
        assert(items_view(out, out.len() as int) =~= items@.map_values(
            |s: String| JsonView::String(s@),
        ));
    }
    JsonValue::Array(out)
}

/// A JSON object of the given entries, in order.
pub fn json_object(entries: Vec<(String, JsonValue)>) -> (r: JsonValue)
    ensures
        r@ == JsonView::Object(entries@.map_values(|e: (String, JsonValue)| (e.0@, e.1@))),
{
    proof {
        lemma_entries_view(entries, entries.len() as int);
        assert(entries_view(entries, entries.len() as int) =~= entries@.map_values(
            |e: (String, JsonValue)| (e.0@, e.1@),
        ));
    }
    JsonValue::Object(entries)
}

} // verus!
