use vstd::prelude::*;
use crate::sorting::same_text;

verus! {

/// A value of the game data files.
pub enum JsonValue {
    Null,
    Bool(bool),
    /// A number, as decimal text.
    Number(String),
    Text(String),
    Array(Vec<JsonValue>),
    Object(Vec<(String, JsonValue)>),
}

/// What a value holds.
pub ghost enum JsonView {
    Null,
    Bool(bool),
    Number(Seq<char>),
    Text(Seq<char>),
    Array(Seq<JsonView>),
    Object(Seq<(Seq<char>, JsonView)>),
}

pub open spec fn json_view(v: JsonValue) -> JsonView
    decreases v,
{
    match v {
        JsonValue::Null => JsonView::Null,
        JsonValue::Bool(b) => JsonView::Bool(b),
        JsonValue::Number(n) => JsonView::Number(n@),
        JsonValue::Text(t) => JsonView::Text(t@),
        JsonValue::Array(items) => JsonView::Array(array_view(items@, items@.len())),
        JsonValue::Object(fields) => JsonView::Object(fields_view(fields@, fields@.len())),
    }
}

pub open spec fn array_view(items: Seq<JsonValue>, k: nat) -> Seq<JsonView>
    decreases items, k,
{
    if k == 0 || k > items.len() {
        Seq::empty()
    } else {
        array_view(items, (k - 1) as nat).push(json_view(items[k - 1]))
    }
}

pub open spec fn fields_view(fields: Seq<(String, JsonValue)>, k: nat) -> Seq<(Seq<char>, JsonView)>
    decreases fields, k,
{
    if k == 0 || k > fields.len() {
        Seq::empty()
    } else {
        fields_view(fields, (k - 1) as nat).push((fields[k - 1].0@, json_view(fields[k - 1].1)))
    }
}

proof fn lemma_array_view_prefix(s: Seq<JsonValue>, t: Seq<JsonValue>, k: nat)
    requires
        k <= s.len(),
        k <= t.len(),
        forall|j: int| 0 <= j < k ==> s[j] == t[j],
    ensures
        array_view(s, k) == array_view(t, k),
    decreases k,
{
    if k > 0 {
        lemma_array_view_prefix(s, t, (k - 1) as nat);
    }
}

proof fn lemma_fields_view_prefix(s: Seq<(String, JsonValue)>, t: Seq<(String, JsonValue)>, k: nat)
    requires
        k <= s.len(),
        k <= t.len(),
        forall|j: int| 0 <= j < k ==> s[j] == t[j],
    ensures
        fields_view(s, k) == fields_view(t, k),
    decreases k,
{
    if k > 0 {
        lemma_fields_view_prefix(s, t, (k - 1) as nat);
    }
}

impl JsonValue {
    /// A copy of the value, with all it holds.
    pub fn deep_copy(&self) -> (res: JsonValue)
        ensures
            json_view(res) == json_view(*self),
        decreases *self,
    {
        match self {
            JsonValue::Null => JsonValue::Null,
            JsonValue::Bool(b) => JsonValue::Bool(*b),
            JsonValue::Number(n) => JsonValue::Number(n.clone()),
            JsonValue::Text(t) => JsonValue::Text(t.clone()),
            JsonValue::Array(items) => {
                let mut out: Vec<JsonValue> = Vec::new();
                let mut i: usize = 0;
                while i < items.len()
                    invariant
                        *self == JsonValue::Array(*items),
                        i <= items@.len(),
                        out@.len() == i,
                        array_view(out@, i as nat) == array_view(items@, i as nat),
                    decreases items@.len() - i,
                {
                    proof {
                        let ghost me = *self;
                        assert(decreases_to!(me => me->Array_0));
                        assert(me->Array_0 == *items);
                        assert(decreases_to!(*items => items@));
                        assert(decreases_to!(items@ => items@[i as int]));
                    }
                    let copy = items[i].deep_copy();
                    let ghost before = out@;
                    out.push(copy);
                    proof {
                        lemma_array_view_prefix(out@, before, i as nat);
                    }
                    i += 1;
                }
                JsonValue::Array(out)
            },
            JsonValue::Object(fields) => {
                let mut out: Vec<(String, JsonValue)> = Vec::new();
                let mut i: usize = 0;
                while i < fields.len()
                    invariant
                        *self == JsonValue::Object(*fields),
                        i <= fields@.len(),
                        out@.len() == i,
                        fields_view(out@, i as nat) == fields_view(fields@, i as nat),
                    decreases fields@.len() - i,
                {
                    proof {
                        let ghost me = *self;
                        assert(decreases_to!(me => me->Object_0));
                        assert(me->Object_0 == *fields);
                        assert(decreases_to!(*fields => fields@));
                        assert(decreases_to!(fields@ => fields@[i as int]));
                        assert(decreases_to!(fields@[i as int] => fields@[i as int].1));
                    }
                    let copy = fields[i].1.deep_copy();
                    let ghost before = out@;
                    out.push((fields[i].0.clone(), copy));
                    proof {
                        lemma_fields_view_prefix(out@, before, i as nat);
                    }
                    i += 1;
                }
                JsonValue::Object(out)
            },
        }
    }
}

/// The fields of an object, as characters and views.
pub open spec fn object_view(fields: Seq<(String, JsonValue)>) -> Seq<(Seq<char>, JsonView)> {
    fields_view(fields, fields.len())
}

/// The position of the first field with the key.
pub open spec fn field_index(fields: Seq<(Seq<char>, JsonView)>, key: Seq<char>) -> Option<int>
    decreases fields.len(),
{
    if fields.len() == 0 {
        None
    } else if fields[0].0 == key {
        Some(0)
    } else {
        match field_index(fields.drop_first(), key) {
            Some(i) => Some(i + 1),
            None => None,
        }
    }
}

/// The value of the first field with the key.
pub open spec fn field_value(fields: Seq<(Seq<char>, JsonView)>, key: Seq<char>) -> Option<JsonView> {
    match field_index(fields, key) {
        Some(i) => Some(fields[i].1),
        None => None,
    }
}

/// The fields without the first one with the key.
pub open spec fn without_field(fields: Seq<(Seq<char>, JsonView)>, key: Seq<char>) -> Seq<(Seq<char>, JsonView)> {
    match field_index(fields, key) {
        Some(i) => fields.remove(i),
        None => fields,
    }
}

pub proof fn lemma_field_index(fields: Seq<(Seq<char>, JsonView)>, key: Seq<char>, i: int)
    requires
        0 <= i < fields.len(),
        fields[i].0 == key,
        forall|j: int| 0 <= j < i ==> (#[trigger] fields[j]).0 != key,
    ensures
        field_index(fields, key) == Some(i),
    decreases i,
{
    if i > 0 {
        let rest = fields.drop_first();
        assert forall|j: int| 0 <= j < i - 1 implies (#[trigger] rest[j]).0 != key by {
            assert(rest[j] == fields[j + 1]);
        }
        lemma_field_index(rest, key, i - 1);
    }
}

pub proof fn lemma_field_index_none(fields: Seq<(Seq<char>, JsonView)>, key: Seq<char>)
    requires
        forall|j: int| 0 <= j < fields.len() ==> (#[trigger] fields[j]).0 != key,
    ensures
        field_index(fields, key) is None,
    decreases fields.len(),
{
    if fields.len() > 0 {
        let rest = fields.drop_first();
        assert forall|j: int| 0 <= j < rest.len() implies (#[trigger] rest[j]).0 != key by {
            assert(rest[j] == fields[j + 1]);
        }
        lemma_field_index_none(rest, key);
    }
}

pub proof fn lemma_field_index_bounds(fields: Seq<(Seq<char>, JsonView)>, key: Seq<char>)
    ensures
        field_index(fields, key) matches Some(i) ==> 0 <= i < fields.len() && fields[i].0 == key,
    decreases fields.len(),
{
    if fields.len() > 0 {
        lemma_field_index_bounds(fields.drop_first(), key);
    }
}

pub proof fn lemma_fields_view_index(fields: Seq<(String, JsonValue)>, k: nat, i: int)
    requires
        k <= fields.len(),
        0 <= i < k,
    ensures
        fields_view(fields, k).len() == k,
        fields_view(fields, k)[i] == (fields[i].0@, json_view(fields[i].1)),
    decreases k,
{
    lemma_fields_view_len(fields, k);
    lemma_fields_view_len(fields, (k - 1) as nat);
    if i < k - 1 {
        lemma_fields_view_index(fields, (k - 1) as nat, i);
    }
}

pub proof fn lemma_fields_view_len(fields: Seq<(String, JsonValue)>, k: nat)
    requires
        k <= fields.len(),
    ensures
        fields_view(fields, k).len() == k,
    decreases k,
{
    if k > 0 {
        lemma_fields_view_len(fields, (k - 1) as nat);
    }
}

/// The position of the first field with the key.
pub fn find_field(fields: &Vec<(String, JsonValue)>, key: &str) -> (res: Option<usize>)
    ensures
        match res {
            Some(i) => field_index(object_view(fields@), key@) == Some(i as int) && i < fields@.len(),
            None => field_index(object_view(fields@), key@) is None,
        },
{
    let ghost view = object_view(fields@);
    proof {
        lemma_fields_view_len(fields@, fields@.len());
    }
    let mut i: usize = 0;
    while i < fields.len()
        invariant
            i <= fields@.len(),
            view == object_view(fields@),
            view.len() == fields@.len(),
            forall|j: int| 0 <= j < i ==> (#[trigger] view[j]).0 != key@,
        decreases fields@.len() - i,
    {
        proof {
            lemma_fields_view_index(fields@, fields@.len(), i as int);
        }
        if same_text(fields[i].0.as_str(), key) {
            proof {
                lemma_field_index(view, key@, i as int);
            }
            return Some(i);
        }
        i += 1;
    }
    proof {
        lemma_field_index_none(view, key@);
    }
    None
}

/// The value of the first field with the key.
pub fn get_field<'a>(fields: &'a Vec<(String, JsonValue)>, key: &str) -> (res: Option<&'a JsonValue>)
    ensures
        match res {
            Some(v) => field_value(object_view(fields@), key@) == Some(json_view(*v)),
            None => field_value(object_view(fields@), key@) is None,
        },
{
    match find_field(fields, key) {
        Some(i) => {
            proof {
                lemma_fields_view_index(fields@, fields@.len(), i as int);
            }
            Some(&fields[i].1)
        },
        None => None,
    }
}

/// Takes out the first field with the key, and gives its value.
pub fn remove_field(fields: &mut Vec<(String, JsonValue)>, key: &str) -> (res: Option<JsonValue>)
    ensures
        match res {
            Some(v) => field_value(object_view(old(fields)@), key@) == Some(json_view(v)),
            None => field_value(object_view(old(fields)@), key@) is None,
        },
        object_view(final(fields)@) == without_field(object_view(old(fields)@), key@),
{
    match find_field(fields, key) {
        Some(i) => {
            let ghost before = fields@;
            proof {
                lemma_fields_view_index(before, before.len(), i as int);
                lemma_fields_view_len(before, before.len());
            }
            let (_, value) = fields.remove(i);
            proof {
                let after = fields@;
                lemma_fields_view_len(after, after.len());
                assert forall|j: int| 0 <= j < after.len() implies object_view(after)[j] == object_view(before).remove(i as int)[j] by {
                    lemma_fields_view_index(after, after.len(), j);
                    if j < i {
                        lemma_fields_view_index(before, before.len(), j);
                    } else {
                        lemma_fields_view_index(before, before.len(), j + 1);
                    }
                }
                assert(object_view(after) =~= object_view(before).remove(i as int));
            }
            Some(value)
        },
        None => None,
    }
}

/// The fields of `fields`, then those of `more` whose keys `fields` lacks.
pub open spec fn merged(fields: Seq<(Seq<char>, JsonView)>, more: Seq<(Seq<char>, JsonView)>) -> Seq<(Seq<char>, JsonView)>
    decreases more.len(),
{
    if more.len() == 0 {
        fields
    } else {
        let head = more[0];
        let next = if field_index(fields, head.0) is Some {
            fields
        } else {
            fields.push(head)
        };
        merged(next, more.drop_first())
    }
}

/// Adds the fields of `more` whose keys `fields` lacks, as copies.
pub fn merge_missing(fields: &mut Vec<(String, JsonValue)>, more: &Vec<(String, JsonValue)>)
    ensures
        object_view(final(fields)@) == merged(object_view(old(fields)@), object_view(more@)),
{
    let ghost whole = object_view(more@);
    proof {
        lemma_fields_view_len(more@, more@.len());
        assert(whole.skip(0) =~= whole);
    }
    let mut i: usize = 0;
    while i < more.len()
        invariant
            i <= more@.len(),
            whole == object_view(more@),
            whole.len() == more@.len(),
            merged(object_view(old(fields)@), whole) == merged(object_view(fields@), whole.skip(i as int)),
        decreases more@.len() - i,
    {
        proof {
            lemma_fields_view_index(more@, more@.len(), i as int);
            assert(whole.skip(i as int)[0] == whole[i as int]);
            assert(whole.skip(i as int).drop_first() =~= whole.skip(i + 1));
            lemma_fields_view_len(fields@, fields@.len());
        }
        let found = find_field(fields, more[i].0.as_str());
        if found.is_none() {
            let ghost before = fields@;
            let copy = more[i].1.deep_copy();
            fields.push((more[i].0.clone(), copy));
            proof {
                lemma_fields_view_len(fields@, fields@.len());
                lemma_fields_view_index(fields@, fields@.len(), before.len() as int);
                assert forall|j: int| 0 <= j < before.len() implies object_view(fields@)[j] == object_view(before)[j] by {
                    lemma_fields_view_index(fields@, fields@.len(), j);
                    lemma_fields_view_index(before, before.len(), j);
                }
                lemma_fields_view_len(before, before.len());
                assert(object_view(fields@) =~= object_view(before).push(whole[i as int]));
            }
        }
        i += 1;
    }
    proof {
        assert(whole.skip(i as int) =~= Seq::<(Seq<char>, JsonView)>::empty());
    }
}


#[verifier::external_type_specification]
#[verifier::external_body]
pub struct ExSerdeValue(serde_json::Value);

/// The objects of a data file's text, as `serde_json::from_str` reads it as
/// a list of objects: `None` where the text is no such list.
pub uninterp spec fn parsed_objects(text: Seq<char>) -> Option<Seq<Seq<(Seq<char>, JsonView)>>>;

/// Turns a value that `serde_json` read into a value of the library, one for
/// one: each variant into its counterpart, a number as `serde_json` writes
/// it, the fields of an object in the order of `serde_json`'s map. Nothing is
/// promised of the result here; `parse_objects` states what the two give
/// together.
#[verifier::external_body]
fn value_from(value: &serde_json::Value) -> JsonValue {
    match value {
        serde_json::Value::Null => JsonValue::Null,
        serde_json::Value::Bool(b) => JsonValue::Bool(*b),
        serde_json::Value::Number(n) => JsonValue::Number(n.to_string()),
        serde_json::Value::String(t) => JsonValue::Text(t.clone()),
        serde_json::Value::Array(items) => JsonValue::Array(items.iter().map(value_from).collect()),
        serde_json::Value::Object(fields) => JsonValue::Object(fields.iter().map(|(k, v)| (k.clone(), value_from(v))).collect()),
    }
}

/// Calls `serde_json::from_str` to read the text as a list of objects
/// (`Vec<serde_json::Map<String, serde_json::Value>>`) and turns each object
/// into its fields. The result is named `parsed_objects` of the text: it
/// depends on the text alone. `None` where `serde_json` refuses the text.
#[verifier::external_body]
pub(crate) fn parse_objects(text: &str) -> (res: Option<Vec<Vec<(String, JsonValue)>>>)
    ensures
        match res {
            Some(objects) => parsed_objects(text@) == Some(objects@.map_values(|o: Vec<(String, JsonValue)>| object_view(o@))),
            None => parsed_objects(text@) is None,
        },
{
    match serde_json::from_str::<Vec<serde_json::Map<String, serde_json::Value>>>(text) {
        Ok(objects) => Some(objects.iter().map(|o| o.iter().map(|(k, v)| (k.clone(), value_from(v))).collect()).collect()),
        Err(_) => None,
    }
}

} // verus!
