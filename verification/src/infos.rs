use vstd::prelude::*;
use crate::json::{
    field_index, field_value, find_field, get_field, json_view, merge_missing, merged, object_view, parse_objects, parsed_objects,
    remove_field, without_field, JsonValue, JsonView,
};
use crate::sorting::same_text;
use crate::text::{contains_text, strings_view};

verus! {

/// The fields of an object of the game data.
pub type FieldsView = Seq<(Seq<char>, JsonView)>;

/// The text of a text value.
pub open spec fn text_of(v: Option<JsonView>) -> Option<Seq<char>> {
    match v {
        Some(JsonView::Text(t)) => Some(t),
        _ => None,
    }
}

/// All texts of an array, or `None` where one of its items is no text.
pub open spec fn texts_of(items: Seq<JsonView>) -> Option<Seq<Seq<char>>>
    decreases items.len(),
{
    if items.len() == 0 {
        Some(Seq::empty())
    } else {
        match (texts_of(items.drop_last()), items.last()) {
            (Some(earlier), JsonView::Text(t)) => Some(earlier.push(t)),
            _ => None,
        }
    }
}

/// The names that an id value gives: a text gives itself, an array of texts
/// each of them; anything else breaks the format.
pub open spec fn names_of(v: JsonView) -> Option<Seq<Seq<char>>> {
    match v {
        JsonView::Text(t) => Some(seq![t]),
        JsonView::Array(items) => texts_of(items),
        _ => None,
    }
}

/// The value that names a literal. A recipe has no "id" or "from"; with an
/// "id_suffix" it is named by its "result" (or else "copy-from"), a space and
/// the suffix; without one by its "abstract" (or else "result"). Any other
/// literal has exactly one of "id", "abstract" and "from", which names it.
/// `None` where the format is broken.
pub open spec fn spec_id_value(fields: FieldsView) -> Option<JsonView> {
    if text_of(field_value(fields, "type"@)) == Some("recipe"@) {
        if field_value(fields, "id"@) is Some || field_value(fields, "from"@) is Some {
            None
        } else if field_value(fields, "id_suffix"@) is Some {
            let base = if field_value(fields, "result"@) is Some {
                field_value(fields, "result"@)
            } else {
                field_value(fields, "copy-from"@)
            };
            match (text_of(base), text_of(field_value(fields, "id_suffix"@))) {
                (Some(b), Some(suffix)) => Some(JsonView::Text(b + " "@ + suffix)),
                _ => None,
            }
        } else if field_value(fields, "abstract"@) is Some {
            field_value(fields, "abstract"@)
        } else {
            field_value(fields, "result"@)
        }
    } else {
        let count = (if field_value(fields, "id"@) is Some { 1int } else { 0 }) + (if field_value(fields, "abstract"@) is Some {
            1int
        } else {
            0
        }) + (if field_value(fields, "from"@) is Some { 1int } else { 0 });
        if count != 1 {
            None
        } else if field_value(fields, "id"@) is Some {
            field_value(fields, "id"@)
        } else if field_value(fields, "abstract"@) is Some {
            field_value(fields, "abstract"@)
        } else {
            field_value(fields, "from"@)
        }
    }
}

/// The ids of a literal, `None` where the format is broken.
pub open spec fn spec_literal_ids(fields: FieldsView) -> Option<Seq<Seq<char>>> {
    match spec_id_value(fields) {
        Some(v) => names_of(v),
        None => None,
    }
}

/// The aliases of a literal, none without "alias"; `None` where the format
/// is broken.
pub open spec fn spec_aliases(fields: FieldsView) -> Option<Seq<Seq<char>>> {
    match field_value(fields, "alias"@) {
        Some(v) => names_of(v),
        None => Some(Seq::empty()),
    }
}

fn text_value(v: Option<&JsonValue>) -> (res: Option<String>)
    ensures
        match res {
            Some(t) => text_of(match v {
                Some(x) => Some(json_view(*x)),
                None => None,
            }) == Some(t@),
            None => text_of(match v {
                Some(x) => Some(json_view(*x)),
                None => None,
            }) is None,
        },
{
    match v {
        Some(JsonValue::Text(t)) => Some(t.clone()),
        _ => None,
    }
}

/// The names that an id value gives, `None` where it is neither a text nor
/// an array of texts.
pub fn names(v: &JsonValue) -> (res: Option<Vec<String>>)
    ensures
        match res {
            Some(names) => names_of(json_view(*v)) == Some(names@.map_values(|n: String| n@)),
            None => names_of(json_view(*v)) is None,
        },
{
    match v {
        JsonValue::Text(t) => {
            let mut res: Vec<String> = Vec::new();
            res.push(t.clone());
            assert(res@.map_values(|n: String| n@) =~= seq![t@]);
            Some(res)
        },
        JsonValue::Array(items) => {
            let ghost views = crate::json::array_view(items@, items@.len());
            let mut res: Vec<String> = Vec::new();
            let mut i: usize = 0;
            proof {
                lemma_array_view_len(items@, items@.len());
            }
            while i < items.len()
                invariant
                    *v == JsonValue::Array(*items),
                    i <= items@.len(),
                    views == crate::json::array_view(items@, items@.len()),
                    views.len() == items@.len(),
                    texts_of(views.take(i as int)) == Some(res@.map_values(|n: String| n@)),
                decreases items@.len() - i,
            {
                proof {
                    lemma_array_view_index(items@, items@.len(), i as int);
                    assert(views.take(i + 1).drop_last() =~= views.take(i as int));
                }
                match &items[i] {
                    JsonValue::Text(t) => {
                        let ghost before = res@;
                        res.push(t.clone());
                        assert(res@.map_values(|n: String| n@) =~= before.map_values(|n: String| n@).push(t@));
                    },
                    _ => {
                        proof {
                            assert(views.take(i + 1).last() == json_view(items@[i as int]));
                            assert(!(json_view(items@[i as int]) is Text));
                            assert(texts_of(views.take(i + 1)) is None);
                            lemma_texts_of_prefix_none(views, (i + 1) as nat);
                            assert(views.take(views.len() as int) =~= views);
                        }
                        return None;
                    },
                }
                i += 1;
            }
            proof {
                assert(views.take(views.len() as int) =~= views);
            }
            Some(res)
        },
        _ => None,
    }
}

proof fn lemma_array_view_len(items: Seq<JsonValue>, k: nat)
    requires
        k <= items.len(),
    ensures
        crate::json::array_view(items, k).len() == k,
    decreases k,
{
    if k > 0 {
        lemma_array_view_len(items, (k - 1) as nat);
    }
}

proof fn lemma_array_view_index(items: Seq<JsonValue>, k: nat, i: int)
    requires
        k <= items.len(),
        0 <= i < k,
    ensures
        crate::json::array_view(items, k)[i] == json_view(items[i]),
    decreases k,
{
    lemma_array_view_len(items, (k - 1) as nat);
    if i < k - 1 {
        lemma_array_view_index(items, (k - 1) as nat, i);
    }
}

/// A prefix with a non-text item spoils every longer prefix.
proof fn lemma_texts_of_prefix_none(views: Seq<JsonView>, k: nat)
    requires
        0 < k <= views.len(),
        texts_of(views.take(k as int)) is None,
    ensures
        texts_of(views) is None,
    decreases views.len() - k,
{
    if k < views.len() {
        assert(views.take((k + 1) as int).drop_last() =~= views.take(k as int));
        lemma_texts_of_prefix_none(views, k + 1);
    } else {
        assert(views.take(k as int) =~= views);
    }
}

fn present(fields: &Vec<(String, JsonValue)>, key: &str) -> (res: bool)
    ensures
        res == field_value(object_view(fields@), key@) is Some,
{
    get_field(fields, key).is_some()
}

fn copied_field(fields: &Vec<(String, JsonValue)>, key: &str) -> (res: Option<JsonValue>)
    ensures
        match res {
            Some(x) => field_value(object_view(fields@), key@) == Some(json_view(x)),
            None => field_value(object_view(fields@), key@) is None,
        },
{
    match get_field(fields, key) {
        Some(v) => Some(v.deep_copy()),
        None => None,
    }
}

/// The value that names a literal, `None` where the format is broken.
pub fn id_value(fields: &Vec<(String, JsonValue)>) -> (res: Option<JsonValue>)
    ensures
        match res {
            Some(x) => spec_id_value(object_view(fields@)) == Some(json_view(x)),
            None => spec_id_value(object_view(fields@)) is None,
        },
{
    let ghost view = object_view(fields@);
    let recipe = String::from_str("recipe");
    let type_text = text_value(get_field(fields, "type"));
    let is_recipe = match &type_text {
        Some(t) => *t == recipe,
        None => false,
    };
    proof {
        reveal_strlit("recipe");
    }
    if is_recipe {
        if present(fields, "id") || present(fields, "from") {
            return None;
        }
        if present(fields, "id_suffix") {
            let base = if present(fields, "result") {
                text_value(get_field(fields, "result"))
            } else {
                text_value(get_field(fields, "copy-from"))
            };
            let suffix = text_value(get_field(fields, "id_suffix"));
            match (base, suffix) {
                (Some(b), Some(suffix)) => {
                    let mut composite = b;
                    composite.append(" ");
                    composite.append(suffix.as_str());
                    return Some(JsonValue::Text(composite));
                },
                _ => {
                    return None;
                },
            }
        }
        if present(fields, "abstract") {
            copied_field(fields, "abstract")
        } else {
            copied_field(fields, "result")
        }
    } else {
        let count: u8 = (if present(fields, "id") { 1 } else { 0 }) + (if present(fields, "abstract") { 1 } else { 0 }) + (if present(
            fields,
            "from",
        ) {
            1
        } else {
            0
        });
        if count != 1 {
            None
        } else if present(fields, "id") {
            copied_field(fields, "id")
        } else if present(fields, "abstract") {
            copied_field(fields, "abstract")
        } else {
            copied_field(fields, "from")
        }
    }
}

/// The ids of a literal, `None` where the format is broken.
pub fn literal_ids(fields: &Vec<(String, JsonValue)>) -> (res: Option<Vec<String>>)
    ensures
        match res {
            Some(ids) => spec_literal_ids(object_view(fields@)) == Some(ids@.map_values(|n: String| n@)),
            None => spec_literal_ids(object_view(fields@)) is None,
        },
{
    match id_value(fields) {
        Some(v) => names(&v),
        None => None,
    }
}

/// The aliases of a literal, `None` where the format is broken.
pub fn aliases(fields: &Vec<(String, JsonValue)>) -> (res: Option<Vec<String>>)
    ensures
        match res {
            Some(ids) => spec_aliases(object_view(fields@)) == Some(ids@.map_values(|n: String| n@)),
            None => spec_aliases(object_view(fields@)) is None,
        },
{
    match get_field(fields, "alias") {
        Some(v) => names(v),
        None => {
            let res: Vec<String> = Vec::new();
            assert(res@.map_values(|n: String| n@) =~= Seq::<Seq<char>>::empty());
            Some(res)
        },
    }
}

/// A literal of the game data under one of its ids.
pub struct LiteralEntry {
    pub type_id: String,
    pub id: String,
    pub fields: Vec<(String, JsonValue)>,
}

pub type EntryView = (Seq<char>, Seq<char>, FieldsView);

pub open spec fn entry_view(e: LiteralEntry) -> EntryView {
    (e.type_id@, e.id@, object_view(e.fields@))
}

pub open spec fn entries_view(entries: Seq<LiteralEntry>) -> Seq<EntryView> {
    entries.map_values(|e: LiteralEntry| entry_view(e))
}

/// The literals of the game data, by type and id: where several entries have
/// the same type and id, the last one counts.
pub struct Literals {
    pub entries: Vec<LiteralEntry>,
}

/// The position of the entry that counts for the type and id.
pub open spec fn entry_index(entries: Seq<EntryView>, type_id: Seq<char>, id: Seq<char>) -> Option<int>
    decreases entries.len(),
{
    if entries.len() == 0 {
        None
    } else if entries.last().0 == type_id && entries.last().1 == id {
        Some(entries.len() - 1)
    } else {
        entry_index(entries.drop_last(), type_id, id)
    }
}

/// Entries for `content` of the type under each of the ids.
pub open spec fn with_ids(entries: Seq<EntryView>, type_id: Seq<char>, ids: Seq<Seq<char>>, content: FieldsView) -> Seq<EntryView>
    decreases ids.len(),
{
    if ids.len() == 0 {
        entries
    } else {
        with_ids(entries, type_id, ids.drop_last(), content).push((type_id, ids.last(), content))
    }
}

/// Entries for `content` of the type under each alias that no entry has yet.
pub open spec fn with_aliases(entries: Seq<EntryView>, type_id: Seq<char>, aliases: Seq<Seq<char>>, content: FieldsView) -> Seq<EntryView>
    decreases aliases.len(),
{
    if aliases.len() == 0 {
        entries
    } else {
        let earlier = with_aliases(entries, type_id, aliases.drop_last(), content);
        if entry_index(earlier, type_id, aliases.last()) is Some {
            earlier
        } else {
            earlier.push((type_id, aliases.last(), content))
        }
    }
}

/// The entries after one more literal of a data file: a literal of an unused
/// type, or a variant of another, adds nothing; else the literal stands under
/// each of its ids, and under each of its aliases that no entry has yet.
/// `None` where the format is broken: the type is no text or unknown, or the
/// ids or aliases are malformed.
pub open spec fn spec_add_literal(
    entries: Seq<EntryView>,
    content: FieldsView,
    known_types: Seq<Seq<char>>,
    unused_types: Seq<Seq<char>>,
) -> Option<Seq<EntryView>> {
    match text_of(field_value(content, "type"@)) {
        None => None,
        Some(t) => if !known_types.contains(t) {
            None
        } else if unused_types.contains(t) || field_value(content, "from_variant"@) is Some {
            Some(entries)
        } else {
            match (spec_literal_ids(content), spec_aliases(content)) {
                (Some(ids), Some(aliases)) => Some(with_aliases(with_ids(entries, t, ids, content), t, aliases, content)),
                _ => None,
            }
        },
    }
}

/// The entries after the literals of a data file, one after the other;
/// `None` where one of them is malformed.
pub open spec fn spec_add_objects(
    entries: Seq<EntryView>,
    objects: Seq<FieldsView>,
    known_types: Seq<Seq<char>>,
    unused_types: Seq<Seq<char>>,
) -> Option<Seq<EntryView>>
    decreases objects.len(),
{
    if objects.len() == 0 {
        Some(entries)
    } else {
        match spec_add_objects(entries, objects.drop_last(), known_types, unused_types) {
            Some(earlier) => spec_add_literal(earlier, objects.last(), known_types, unused_types),
            None => None,
        }
    }
}

/// Where the literals of a prefix of a file cannot all be added, the whole
/// file cannot be either.
proof fn lemma_add_objects_fails_after(
    entries: Seq<EntryView>,
    objects: Seq<FieldsView>,
    k: int,
    known_types: Seq<Seq<char>>,
    unused_types: Seq<Seq<char>>,
)
    requires
        0 <= k <= objects.len(),
        spec_add_objects(entries, objects.take(k), known_types, unused_types) is None,
    ensures
        spec_add_objects(entries, objects, known_types, unused_types) is None,
    decreases objects.len() - k,
{
    if k < objects.len() {
        assert(objects.take(k + 1).drop_last() =~= objects.take(k));
        lemma_add_objects_fails_after(entries, objects, k + 1, known_types, unused_types);
    } else {
        assert(objects.take(k) =~= objects);
    }
}

impl Literals {
    pub open spec fn view(&self) -> Seq<EntryView> {
        entries_view(self.entries@)
    }

    /// Adds the literals of a data file's text, in order. `false` where the
    /// text is no list of objects (the literals then stay as they were), or
    /// where a literal is malformed: the literals then hold those before it.
    pub fn add_file(&mut self, text: &str, known_types: &Vec<String>, unused_types: &Vec<String>) -> (res: bool)
        ensures
            res <==> (parsed_objects(text@) matches Some(objects) && spec_add_objects(
                old(self).view(),
                objects,
                strings_view(known_types@),
                strings_view(unused_types@),
            ) is Some),
            parsed_objects(text@) matches Some(objects) ==> (res ==> Some(final(self).view()) == spec_add_objects(
                old(self).view(),
                objects,
                strings_view(known_types@),
                strings_view(unused_types@),
            )),
            parsed_objects(text@) is None ==> final(self).view() == old(self).view(),
            parsed_objects(text@) matches Some(objects) ==> (!res ==> exists|k: int|
                0 <= k < objects.len() && spec_add_objects(
                    old(self).view(),
                    objects.take(k),
                    strings_view(known_types@),
                    strings_view(unused_types@),
                ) == Some(final(self).view()) && spec_add_literal(
                    final(self).view(),
                    #[trigger] objects[k],
                    strings_view(known_types@),
                    strings_view(unused_types@),
                ) is None),
    {
        let objects = match parse_objects(text) {
            Some(objects) => objects,
            None => {
                return false;
            },
        };
        let ghost views = objects@.map_values(|o: Vec<(String, JsonValue)>| object_view(o@));
        let ghost known = strings_view(known_types@);
        let ghost unused = strings_view(unused_types@);
        let ghost start = self.view();
        let mut i: usize = 0;
        assert(views.take(0) =~= Seq::<FieldsView>::empty());
        while i < objects.len()
            invariant
                i <= objects@.len(),
                views == objects@.map_values(|o: Vec<(String, JsonValue)>| object_view(o@)),
                known == strings_view(known_types@),
                unused == strings_view(unused_types@),
                spec_add_objects(start, views.take(i as int), known, unused) == Some(self.view()),
                parsed_objects(text@) == Some(views),
                start == old(self).view(),
            decreases objects@.len() - i,
        {
            proof {
                assert(views.take(i + 1).drop_last() =~= views.take(i as int));
                assert(views.take(i + 1).last() == views[i as int]);
            }
            if !self.add_literal(&objects[i], known_types, unused_types) {
                proof {
                    lemma_add_objects_fails_after(start, views, i as int + 1, known, unused);
                }
                return false;
            }
            i += 1;
        }
        proof {
            assert(views.take(views.len() as int) =~= views);
        }
        true
    }

    /// No literals yet.
    pub fn new() -> (res: Literals)
        ensures
            res.view() == Seq::<EntryView>::empty(),
    {
        let res = Literals { entries: Vec::new() };
        assert(res.view() =~= Seq::<EntryView>::empty());
        res
    }

    fn find(&self, type_id: &String, id: &String) -> (res: Option<usize>)
        ensures
            match res {
                Some(i) => entry_index(self.view(), type_id@, id@) == Some(i as int) && i < self.entries@.len(),
                None => entry_index(self.view(), type_id@, id@) is None,
            },
    {
        let ghost view = self.view();
        let mut k: usize = self.entries.len();
        assert(view.take(k as int) =~= view);
        while k > 0
            invariant
                k <= self.entries@.len(),
                view == self.view(),
                view.len() == self.entries@.len(),
                entry_index(view, type_id@, id@) == entry_index(view.take(k as int), type_id@, id@),
            decreases k,
        {
            proof {
                assert(view.take(k as int).drop_last() =~= view.take(k - 1));
            }
            let e = &self.entries[k - 1];
            if e.type_id == *type_id && e.id == *id {
                return Some(k - 1);
            }
            k -= 1;
        }
        None
    }

    fn push_entry(&mut self, type_id: &String, id: &String, fields: &Vec<(String, JsonValue)>)
        ensures
            final(self).view() == old(self).view().push((type_id@, id@, object_view(fields@))),
    {
        let copy = copy_fields(fields);
        let ghost before = self.entries@;
        self.entries.push(LiteralEntry { type_id: type_id.clone(), id: id.clone(), fields: copy });
        assert(entries_view(self.entries@) =~= entries_view(before).push((type_id@, id@, object_view(fields@))));
    }

    /// Adds one literal of a data file under its type; `false`, with the
    /// literals unchanged, where the format is broken.
    pub fn add_literal(
        &mut self,
        content: &Vec<(String, JsonValue)>,
        known_types: &Vec<String>,
        unused_types: &Vec<String>,
    ) -> (res: bool)
        ensures
            res == spec_add_literal(
                old(self).view(),
                object_view(content@),
                strings_view(known_types@),
                strings_view(unused_types@),
            ) is Some,
            res ==> Some(final(self).view()) == spec_add_literal(
                old(self).view(),
                object_view(content@),
                strings_view(known_types@),
                strings_view(unused_types@),
            ),
            !res ==> final(self).view() == old(self).view(),
    {
        let ghost content_view = object_view(content@);
        let type_id = match text_value(get_field(content, "type")) {
            Some(t) => t,
            None => {
                return false;
            },
        };
        if !contains_text(known_types, type_id.as_str()) {
            return false;
        }
        if contains_text(unused_types, type_id.as_str()) || present(content, "from_variant") {
            return true;
        }
        let ids = match literal_ids(content) {
            Some(ids) => ids,
            None => {
                return false;
            },
        };
        let aliases = match aliases(content) {
            Some(aliases) => aliases,
            None => {
                return false;
            },
        };
        let ghost start = self.view();
        let ghost id_views = ids@.map_values(|n: String| n@);
        let mut i: usize = 0;
        while i < ids.len()
            invariant
                i <= ids@.len(),
                id_views == ids@.map_values(|n: String| n@),
                self.view() == with_ids(start, type_id@, id_views.take(i as int), content_view),
                content_view == object_view(content@),
            decreases ids@.len() - i,
        {
            proof {
                assert(id_views.take(i + 1).drop_last() =~= id_views.take(i as int));
            }
            self.push_entry(&type_id, &ids[i], content);
            i += 1;
        }
        proof {
            assert(id_views.take(ids@.len() as int) =~= id_views);
        }
        let ghost after_ids = self.view();
        let ghost alias_views = aliases@.map_values(|n: String| n@);
        let mut i: usize = 0;
        while i < aliases.len()
            invariant
                i <= aliases@.len(),
                alias_views == aliases@.map_values(|n: String| n@),
                self.view() == with_aliases(after_ids, type_id@, alias_views.take(i as int), content_view),
                content_view == object_view(content@),
            decreases aliases@.len() - i,
        {
            proof {
                assert(alias_views.take(i + 1).drop_last() =~= alias_views.take(i as int));
            }
            if self.find(&type_id, &aliases[i]).is_none() {
                self.push_entry(&type_id, &aliases[i], content);
            }
            i += 1;
        }
        proof {
            assert(alias_views.take(aliases@.len() as int) =~= alias_views);
        }
        true
    }
}

/// A copy of the fields.
pub fn copy_fields(fields: &Vec<(String, JsonValue)>) -> (res: Vec<(String, JsonValue)>)
    ensures
        object_view(res@) == object_view(fields@),
{
    let mut res: Vec<(String, JsonValue)> = Vec::new();
    let mut i: usize = 0;
    while i < fields.len()
        invariant
            i <= fields@.len(),
            res@.len() == i,
            crate::json::fields_view(res@, i as nat) == crate::json::fields_view(fields@, i as nat),
        decreases fields@.len() - i,
    {
        let copy = fields[i].1.deep_copy();
        let ghost before = res@;
        res.push((fields[i].0.clone(), copy));
        proof {
            lemma_fields_view_prefix_eq(res@, before, i as nat);
        }
        i += 1;
    }
    res
}

proof fn lemma_fields_view_prefix_eq(s: Seq<(String, JsonValue)>, t: Seq<(String, JsonValue)>, k: nat)
    requires
        k <= s.len(),
        k <= t.len(),
        forall|j: int| 0 <= j < k ==> s[j] == t[j],
    ensures
        crate::json::fields_view(s, k) == crate::json::fields_view(t, k),
    decreases k,
{
    if k > 0 {
        lemma_fields_view_prefix_eq(s, t, (k - 1) as nat);
    }
}

/// The fields of the literal that a "copy-from" names: the literal of the
/// same type with that id, else the only literal of another type with it.
/// `None` where none or several types have it.
pub open spec fn parent_fields(entries: Seq<EntryView>, type_id: Seq<char>, name: Seq<char>) -> Option<FieldsView> {
    match entry_index(entries, type_id, name) {
        Some(i) => Some(entries[i].2),
        None => if exists|j: int| 0 <= j < entries.len() && (#[trigger] entries[j]).1 == name {
            let j = choose|j: int| 0 <= j < entries.len() && (#[trigger] entries[j]).1 == name;
            if forall|k: int| 0 <= k < entries.len() && (#[trigger] entries[k]).1 == name ==> entries[k].0 == entries[j].0 {
                match entry_index(entries, entries[j].0, name) {
                    Some(i) => Some(entries[i].2),
                    None => None,
                }
            } else {
                None
            }
        } else {
            None
        },
    }
}

/// How the fields of a literal resolve.
pub ghost enum Resolution {
    /// The fields, with those of every literal it copies from.
    Done(FieldsView),
    /// A literal it copies from is missing or ambiguous: it is left out.
    Skipped,
    /// The format is broken: a "copy-from" is no text, or the chain of
    /// literals reaches ten.
    Broken,
}

/// Follows the "copy-from" of the fields: each time the field goes, and the
/// fields of the literal it names that are missing come in (its own
/// "copy-from" among them). `steps` literals were copied from already.
pub open spec fn resolve(entries: Seq<EntryView>, type_id: Seq<char>, fields: FieldsView, steps: nat) -> Resolution
    decreases 10 - steps,
{
    match field_value(fields, "copy-from"@) {
        None => Resolution::Done(fields),
        Some(JsonView::Text(name)) => if steps + 2 >= 10 {
            Resolution::Broken
        } else {
            match parent_fields(entries, type_id, name) {
                Some(parent) => resolve(entries, type_id, merged(without_field(fields, "copy-from"@), parent), steps + 1),
                None => Resolution::Skipped,
            }
        },
        Some(_) => Resolution::Broken,
    }
}

/// The fields without "id", "from" and "copy-from"; for a migration, its
/// "new_id" (or else its "to") becomes its "replace". `None` where a
/// migration combines "new_id" with "to", or either with "replace".
pub open spec fn finalize(type_id: Seq<char>, fields: FieldsView, migration_types: Seq<Seq<char>>) -> Option<FieldsView> {
    let f = without_field(without_field(without_field(fields, "id"@), "from"@), "copy-from"@);
    if migration_types.contains(type_id) {
        match field_value(f, "new_id"@) {
            Some(new_id) => {
                let g = without_field(f, "new_id"@);
                if field_value(g, "to"@) is Some || field_value(g, "replace"@) is Some {
                    None
                } else {
                    Some(g.push(("replace"@, new_id)))
                }
            },
            None => match field_value(f, "to"@) {
                Some(to) => {
                    let g = without_field(f, "to"@);
                    if field_value(g, "replace"@) is Some {
                        None
                    } else {
                        Some(g.push(("replace"@, to)))
                    }
                },
                None => Some(f),
            },
        }
    } else {
        Some(f)
    }
}

/// The entry is the one that counts for its type and id.
pub open spec fn is_current(entries: Seq<EntryView>, i: int) -> bool {
    entry_index(entries, entries[i].0, entries[i].1) == Some(i)
}

/// The enriched literals among the first `k` entries: each current entry
/// that is not abstract, resolved and finalized, unless it is skipped.
/// `None` where the format is broken.
pub open spec fn enriched_upto(entries: Seq<EntryView>, migration_types: Seq<Seq<char>>, k: nat) -> Option<Seq<EntryView>>
    decreases k,
{
    if k == 0 || k > entries.len() {
        Some(Seq::empty())
    } else {
        match enriched_upto(entries, migration_types, (k - 1) as nat) {
            None => None,
            Some(earlier) => {
                let e = entries[k - 1];
                if !is_current(entries, k - 1) || field_value(e.2, "abstract"@) is Some {
                    Some(earlier)
                } else {
                    match resolve(entries, e.0, e.2, 0) {
                        Resolution::Done(f) => match finalize(e.0, f, migration_types) {
                            Some(g) => Some(earlier.push((e.0, e.1, g))),
                            None => None,
                        },
                        Resolution::Skipped => Some(earlier),
                        Resolution::Broken => None,
                    }
                }
            },
        }
    }
}

proof fn lemma_entry_index_bounds(entries: Seq<EntryView>, type_id: Seq<char>, id: Seq<char>)
    ensures
        entry_index(entries, type_id, id) matches Some(i) ==> 0 <= i < entries.len() && entries[i].0 == type_id
            && entries[i].1 == id,
    decreases entries.len(),
{
    if entries.len() > 0 {
        lemma_entry_index_bounds(entries.drop_last(), type_id, id);
    }
}

proof fn lemma_entry_index_found(entries: Seq<EntryView>, type_id: Seq<char>, id: Seq<char>, j: int)
    requires
        0 <= j < entries.len(),
        entries[j].0 == type_id,
        entries[j].1 == id,
    ensures
        entry_index(entries, type_id, id) is Some,
    decreases entries.len(),
{
    if j < entries.len() - 1 && !(entries.last().0 == type_id && entries.last().1 == id) {
        lemma_entry_index_found(entries.drop_last(), type_id, id, j);
    }
}

impl Literals {
    /// The entry of the literal that a "copy-from" of a literal of the type names.
    fn parent(&self, type_id: &String, name: &String) -> (res: Option<usize>)
        ensures
            match res {
                Some(i) => i < self.entries@.len() && parent_fields(self.view(), type_id@, name@) == Some(
                    self.view()[i as int].2,
                ),
                None => parent_fields(self.view(), type_id@, name@) is None,
            },
    {
        let ghost view = self.view();
        proof {
            lemma_entry_index_bounds(view, type_id@, name@);
        }
        match self.find(type_id, name) {
            Some(i) => {
                return Some(i);
            },
            None => {},
        }
        let mut first: Option<usize> = None;
        let mut j: usize = 0;
        while j < self.entries.len()
            invariant
                j <= self.entries@.len(),
                entry_index(view, type_id@, name@) is None,
                view == self.view(),
                view.len() == self.entries@.len(),
                first is None ==> forall|k: int| 0 <= k < j ==> (#[trigger] view[k]).1 != name@,
                first matches Some(f) ==> f < self.entries@.len() && view[f as int].1 == name@,
            decreases self.entries@.len() - j,
        {
            if first.is_none() && self.entries[j].id == *name {
                first = Some(j);
            }
            j += 1;
        }
        let f = match first {
            Some(f) => f,
            None => {
                return None;
            },
        };
        let other_type = &self.entries[f].type_id;
        let mut k: usize = 0;
        while k < self.entries.len()
            invariant
                k <= self.entries@.len(),
                view == self.view(),
                view.len() == self.entries@.len(),
                f < self.entries@.len(),
                view[f as int].1 == name@,
                other_type@ == view[f as int].0,
                entry_index(view, type_id@, name@) is None,
                forall|m: int| 0 <= m < k && (#[trigger] view[m]).1 == name@ ==> view[m].0 == view[f as int].0,
            decreases self.entries@.len() - k,
        {
            if self.entries[k].id == *name && self.entries[k].type_id != *other_type {
                proof {
                    let c = choose|c: int| 0 <= c < view.len() && (#[trigger] view[c]).1 == name@;
                    assert(view[c].1 == name@);
                    assert(view[k as int].1 == name@ && view[k as int].0 != view[f as int].0);
                    if view[c].0 == view[f as int].0 {
                        assert(view[k as int].1 == name@ && view[k as int].0 != view[c].0);
                    } else {
                        assert(view[f as int].1 == name@ && view[f as int].0 != view[c].0);
                    }
                }
                return None;
            }
            k += 1;
        }
        proof {
            lemma_entry_index_found(view, view[f as int].0, name@, f as int);
            lemma_entry_index_bounds(view, view[f as int].0, name@);
            let c = choose|c: int| 0 <= c < view.len() && (#[trigger] view[c]).1 == name@;
            assert(view[c].0 == view[f as int].0);
        }
        self.find(other_type, name)
    }
}

proof fn lemma_enriched_stays_broken(entries: Seq<EntryView>, migration_types: Seq<Seq<char>>, k: nat, n: nat)
    requires
        k <= n <= entries.len(),
        enriched_upto(entries, migration_types, k) is None,
    ensures
        enriched_upto(entries, migration_types, n) is None,
    decreases n - k,
{
    if k < n {
        lemma_enriched_stays_broken(entries, migration_types, k + 1, n);
    }
}

proof fn lemma_object_view_push(fields: Seq<(String, JsonValue)>, field: (String, JsonValue))
    ensures
        object_view(fields.push(field)) == object_view(fields).push((field.0@, json_view(field.1))),
{
    let pushed = fields.push(field);
    crate::json::lemma_fields_view_len(pushed, pushed.len());
    crate::json::lemma_fields_view_len(fields, fields.len());
    crate::json::lemma_fields_view_index(pushed, pushed.len(), fields.len() as int);
    lemma_fields_view_prefix_eq(pushed, fields, fields.len());
}

/// What resolving a literal's fields gives, as values.
pub enum Resolved {
    Done(Vec<(String, JsonValue)>),
    Skipped,
    Broken,
}

impl Literals {
    /// Resolves the "copy-from" chain of fields of a literal of the type.
    pub fn resolve_fields(&self, type_id: &String, fields: &Vec<(String, JsonValue)>) -> (res: Resolved)
        ensures
            match res {
                Resolved::Done(f) => resolve(self.view(), type_id@, object_view(fields@), 0) == Resolution::Done(object_view(f@)),
                Resolved::Skipped => resolve(self.view(), type_id@, object_view(fields@), 0) == Resolution::Skipped,
                Resolved::Broken => resolve(self.view(), type_id@, object_view(fields@), 0) == Resolution::Broken,
            },
    {
        let ghost goal = resolve(self.view(), type_id@, object_view(fields@), 0);
        let mut enriched = copy_fields(fields);
        let mut steps: usize = 0;
        loop
            invariant
                steps <= 8,
                goal == resolve(self.view(), type_id@, object_view(fields@), 0),
                goal == resolve(self.view(), type_id@, object_view(enriched@), steps as nat),
            decreases 10 - steps,
        {
            let ghost before = object_view(enriched@);
            let copy_from = remove_field(&mut enriched, "copy-from");
            match copy_from {
                None => {
                    return Resolved::Done(enriched);
                },
                Some(JsonValue::Text(name)) => {
                    if steps + 2 >= 10 {
                        return Resolved::Broken;
                    }
                    match self.parent(type_id, &name) {
                        Some(p) => {
                            merge_missing(&mut enriched, &self.entries[p].fields);
                            steps += 1;
                        },
                        None => {
                            return Resolved::Skipped;
                        },
                    }
                },
                Some(_) => {
                    return Resolved::Broken;
                },
            }
        }
    }
}

/// The fields of a resolved literal as they are kept.
pub fn finalize_fields(type_id: &String, fields: Vec<(String, JsonValue)>, migration_types: &Vec<String>) -> (res: Option<
    Vec<(String, JsonValue)>,
>)
    ensures
        match res {
            Some(f) => finalize(type_id@, object_view(fields@), strings_view(migration_types@)) == Some(
                object_view(f@),
            ),
            None => finalize(type_id@, object_view(fields@), strings_view(migration_types@)) is None,
        },
{
    let mut f = fields;
    remove_field(&mut f, "id");
    remove_field(&mut f, "from");
    remove_field(&mut f, "copy-from");
    if contains_text(migration_types, type_id.as_str()) {
        let replace = String::from_str("replace");
        proof {
            reveal_strlit("replace");
        }
        match remove_field(&mut f, "new_id") {
            Some(new_id) => {
                if present(&f, "to") || present(&f, "replace") {
                    return None;
                }
                let ghost before = f@;
                f.push((replace, new_id));
                proof {
                    lemma_object_view_push(before, f@.last());
                    assert(f@ == before.push(f@.last()));
                }
            },
            None => {
                match remove_field(&mut f, "to") {
                    Some(to) => {
                        if present(&f, "replace") {
                            return None;
                        }
                        let ghost before = f@;
                        f.push((replace, to));
                        proof {
                            lemma_object_view_push(before, f@.last());
                            assert(f@ == before.push(f@.last()));
                        }
                    },
                    None => {},
                }
            },
        }
    }
    Some(f)
}

impl Literals {
    /// The enriched literals: for each type and id, the literal that counts,
    /// unless it is abstract or a literal it copies from is missing or
    /// ambiguous, with the fields of the literals it copies from; `None`
    /// where the format is broken.
    pub fn enrich(&self, migration_types: &Vec<String>) -> (res: Option<Vec<LiteralEntry>>)
        ensures
            match res {
                Some(v) => enriched_upto(self.view(), strings_view(migration_types@), self.view().len())
                    == Some(entries_view(v@)),
                None => enriched_upto(self.view(), strings_view(migration_types@), self.view().len()) is None,
            },
    {
        let ghost view = self.view();
        let ghost mt = strings_view(migration_types@);
        let mut res: Vec<LiteralEntry> = Vec::new();
        let mut i: usize = 0;
        while i < self.entries.len()
            invariant
                i <= self.entries@.len(),
                view == self.view(),
                view.len() == self.entries@.len(),
                mt == strings_view(migration_types@),
                enriched_upto(view, mt, i as nat) == Some(entries_view(res@)),
            decreases self.entries@.len() - i,
        {
            let e = &self.entries[i];
            let ghost ev = view[i as int];
            assert(ev == entry_view(*e));
            let current = match self.find(&e.type_id, &e.id) {
                Some(k) => k == i,
                None => false,
            };
            if current && !present(&e.fields, "abstract") {
                match self.resolve_fields(&e.type_id, &e.fields) {
                    Resolved::Done(f) => {
                        match finalize_fields(&e.type_id, f, migration_types) {
                            Some(g) => {
                                let ghost before = res@;
                                let ghost gv = object_view(g@);
                                res.push(LiteralEntry { type_id: e.type_id.clone(), id: e.id.clone(), fields: g });
                                assert(entries_view(res@) =~= entries_view(before).push((ev.0, ev.1, gv)));
                            },
                            None => {
                                proof {
                                    lemma_enriched_stays_broken(view, mt, (i + 1) as nat, view.len());
                                }
                                return None;
                            },
                        }
                    },
                    Resolved::Skipped => {},
                    Resolved::Broken => {
                        proof {
                            lemma_enriched_stays_broken(view, mt, (i + 1) as nat, view.len());
                        }
                        return None;
                    },
                }
            }
            i += 1;
        }
        Some(res)
    }
}

proof fn lemma_field_value_push(fields: FieldsView, field: (Seq<char>, JsonView), key: Seq<char>)
    ensures
        field_value(fields.push(field), key) == if field_value(fields, key) is Some {
            field_value(fields, key)
        } else if field.0 == key {
            Some(field.1)
        } else {
            None
        },
    decreases fields.len(),
{
    crate::json::lemma_field_index_bounds(fields, key);
    if fields.len() == 0 {
        assert(fields.push(field).drop_first() =~= Seq::<(Seq<char>, JsonView)>::empty());
    } else {
        assert(fields.push(field).drop_first() =~= fields.drop_first().push(field));
        lemma_field_value_push(fields.drop_first(), field, key);
        crate::json::lemma_field_index_bounds(fields.drop_first(), key);
        crate::json::lemma_field_index_bounds(fields.drop_first().push(field), key);
    }
}

/// Law: copying from a literal keeps the literal's own fields and takes from
/// the other one the fields that it lacks: a key's value afterwards is the
/// literal's own where it has one, else the other literal's.
pub proof fn law_copy_keeps_own_fields(fields: FieldsView, parent: FieldsView, key: Seq<char>)
    ensures
        field_value(merged(fields, parent), key) == if field_value(fields, key) is Some {
            field_value(fields, key)
        } else {
            field_value(parent, key)
        },
    decreases parent.len(),
{
    if parent.len() > 0 {
        let head = parent[0];
        let next = if field_index(fields, head.0) is Some {
            fields
        } else {
            fields.push(head)
        };
        law_copy_keeps_own_fields(next, parent.drop_first(), key);
        if field_index(fields, head.0) is None {
            lemma_field_value_push(fields, head, key);
        }
        crate::json::lemma_field_index_bounds(parent, key);
        crate::json::lemma_field_index_bounds(parent.drop_first(), key);
        crate::json::lemma_field_index_bounds(fields, key);
    }
}

} // verus!
