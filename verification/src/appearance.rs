use vstd::prelude::*;
use crate::crafting_rules::ObjectCategory;
use crate::sorting::same_text;
use crate::text::{contains_text, strings_view};

verus! {

/// What an object looks like where it has no look of its own: the first
/// entry of the table for its id, where there is one.
pub open spec fn looks_like_of(table: Seq<(String, String)>, id: Seq<char>) -> Option<Seq<char>>
    decreases table.len(),
{
    if table.len() == 0 {
        None
    } else {
        match looks_like_of(table.drop_last(), id) {
            Some(other) => Some(other),
            None => if table.last().0@ == id { Some(table.last().1@) } else { None },
        }
    }
}

/// The ids of the table.
pub open spec fn table_ids(table: Seq<(String, String)>) -> Seq<Seq<char>> {
    table.map_values(|entry: (String, String)| entry.0@)
}

/// The names under which the look of an id is searched: its summer
/// variant, itself, and its variants as a vehicle part, plain and covered.
pub open spec fn variant_names(id: Seq<char>) -> Seq<Seq<char>> {
    seq![id + "_season_summer"@, id, "vp_"@ + id, "vp_"@ + id + "_cover"@]
}

/// The names of `current` and of what it looks like, and so on, after
/// `names`, until something looks like nothing or like a name already
/// listed. `steps` bounds the number of ids followed.
pub open spec fn variants_from(table: Seq<(String, String)>, current: Seq<char>, names: Seq<Seq<char>>, steps: nat) -> Seq<Seq<char>>
    decreases steps,
{
    if steps == 0 {
        names
    } else {
        match looks_like_of(table, current) {
            None => names,
            Some(other) => if names.contains(other) {
                names
            } else {
                variants_from(table, other, names + variant_names(other), (steps - 1) as nat)
            },
        }
    }
}

/// The names under which the look of an object is searched, in order: those
/// of its own id, then those of what it looks like, following the table
/// until something looks like nothing or like a name already listed. The
/// table has no more ids than entries, so it is followed to the end.
pub open spec fn spec_variants(table: Seq<(String, String)>, id: Seq<char>) -> Seq<Seq<char>> {
    variants_from(table, id, variant_names(id), table.len())
}

proof fn lemma_found_is_id(table: Seq<(String, String)>, id: Seq<char>)
    requires
        looks_like_of(table, id) is Some,
    ensures
        table_ids(table).contains(id),
    decreases table.len(),
{
    if looks_like_of(table.drop_last(), id) is Some {
        lemma_found_is_id(table.drop_last(), id);
        let i = choose|i: int| 0 <= i < table_ids(table.drop_last()).len() && table_ids(table.drop_last())[i] == id;
        assert(table_ids(table)[i] == id);
    } else {
        assert(table_ids(table)[table.len() - 1] == id);
    }
}

proof fn lemma_prefix_found(table: Seq<(String, String)>, id: Seq<char>, k: int)
    requires
        0 <= k <= table.len(),
        looks_like_of(table.take(k), id) is Some,
    ensures
        looks_like_of(table, id) == looks_like_of(table.take(k), id),
    decreases table.len() - k,
{
    if k < table.len() {
        assert(table.take(k + 1).drop_last() =~= table.take(k));
        assert(looks_like_of(table.take(k + 1), id) == looks_like_of(table.take(k), id));
        lemma_prefix_found(table, id, k + 1);
    } else {
        assert(table.take(k) =~= table);
    }
}

fn find_looks_like(table: &Vec<(String, String)>, id: &str) -> (res: Option<usize>)
    ensures
        match res {
            Some(i) => i < table@.len() && looks_like_of(table@, id@) == Some(table@[i as int].1@),
            None => looks_like_of(table@, id@) is None,
        },
{
    let mut i: usize = 0;
    while i < table.len()
        invariant
            i <= table@.len(),
            looks_like_of(table@.take(i as int), id@) is None,
        decreases table@.len() - i,
    {
        proof {
            assert(table@.take(i + 1).drop_last() =~= table@.take(i as int));
            assert(table@.take(i + 1).last() == table@[i as int]);
        }
        if same_text(table[i].0.as_str(), id) {
            proof {
                lemma_prefix_found(table@, id@, i + 1);
            }
            return Some(i);
        }
        i += 1;
    }
    assert(table@.take(table@.len() as int) =~= table@);
    None
}

/// What an object of a kind looks like, by the table of what the objects of
/// that kind look like.
pub fn looks_like(table: &Vec<(String, String)>, id: &str) -> (res: Option<String>)
    ensures
        match res {
            Some(other) => looks_like_of(table@, id@) == Some(other@),
            None => looks_like_of(table@, id@) is None,
        },
{
    match find_looks_like(table, id) {
        Some(i) => Some(table[i].1.clone()),
        None => None,
    }
}

fn push_variant_names(names: &mut Vec<String>, id: &str)
    ensures
        strings_view(final(names)@) == strings_view(old(names)@) + variant_names(id@),
{
    let ghost start = names@;
    let mut summer = String::from_str(id);
    summer.append("_season_summer");
    let plain = String::from_str(id);
    let mut part = String::from_str("vp_");
    part.append(id);
    let mut cover = String::from_str("vp_");
    cover.append(id);
    cover.append("_cover");
    names.push(summer);
    names.push(plain);
    names.push(part);
    names.push(cover);
    assert(strings_view(names@) =~= strings_view(start) + variant_names(id@));
}

/// The names under which the look of an object with the id is searched,
/// with the table of what the objects of its kind look like.
pub fn variants(table: &Vec<(String, String)>, id: &str) -> (res: Vec<String>)
    ensures
        strings_view(res@) == spec_variants(table@, id@),
{
    let mut res: Vec<String> = Vec::new();
    push_variant_names(&mut res, id);
    assert(strings_view(Seq::<String>::empty()) =~= Seq::<Seq<char>>::empty());
    let mut current = String::from_str(id);
    let ghost n = table@.len();
    let ghost ids = table_ids(table@).to_set();
    let ghost mut visited: Set<Seq<char>> = Set::empty();
    let ghost mut k: nat = 0;
    proof {
        assert(variant_names(id@)[1] == id@);
        table_ids(table@).lemma_cardinality_of_set();
    }
    loop
        invariant
            n == table@.len(),
            ids == table_ids(table@).to_set(),
            ids.len() <= n,
            k <= n,
            visited.finite(),
            visited.len() == k,
            visited.subset_of(ids),
            forall|v: Seq<char>| #[trigger] visited.contains(v) ==> strings_view(res@).contains(v),
            strings_view(res@).contains(current@),
            !visited.contains(current@),
            spec_variants(table@, id@) == variants_from(table@, current@, strings_view(res@), (n - k) as nat),
        decreases n - k,
    {
        match find_looks_like(table, current.as_str()) {
            None => {
                return res;
            },
            Some(index) => {
                let other = &table[index].1;
                if contains_text(&res, other.as_str()) {
                    return res;
                }
                proof {
                    lemma_found_is_id(table@, current@);
                    let grown = visited.insert(current@);
                    assert(grown.subset_of(ids));
                    vstd::set_lib::lemma_len_subset(grown, ids);
                    assert(n - k > 0);
                }
                let ghost names_before = strings_view(res@);
                push_variant_names(&mut res, other.as_str());
                proof {
                    assert(variant_names(other@)[1] == other@);
                    assert(strings_view(res@)[names_before.len() as int + 1] == other@);
                    assert forall|v: Seq<char>| #[trigger] visited.insert(current@).contains(v) implies strings_view(res@).contains(v) by {
                        let j = choose|j: int| 0 <= j < names_before.len() && names_before[j] == v;
                        assert(strings_view(res@)[j] == v);
                    }
                    assert(!visited.insert(current@).contains(other@));
                    visited = visited.insert(current@);
                    k = k + 1;
                }
                current = other.clone();
            },
        }
    }
}

/// The names under which the look of an object is searched: just its id for
/// the objects of the interface (the cursor), else as `variants` gives them.
pub fn object_variants(category: ObjectCategory, table: &Vec<(String, String)>, id: &str) -> (res: Vec<String>)
    ensures
        category == ObjectCategory::Meta ==> strings_view(res@) == seq![id@],
        category != ObjectCategory::Meta ==> strings_view(res@) == spec_variants(table@, id@),
{
    if category == ObjectCategory::Meta {
        let res = vec![String::from_str(id)];
        assert(strings_view(res@) =~= seq![id@]);
        res
    } else {
        variants(table, id)
    }
}

proof fn lemma_names_kept(table: Seq<(String, String)>, current: Seq<char>, names: Seq<Seq<char>>, steps: nat)
    ensures
        variants_from(table, current, names, steps).len() >= names.len(),
        variants_from(table, current, names, steps).take(names.len() as int) == names,
    decreases steps,
{
    if steps > 0 {
        if let Some(other) = looks_like_of(table, current) {
            if !names.contains(other) {
                let more = names + variant_names(other);
                lemma_names_kept(table, other, more, (steps - 1) as nat);
                assert(more.take(names.len() as int) =~= names);
                assert(variants_from(table, current, names, steps).take(names.len() as int)
                    =~= variants_from(table, other, more, (steps - 1) as nat).take(more.len() as int).take(names.len() as int));
            }
        }
    }
    if variants_from(table, current, names, steps) == names {
        assert(names.take(names.len() as int) =~= names);
    }
}

/// Law: the names of an object's own id come first, in their order, whatever it
/// looks like.
pub proof fn law_own_names_first(table: Seq<(String, String)>, id: Seq<char>)
    ensures
        spec_variants(table, id).len() >= 4,
        spec_variants(table, id).take(4) == variant_names(id),
{
    lemma_names_kept(table, id, variant_names(id), table.len());
}

} // verus!
