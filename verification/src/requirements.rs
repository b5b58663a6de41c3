use vstd::prelude::*;
use crate::sorting::same_text;
use crate::text::{contains_text, strings_view};

verus! {

/// One way to meet a component of a recipe: an amount of an item, or a
/// requirement (a named list of components, or an item of that id) taken
/// `factor` times.
pub enum Alternative {
    Item { item: String, required: u32 },
    Requirement { requirement: String, factor: u32 },
}

/// A requirement of the game data: its id and its components, each a list
/// of alternatives.
pub struct RequirementEntry {
    pub id: String,
    pub components: Vec<Vec<Alternative>>,
}

/// The index of the first requirement with the id, if any.
pub open spec fn requirement_index(table: Seq<RequirementEntry>, id: Seq<char>) -> Option<int>
    decreases table.len(),
{
    if table.len() == 0 {
        None
    } else {
        match requirement_index(table.drop_last(), id) {
            Some(i) => Some(i),
            None => if table.last().id@ == id { Some(table.len() - 1) } else { None },
        }
    }
}

/// What expanding an alternative gives.
pub ghost enum Expansion {
    /// The items and their amounts.
    Items(Seq<(Seq<char>, int)>),
    /// The requirement is neither a requirement nor an item.
    Unexpected(Seq<char>),
    /// The requirements refer to each other without end.
    Endless,
    /// An amount does not fit in 32 bits.
    Overflow,
}

/// The items, each amount taken `factor` times; `Overflow` where a product
/// does not fit in 32 bits.
pub open spec fn scaled(items: Seq<(Seq<char>, int)>, factor: int) -> Expansion
    decreases items.len(),
{
    if items.len() == 0 {
        Expansion::Items(Seq::empty())
    } else {
        match scaled(items.drop_last(), factor) {
            Expansion::Items(done) => if factor * items.last().1 <= u32::MAX {
                Expansion::Items(done.push((items.last().0, factor * items.last().1)))
            } else {
                Expansion::Overflow
            },
            other => other,
        }
    }
}

/// An item expands to itself. A requirement with an entry in the table
/// expands to the expansions of all alternatives of its components, in
/// order, each amount taken `factor` times; an alternative that fails with
/// `Unexpected` adds nothing. A requirement without an entry that is a known
/// item expands to `factor` of that item, else it is unexpected. `depth` is
/// the number of requirements that may still be looked up on the way down.
pub open spec fn expand(table: Seq<RequirementEntry>, items: Seq<Seq<char>>, alternative: Alternative, depth: nat) -> Expansion
    decreases depth, 0int, 0int,
{
    match alternative {
        Alternative::Item { item, required } => Expansion::Items(seq![(item@, required as int)]),
        Alternative::Requirement { requirement, factor } => {
            if depth == 0 {
                Expansion::Endless
            } else {
                match requirement_index(table, requirement@) {
                    Some(i) => if 0 <= i < table.len() {
                        expand_components(table, items, table[i].components@, factor as int, (depth - 1) as nat)
                    } else {
                        Expansion::Endless
                    },
                    None => if items.contains(requirement@) {
                        Expansion::Items(seq![(requirement@, factor as int)])
                    } else {
                        Expansion::Unexpected(requirement@)
                    },
                }
            }
        },
    }
}

/// The expansions of all alternatives of the components, one after the other.
pub open spec fn expand_components(
    table: Seq<RequirementEntry>,
    items: Seq<Seq<char>>,
    components: Seq<Vec<Alternative>>,
    factor: int,
    depth: nat,
) -> Expansion
    decreases depth, 1int, components.len(),
{
    if components.len() == 0 {
        Expansion::Items(Seq::empty())
    } else {
        expand_more(
            table,
            items,
            expand_components(table, items, components.drop_last(), factor, depth),
            components.last()@,
            factor,
            depth,
        )
    }
}

/// What has been expanded so far, followed by the expansions of the
/// alternatives: each amount taken `factor` times, unexpected ones skipped.
/// Once something ends without items, that stays.
pub open spec fn expand_more(
    table: Seq<RequirementEntry>,
    items: Seq<Seq<char>>,
    so_far: Expansion,
    alternatives: Seq<Alternative>,
    factor: int,
    depth: nat,
) -> Expansion
    decreases depth, 0int, alternatives.len() + 1,
{
    if alternatives.len() == 0 {
        so_far
    } else {
        match expand_more(table, items, so_far, alternatives.drop_last(), factor, depth) {
            Expansion::Items(done) => match expand(table, items, alternatives.last(), depth) {
                Expansion::Items(more) => match scaled(more, factor) {
                    Expansion::Items(more) => Expansion::Items(done + more),
                    other => other,
                },
                Expansion::Unexpected(_) => Expansion::Items(done),
                other => other,
            },
            other => other,
        }
    }
}

/// The expansion of an alternative with enough depth for every chain of
/// requirements that does not come back to itself.
pub open spec fn spec_expansion(table: Seq<RequirementEntry>, items: Seq<Seq<char>>, alternative: Alternative) -> Expansion {
    expand(table, items, alternative, (table.len() + 1) as nat)
}

/// An expansion, as computed.
pub enum ExpansionResult {
    Items(Vec<(String, u32)>),
    Unexpected(String),
    Endless,
    Overflow,
}

pub open spec fn pairs_view(items: Seq<(String, u32)>) -> Seq<(Seq<char>, int)> {
    items.map_values(|p: (String, u32)| (p.0@, p.1 as int))
}

impl View for ExpansionResult {
    type V = Expansion;

    open spec fn view(&self) -> Expansion {
        match self {
            ExpansionResult::Items(items) => Expansion::Items(pairs_view(items@)),
            ExpansionResult::Unexpected(id) => Expansion::Unexpected(id@),
            ExpansionResult::Endless => Expansion::Endless,
            ExpansionResult::Overflow => Expansion::Overflow,
        }
    }
}

fn find_requirement(table: &Vec<RequirementEntry>, id: &str) -> (res: Option<usize>)
    ensures
        match res {
            Some(i) => requirement_index(table@, id@) == Some(i as int) && i < table@.len(),
            None => requirement_index(table@, id@) is None,
        },
{
    let mut i: usize = 0;
    while i < table.len()
        invariant
            i <= table@.len(),
            requirement_index(table@.take(i as int), id@) is None,
        decreases table@.len() - i,
    {
        proof {
            assert(table@.take(i + 1).drop_last() =~= table@.take(i as int));
        }
        if same_text(table[i].id.as_str(), id) {
            proof {
                lemma_index_in_prefix(table@, id@, i as int + 1);
            }
            return Some(i);
        }
        i += 1;
    }
    proof {
        assert(table@.take(table@.len() as int) =~= table@);
    }
    None
}

/// The first index in a prefix that holds the id is the first in the whole table.
proof fn lemma_index_in_prefix(table: Seq<RequirementEntry>, id: Seq<char>, k: int)
    requires
        0 <= k <= table.len(),
        requirement_index(table.take(k), id) is Some,
    ensures
        requirement_index(table, id) == requirement_index(table.take(k), id),
    decreases table.len() - k,
{
    if k < table.len() {
        assert(table.take(k + 1).drop_last() =~= table.take(k));
        assert(requirement_index(table.take(k + 1), id) == requirement_index(table.take(k), id));
        lemma_index_in_prefix(table, id, k + 1);
    } else {
        assert(table.take(k) =~= table);
    }
}

fn scale(items: Vec<(String, u32)>, factor: u32) -> (res: ExpansionResult)
    ensures
        res@ == scaled(pairs_view(items@), factor as int),
{
    let mut done: Vec<(String, u32)> = Vec::new();
    let mut i: usize = 0;
    assert(pairs_view(items@.take(0)) =~= Seq::<(Seq<char>, int)>::empty());
    assert(pairs_view(done@) =~= Seq::<(Seq<char>, int)>::empty());
    while i < items.len()
        invariant
            i <= items@.len(),
            scaled(pairs_view(items@.take(i as int)), factor as int) == Expansion::Items(pairs_view(done@)),
        decreases items@.len() - i,
    {
        proof {
            assert(pairs_view(items@.take(i + 1)).drop_last() =~= pairs_view(items@.take(i as int)));
            assert(pairs_view(items@.take(i + 1)).last() == pairs_view(items@)[i as int]);
        }
        let amount = items[i].1;
        if amount > 0 && factor > u32::MAX / amount {
            proof {
                assert(factor * amount > u32::MAX) by (nonlinear_arith)
                    requires amount > 0, factor > u32::MAX / amount;
                lemma_overflow_stays(items@, factor as int, i as int + 1);
            }
            return ExpansionResult::Overflow;
        }
        proof {
            assert(factor * amount <= u32::MAX) by (nonlinear_arith)
                requires amount == 0 || factor <= u32::MAX / amount;
        }
        let ghost before = done@;
        done.push((items[i].0.clone(), factor * amount));
        proof {
            assert(pairs_view(done@) =~= pairs_view(before).push((items@[i as int].0@, factor * amount)));
        }
        i += 1;
    }
    proof {
        assert(items@.take(items@.len() as int) =~= items@);
    }
    ExpansionResult::Items(done)
}

/// Once a prefix overflows, so does every longer one.
proof fn lemma_overflow_stays(items: Seq<(String, u32)>, factor: int, k: int)
    requires
        0 <= k <= items.len(),
        scaled(pairs_view(items.take(k)), factor) == Expansion::Overflow,
    ensures
        scaled(pairs_view(items), factor) == Expansion::Overflow,
    decreases items.len() - k,
{
    if k < items.len() {
        assert(pairs_view(items.take(k + 1)).drop_last() =~= pairs_view(items.take(k)));
        lemma_overflow_stays(items, factor, k + 1);
    } else {
        assert(items.take(k) =~= items);
    }
}

/// Something that is not items stays as it is, whatever is expanded after it.
proof fn lemma_more_after_stuck(
    table: Seq<RequirementEntry>,
    items: Seq<Seq<char>>,
    so_far: Expansion,
    alternatives: Seq<Alternative>,
    factor: int,
    depth: nat,
)
    requires
        !(so_far is Items),
    ensures
        expand_more(table, items, so_far, alternatives, factor, depth) == so_far,
    decreases alternatives.len(),
{
    if alternatives.len() > 0 {
        lemma_more_after_stuck(table, items, so_far, alternatives.drop_last(), factor, depth);
    }
}

/// Where a prefix of the alternatives ends without items, so do all of them.
proof fn lemma_more_stuck_prefix(
    table: Seq<RequirementEntry>,
    items: Seq<Seq<char>>,
    so_far: Expansion,
    alternatives: Seq<Alternative>,
    k: int,
    factor: int,
    depth: nat,
)
    requires
        0 <= k <= alternatives.len(),
        !(expand_more(table, items, so_far, alternatives.take(k), factor, depth) is Items),
    ensures
        expand_more(table, items, so_far, alternatives, factor, depth)
            == expand_more(table, items, so_far, alternatives.take(k), factor, depth),
    decreases alternatives.len() - k,
{
    if k < alternatives.len() {
        assert(alternatives.take(k + 1).drop_last() =~= alternatives.take(k));
        lemma_more_stuck_prefix(table, items, so_far, alternatives, k + 1, factor, depth);
    } else {
        assert(alternatives.take(k) =~= alternatives);
    }
}

/// Where a prefix of the components ends without items, so do all of them.
proof fn lemma_components_stuck_prefix(
    table: Seq<RequirementEntry>,
    items: Seq<Seq<char>>,
    components: Seq<Vec<Alternative>>,
    k: int,
    factor: int,
    depth: nat,
)
    requires
        0 <= k <= components.len(),
        !(expand_components(table, items, components.take(k), factor, depth) is Items),
    ensures
        expand_components(table, items, components, factor, depth)
            == expand_components(table, items, components.take(k), factor, depth),
    decreases components.len() - k,
{
    if k < components.len() {
        assert(components.take(k + 1).drop_last() =~= components.take(k));
        lemma_more_after_stuck(
            table,
            items,
            expand_components(table, items, components.take(k), factor, depth),
            components[k]@,
            factor,
            depth,
        );
        lemma_components_stuck_prefix(table, items, components, k + 1, factor, depth);
    } else {
        assert(components.take(k) =~= components);
    }
}

/// The expansion of an alternative, looking up at most `depth` requirements
/// on the way down.
fn expand_within(table: &Vec<RequirementEntry>, items: &Vec<String>, alternative: &Alternative, depth: usize) -> (res: ExpansionResult)
    ensures
        res@ == expand(table@, strings_view(items@), *alternative, depth as nat),
    decreases depth,
{
    match alternative {
        Alternative::Item { item, required } => {
            let res = vec![(item.clone(), *required)];
            assert(pairs_view(res@) =~= seq![(item@, *required as int)]);
            ExpansionResult::Items(res)
        },
        Alternative::Requirement { requirement, factor } => {
            if depth == 0 {
                return ExpansionResult::Endless;
            }
            match find_requirement(table, requirement.as_str()) {
                Some(index) => {
                    let components = &table[index].components;
                    let ghost comps = components@;
                    let ghost t = table@;
                    let ghost names = strings_view(items@);
                    let ghost f = *factor as int;
                    let ghost d = (depth - 1) as nat;
                    let ghost goal = expand(table@, strings_view(items@), *alternative, depth as nat);
                    assert(goal == expand_components(t, names, comps, f, d));
                    let mut done: Vec<(String, u32)> = Vec::new();
                    let mut c: usize = 0;
                    assert(comps.take(0) =~= Seq::<Vec<Alternative>>::empty());
                    assert(pairs_view(done@) =~= Seq::<(Seq<char>, int)>::empty());
                    while c < components.len()
                        invariant
                            comps == components@,
                            c <= comps.len(),
                            expand_components(t, names, comps.take(c as int), f, d) == Expansion::Items(pairs_view(done@)),
                            t == table@,
                            names == strings_view(items@),
                            f == *factor as int,
                            d == (depth - 1) as nat,
                            depth > 0,
                            goal == expand(table@, strings_view(items@), *alternative, depth as nat),
                            goal == expand_components(t, names, comps, f, d),
                        decreases comps.len() - c,
                    {
                        let alternatives = &components[c];
                        let ghost start = expand_components(t, names, comps.take(c as int), f, d);
                        let mut a: usize = 0;
                        assert(alternatives@.take(0) =~= Seq::<Alternative>::empty());
                        while a < alternatives.len()
                            invariant
                                comps == components@,
                                c < comps.len(),
                                alternatives@ == comps[c as int]@,
                                a <= alternatives@.len(),
                                start == expand_components(t, names, comps.take(c as int), f, d),
                                expand_more(t, names, start, alternatives@.take(a as int), f, d)
                                    == Expansion::Items(pairs_view(done@)),
                                t == table@,
                                names == strings_view(items@),
                                f == *factor as int,
                                d == (depth - 1) as nat,
                                depth > 0,
                                goal == expand(table@, strings_view(items@), *alternative, depth as nat),
                                goal == expand_components(t, names, comps, f, d),
                            decreases alternatives@.len() - a,
                        {
                            proof {
                                assert(alternatives@.take(a + 1).drop_last() =~= alternatives@.take(a as int));
                                assert(alternatives@.take(a + 1).last() == alternatives@[a as int]);
                            }
                            let inner = expand_within(table, items, &alternatives[a], depth - 1);
                            match inner {
                                ExpansionResult::Items(more) => {
                                    match scale(more, *factor) {
                                        ExpansionResult::Items(scaled_more) => {
                                            let ghost before = done@;
                                            let ghost added = scaled_more@;
                                            let mut scaled_more = scaled_more;
                                            done.append(&mut scaled_more);
                                            proof {
                                                assert(pairs_view(done@) =~= pairs_view(before) + pairs_view(added));
                                            }
                                        },
                                        other => {
                                            proof {
                                                assert(expand_more(t, names, start, alternatives@.take(a + 1), f, d) == other@);
                                                lemma_more_stuck_prefix(t, names, start, alternatives@, a + 1, f, d);
                                                assert(comps.take(c + 1).drop_last() =~= comps.take(c as int));
                                                assert(comps.take(c + 1).last() == comps[c as int]);
                                                assert(expand_components(t, names, comps.take(c + 1), f, d) == other@);
                                                lemma_components_stuck_prefix(t, names, comps, c + 1, f, d);
                                            }
                                            return other;
                                        },
                                    }
                                },
                                ExpansionResult::Unexpected(_) => {},
                                other => {
                                    proof {
                                        assert(expand_more(t, names, start, alternatives@.take(a + 1), f, d) == other@);
                                        lemma_more_stuck_prefix(t, names, start, alternatives@, a + 1, f, d);
                                        assert(comps.take(c + 1).drop_last() =~= comps.take(c as int));
                                        assert(comps.take(c + 1).last() == comps[c as int]);
                                        assert(expand_components(t, names, comps.take(c + 1), f, d) == other@);
                                        lemma_components_stuck_prefix(t, names, comps, c + 1, f, d);
                                    }
                                    return other;
                                },
                            }
                            a += 1;
                        }
                        proof {
                            assert(alternatives@.take(alternatives@.len() as int) =~= alternatives@);
                            assert(comps.take(c + 1).drop_last() =~= comps.take(c as int));
                        }
                        c += 1;
                    }
                    proof {
                        assert(comps.take(comps.len() as int) =~= comps);
                    }
                    ExpansionResult::Items(done)
                },
                None => {
                    if contains_text(items, requirement.as_str()) {
                        let res = vec![(requirement.clone(), *factor)];
                        assert(pairs_view(res@) =~= seq![(requirement@, *factor as int)]);
                        ExpansionResult::Items(res)
                    } else {
                        ExpansionResult::Unexpected(requirement.clone())
                    }
                },
            }
        },
    }
}

/// The expansion of an alternative into items and amounts, with the
/// requirements of the table and the ids of the known items. It is endless
/// only where requirements refer to each other in a circle.
pub fn expansion(table: &Vec<RequirementEntry>, items: &Vec<String>, alternative: &Alternative) -> (res: ExpansionResult)
    requires
        table@.len() < usize::MAX,
    ensures
        res@ == spec_expansion(table@, strings_view(items@), *alternative),
{
    expand_within(table, items, alternative, table.len() + 1)
}

/// The expansion ends: the requirements do not refer to each other in a
/// circle on the way down, and every amount fits in 32 bits.
pub open spec fn expansion_ends(table: Seq<RequirementEntry>, items: Seq<Seq<char>>, alternative: Alternative) -> bool {
    let e = spec_expansion(table, items, alternative);
    !(e is Endless) && !(e is Overflow)
}

/// The items and amounts that an alternative stands for, or the id of a
/// requirement that is neither a requirement nor a known item.
pub fn expand_items(table: &Vec<RequirementEntry>, items: &Vec<String>, alternative: &Alternative) -> (res: Result<Vec<(String, u32)>, String>)
    requires
        table@.len() < usize::MAX,
        expansion_ends(table@, strings_view(items@), *alternative),
    ensures
        match res {
            Ok(expanded) => spec_expansion(table@, strings_view(items@), *alternative) == Expansion::Items(pairs_view(expanded@)),
            Err(id) => spec_expansion(table@, strings_view(items@), *alternative) == Expansion::Unexpected(id@),
        },
{
    match expansion(table, items, alternative) {
        ExpansionResult::Items(expanded) => Ok(expanded),
        ExpansionResult::Unexpected(id) => Err(id),
        ExpansionResult::Endless => Err(String::new()),
        ExpansionResult::Overflow => Err(String::new()),
    }
}

/// The pairs whose item is among the known items, in order.
pub open spec fn known_only(pairs: Seq<(Seq<char>, int)>, items: Seq<Seq<char>>) -> Seq<(Seq<char>, int)>
    decreases pairs.len(),
{
    if pairs.len() == 0 {
        Seq::empty()
    } else {
        known_only(pairs.drop_last(), items) + if items.contains(pairs.last().0) {
            seq![pairs.last()]
        } else {
            Seq::empty()
        }
    }
}

/// The items that the alternatives of a component stand for, one
/// alternative after the other: an unexpected requirement adds nothing, and
/// only known items are kept.
pub open spec fn spec_component_items(table: Seq<RequirementEntry>, items: Seq<Seq<char>>, alternatives: Seq<Alternative>) -> Seq<(Seq<char>, int)>
    decreases alternatives.len(),
{
    if alternatives.len() == 0 {
        Seq::empty()
    } else {
        spec_component_items(table, items, alternatives.drop_last()) + match spec_expansion(table, items, alternatives.last()) {
            Expansion::Items(expanded) => known_only(expanded, items),
            _ => Seq::empty(),
        }
    }
}

fn keep_known(pairs: Vec<(String, u32)>, items: &Vec<String>, kept: &mut Vec<(String, u32)>)
    ensures
        pairs_view(final(kept)@) == pairs_view(old(kept)@) + known_only(pairs_view(pairs@), strings_view(items@)),
{
    let ghost start = kept@;
    let mut i: usize = 0;
    assert(pairs_view(pairs@.take(0)) =~= Seq::<(Seq<char>, int)>::empty());
    while i < pairs.len()
        invariant
            i <= pairs@.len(),
            pairs_view(kept@) == pairs_view(start) + known_only(pairs_view(pairs@.take(i as int)), strings_view(items@)),
        decreases pairs@.len() - i,
    {
        proof {
            assert(pairs_view(pairs@.take(i + 1)).drop_last() =~= pairs_view(pairs@.take(i as int)));
            assert(pairs_view(pairs@.take(i + 1)).last() == pairs_view(pairs@)[i as int]);
        }
        let ghost before = kept@;
        if contains_text(items, pairs[i].0.as_str()) {
            kept.push((pairs[i].0.clone(), pairs[i].1));
            assert(pairs_view(kept@) =~= pairs_view(before).push((pairs@[i as int].0@, pairs@[i as int].1 as int)));
        }
        assert(pairs_view(kept@) =~= pairs_view(start) + known_only(pairs_view(pairs@.take(i + 1)), strings_view(items@)));
        i += 1;
    }
    assert(pairs@.take(pairs@.len() as int) =~= pairs@);
}

/// The known items that the alternatives of a component of a recipe stand
/// for, with their amounts.
pub fn component_items(table: &Vec<RequirementEntry>, items: &Vec<String>, alternatives: &Vec<Alternative>) -> (res: Vec<(String, u32)>)
    requires
        table@.len() < usize::MAX,
        forall|i: int| 0 <= i < alternatives@.len() ==> expansion_ends(table@, strings_view(items@), #[trigger] alternatives@[i]),
    ensures
        pairs_view(res@) == spec_component_items(table@, strings_view(items@), alternatives@),
{
    let mut res: Vec<(String, u32)> = Vec::new();
    let mut i: usize = 0;
    assert(alternatives@.take(0) =~= Seq::<Alternative>::empty());
    assert(pairs_view(res@) =~= Seq::<(Seq<char>, int)>::empty());
    while i < alternatives.len()
        invariant
            i <= alternatives@.len(),
            table@.len() < usize::MAX,
            forall|j: int| 0 <= j < alternatives@.len() ==> expansion_ends(table@, strings_view(items@), #[trigger] alternatives@[j]),
            pairs_view(res@) == spec_component_items(table@, strings_view(items@), alternatives@.take(i as int)),
        decreases alternatives@.len() - i,
    {
        proof {
            assert(alternatives@.take(i + 1).drop_last() =~= alternatives@.take(i as int));
            assert(alternatives@.take(i + 1).last() == alternatives@[i as int]);
        }
        match expansion(table, items, &alternatives[i]) {
            ExpansionResult::Items(expanded) => {
                keep_known(expanded, items, &mut res);
            },
            _ => {
                assert(pairs_view(res@) =~= spec_component_items(table@, strings_view(items@), alternatives@.take(i + 1)));
            },
        }
        i += 1;
    }
    assert(alternatives@.take(alternatives@.len() as int) =~= alternatives@);
    res
}

} // verus!
