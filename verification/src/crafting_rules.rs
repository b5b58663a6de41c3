use vstd::prelude::*;
use crate::sorting::{law_stable_sort_keeps_length, lemma_text_le_antisymmetric, lemma_text_le_total, lemma_text_le_transitive, sort_stable, stable_sort, text_before_or_same, text_le, SortKey};
use crate::units::EntityId;
use crate::crafting::{AlternativeSituation, ComponentSituation, QualitySituation, RecipeInfo, RecipeSituation, ToolSituation};

verus! {

/// The kinds of objects of the game world.
#[derive(Clone, Copy, Debug, PartialEq, Eq, Structural)]
pub enum ObjectCategory {
    Character,
    Field,
    Furniture,
    Item,
    Meta,
    Terrain,
    VehiclePart,
    ZoneLevel,
}

/// A skill of the player and its level.
pub struct SkillLevel {
    pub name: String,
    pub level: u8,
}

/// A skill level that a recipe asks for.
pub struct SkillRequirement {
    pub name: String,
    pub level: u8,
}

/// How a recipe can be learnt without a manual.
pub enum AutoLearn {
    /// Self-taught when `true` and the skill of the recipe suffices.
    Bool(bool),
    /// Self-taught when every listed skill suffices.
    Skills(Vec<SkillRequirement>),
}

/// The level of the named skill, if the player has it.
pub open spec fn skill_level(skills: Seq<SkillLevel>, name: Seq<char>) -> Option<u8>
    decreases skills.len(),
{
    if skills.len() == 0 {
        None
    } else if skills.last().name@ == name {
        Some(skills.last().level)
    } else {
        skill_level(skills.drop_last(), name)
    }
}

/// The skill suffices for the level; unknown skills do not.
pub open spec fn skill_suffices(skills: Seq<SkillLevel>, name: Seq<char>, level: u8) -> bool {
    skill_level(skills, name) matches Some(l) && level <= l
}

/// The skills that `autolearn_recipe` looks up are known: the checks stop at
/// the first one that fails.
pub open spec fn autolearn_skills_known(
    autolearn: AutoLearn,
    skill_used: Option<String>,
    skills: Seq<SkillLevel>,
) -> bool {
    match autolearn {
        AutoLearn::Bool(b) => b ==> (skill_used matches Some(s) ==> skill_level(skills, s@) is Some),
        AutoLearn::Skills(list) => forall|i: int|
            0 <= i < list@.len() && (forall|j: int|
                0 <= j < i ==> skill_suffices(skills, (#[trigger] list@[j]).name@, list@[j].level))
                ==> skill_level(skills, (#[trigger] list@[i]).name@) is Some,
    }
}

pub open spec fn spec_autolearn(
    autolearn: AutoLearn,
    skill_used: Option<String>,
    difficulty: u8,
    skills: Seq<SkillLevel>,
) -> bool {
    match autolearn {
        AutoLearn::Bool(b) => b && match skill_used {
            Some(s) => skill_suffices(skills, s@, difficulty),
            None => true,
        },
        AutoLearn::Skills(list) => forall|i: int|
            0 <= i < list@.len() ==> skill_suffices(skills, (#[trigger] list@[i]).name@, list@[i].level),
    }
}

fn find_skill(skills: &Vec<SkillLevel>, name: &String) -> (res: Option<u8>)
    ensures
        res == skill_level(skills@, name@),
{
    let mut k: usize = skills.len();
    assert(skills@.take(k as int) =~= skills@);
    while k > 0
        invariant
            k <= skills@.len(),
            skill_level(skills@, name@) == skill_level(skills@.take(k as int), name@),
        decreases k,
    {
        proof {
            assert(skills@.take(k as int).drop_last() =~= skills@.take(k - 1));
        }
        if skills[k - 1].name == *name {
            return Some(skills[k - 1].level);
        }
        k -= 1;
    }
    None
}

/// Whether the player learnt the recipe by themselves: by the recipe's skill
/// and difficulty, or by the skill levels that the recipe lists.
pub fn autolearn_recipe(
    autolearn: &AutoLearn,
    skill_used: &Option<String>,
    difficulty: u8,
    skills: &Vec<SkillLevel>,
) -> (res: bool)
    requires
        autolearn_skills_known(*autolearn, *skill_used, skills@),
    ensures
        res == spec_autolearn(*autolearn, *skill_used, difficulty, skills@),
{
    proof {
        assert(skills@.take(skills@.len() as int) =~= skills@);
    }
    match autolearn {
        AutoLearn::Bool(b) => {
            if !*b {
                return false;
            }
            match skill_used {
                Some(s) => match find_skill(skills, s) {
                    Some(level) => difficulty <= level,
                    None => {
                        assert(false);
                        false
                    },
                },
                None => true,
            }
        },
        AutoLearn::Skills(list) => {
            let mut i: usize = 0;
            while i < list.len()
                invariant
                    autolearn_skills_known(*autolearn, *skill_used, skills@),
                    *autolearn == AutoLearn::Skills(*list),
                    skills@.take(skills@.len() as int) == skills@,
                    i <= list@.len(),
                    forall|j: int| 0 <= j < i ==> skill_suffices(skills@, (#[trigger] list@[j]).name@, list@[j].level),
                decreases list@.len() - i,
            {
                match find_skill(skills, &list[i].name) {
                    Some(level) => {
                        if !(list[i].level <= level) {
                            assert(!skill_suffices(skills@, list@[i as int].name@, list@[i as int].level));
                            return false;
                        }
                    },
                    None => {
                        assert(skill_level(skills@, list@[i as int].name@) is Some);
                        assert(false);
                    },
                }
                i += 1;
            }
            true
        },
    }
}

impl SortKey for String {
    open spec fn key_le(&self, other: &Self) -> bool {
        text_le(self@, other@)
    }

    fn le(&self, other: &Self) -> (res: bool) {
        text_before_or_same(self.as_str(), other.as_str())
    }

    proof fn lemma_key_le_total(a: &Self, b: &Self) {
        lemma_text_le_total(a@, b@);
    }

    proof fn lemma_key_le_transitive(a: &Self, b: &Self, c: &Self) {
        lemma_text_le_transitive(a@, b@, c@);
    }
}

/// An item or a piece of furniture near the player (or carried), as the
/// crafting rules read it.
pub struct NearbyItem {
    pub entity: EntityId,
    pub id: String,
    pub category: ObjectCategory,
    /// The category of the item's information, if it has any.
    pub item_category: Option<String>,
    /// The name of the item's information, if it has any.
    pub name: Option<String>,
    pub amount: u32,
    /// The tool qualities of the item, or of the furniture's crafting item.
    pub qualities: Vec<(String, i8)>,
}

/// The item is a manual, with a name.
pub open spec fn is_manual(item: NearbyItem) -> bool {
    &&& item.category == ObjectCategory::Item
    &&& item.item_category matches Some(c) && c@ == "manuals"@
    &&& item.name is Some
}

/// The manuals among the first `k` items, by id and name.
pub open spec fn manuals_among(items: Seq<NearbyItem>, k: nat) -> Seq<(String, String)>
    decreases k,
{
    if k == 0 || k > items.len() {
        Seq::empty()
    } else {
        let earlier = manuals_among(items, (k - 1) as nat);
        let item = items[k - 1];
        if is_manual(item) {
            earlier.push((item.id, item.name->0))
        } else {
            earlier
        }
    }
}

/// The name of the manual with the id; where several have it, the last one's.
pub open spec fn manual_name(manuals: Seq<(String, String)>, id: Seq<char>) -> Option<String>
    decreases manuals.len(),
{
    if manuals.len() == 0 {
        None
    } else if manuals.last().0@ == id {
        Some(manuals.last().1)
    } else {
        manual_name(manuals.drop_last(), id)
    }
}

/// The manuals nearby, by id and name.
pub fn nearby_manuals(items: &Vec<NearbyItem>) -> (res: Vec<(String, String)>)
    ensures
        res@ == manuals_among(items@, items@.len()),
{
    let manuals_text = String::from_str("manuals");
    let mut res: Vec<(String, String)> = Vec::new();
    let mut i: usize = 0;
    while i < items.len()
        invariant
            manuals_text@ == "manuals"@,
            i <= items@.len(),
            res@ == manuals_among(items@, i as nat),
        decreases items@.len() - i,
    {
        let item = &items[i];
        if item.category == ObjectCategory::Item {
            match (&item.item_category, &item.name) {
                (Some(category), Some(name)) => {
                    if *category == manuals_text {
                        res.push((item.id.clone(), name.clone()));
                    }
                },
                _ => {},
            }
        }
        i += 1;
    }
    res
}

fn find_manual(manuals: &Vec<(String, String)>, id: &String) -> (res: Option<String>)
    ensures
        res == manual_name(manuals@, id@),
{
    let mut k: usize = manuals.len();
    assert(manuals@.take(k as int) =~= manuals@);
    while k > 0
        invariant
            k <= manuals@.len(),
            manual_name(manuals@, id@) == manual_name(manuals@.take(k as int), id@),
        decreases k,
    {
        proof {
            assert(manuals@.take(k as int).drop_last() =~= manuals@.take(k - 1));
        }
        if manuals[k - 1].0 == *id {
            return Some(manuals[k - 1].1.clone());
        }
        k -= 1;
    }
    None
}

/// The names of the nearby manuals among the first `k` that teach the recipe.
pub open spec fn teaching_manuals(book_learn: Seq<String>, manuals: Seq<(String, String)>, k: nat) -> Seq<String>
    decreases k,
{
    if k == 0 || k > book_learn.len() {
        Seq::empty()
    } else {
        let earlier = teaching_manuals(book_learn, manuals, (k - 1) as nat);
        match manual_name(manuals, book_learn[k - 1]@) {
            Some(name) => earlier.push(name),
            None => earlier,
        }
    }
}

/// The names of the nearby manuals that teach the recipe, in order of name.
pub fn recipe_manuals(book_learn: &Vec<String>, manuals: &Vec<(String, String)>) -> (res: Vec<String>)
    ensures
        res@ == stable_sort(teaching_manuals(book_learn@, manuals@, book_learn@.len())),
{
    let mut found: Vec<String> = Vec::new();
    let mut i: usize = 0;
    while i < book_learn.len()
        invariant
            i <= book_learn@.len(),
            found@ == teaching_manuals(book_learn@, manuals@, i as nat),
        decreases book_learn@.len() - i,
    {
        match find_manual(manuals, &book_learn[i]) {
            Some(name) => found.push(name),
            None => {},
        }
        i += 1;
    }
    sort_stable(found)
}

/// The qualities that the item offers for crafting: those of items and of
/// furniture.
pub open spec fn offered_qualities(item: NearbyItem) -> Seq<(String, i8)> {
    if item.category == ObjectCategory::Item || item.category == ObjectCategory::Furniture {
        item.qualities@
    } else {
        Seq::empty()
    }
}

/// The qualities of the first `k` items, one after the other.
pub open spec fn offered_among(items: Seq<NearbyItem>, k: nat) -> Seq<(String, i8)>
    decreases k,
{
    if k == 0 || k > items.len() {
        Seq::empty()
    } else {
        offered_among(items, (k - 1) as nat) + offered_qualities(items[k - 1])
    }
}

/// The position of the last entry of `levels` for the quality.
pub open spec fn last_entry_of(levels: Seq<(String, i8)>, quality: Seq<char>) -> Option<int>
    decreases levels.len(),
{
    if levels.len() == 0 {
        None
    } else if levels.last().0@ == quality {
        Some(levels.len() - 1)
    } else {
        last_entry_of(levels.drop_last(), quality)
    }
}

/// `levels` with the quality of `offer` at the higher of its level there and
/// the offered one, or with `offer` added where the quality is new.
pub open spec fn raise_level(levels: Seq<(String, i8)>, offer: (String, i8)) -> Seq<(String, i8)> {
    match last_entry_of(levels, offer.0@) {
        Some(i) => levels.update(i, (levels[i].0, if levels[i].1 < offer.1 { offer.1 } else { levels[i].1 })),
        None => levels.push(offer),
    }
}

/// The best level of each quality among the first `k` offers, in the order
/// in which the qualities first come.
pub open spec fn best_levels(offers: Seq<(String, i8)>, k: nat) -> Seq<(String, i8)>
    decreases k,
{
    if k == 0 || k > offers.len() {
        Seq::empty()
    } else {
        raise_level(best_levels(offers, (k - 1) as nat), offers[k - 1])
    }
}

/// The level of the quality, if it is offered.
pub open spec fn quality_level(levels: Seq<(String, i8)>, quality: Seq<char>) -> Option<i8>
    decreases levels.len(),
{
    if levels.len() == 0 {
        None
    } else if levels.last().0@ == quality {
        Some(levels.last().1)
    } else {
        quality_level(levels.drop_last(), quality)
    }
}

proof fn lemma_last_entry_at(levels: Seq<(String, i8)>, quality: Seq<char>, i: int)
    requires
        0 <= i < levels.len(),
        levels[i].0@ == quality,
        forall|j: int| i < j < levels.len() ==> (#[trigger] levels[j]).0@ != quality,
    ensures
        last_entry_of(levels, quality) == Some(i),
    decreases levels.len(),
{
    if i < levels.len() - 1 {
        let rest = levels.drop_last();
        assert forall|j: int| i < j < rest.len() implies (#[trigger] rest[j]).0@ != quality by {
            assert(rest[j] == levels[j]);
        }
        lemma_last_entry_at(rest, quality, i);
    }
}

proof fn lemma_last_entry_none(levels: Seq<(String, i8)>, quality: Seq<char>)
    requires
        forall|j: int| 0 <= j < levels.len() ==> (#[trigger] levels[j]).0@ != quality,
    ensures
        last_entry_of(levels, quality) is None,
    decreases levels.len(),
{
    if levels.len() > 0 {
        let rest = levels.drop_last();
        assert forall|j: int| 0 <= j < rest.len() implies (#[trigger] rest[j]).0@ != quality by {
            assert(rest[j] == levels[j]);
        }
        lemma_last_entry_none(rest, quality);
    }
}

fn raise(levels: &mut Vec<(String, i8)>, quality: &String, level: i8)
    ensures
        final(levels)@ == raise_level(old(levels)@, (*quality, level)),
{
    let mut k: usize = levels.len();
    while k > 0
        invariant
            k <= levels@.len(),
            levels@ == old(levels)@,
            forall|j: int| k <= j < levels@.len() ==> (#[trigger] levels@[j]).0@ != quality@,
        decreases k,
    {
        if levels[k - 1].0 == *quality {
            let i = k - 1;
            let current = levels[i].1;
            let best = if current < level { level } else { current };
            let key = levels[i].0.clone();
            proof {
                lemma_last_entry_at(levels@, quality@, i as int);
            }
            levels.set(i, (key, best));
            return;
        }
        k -= 1;
    }
    proof {
        lemma_last_entry_none(levels@, quality@);
    }
    levels.push((quality.clone(), level));
}

/// The best level of each tool quality that the nearby items offer.
pub fn nearby_qualities(items: &Vec<NearbyItem>) -> (res: Vec<(String, i8)>)
    ensures
        res@ == best_levels(offered_among(items@, items@.len()), offered_among(items@, items@.len()).len()),
{
    let ghost offers = offered_among(items@, items@.len());
    let mut levels: Vec<(String, i8)> = Vec::new();
    let ghost mut done: nat = 0;
    let mut i: usize = 0;
    while i < items.len()
        invariant
            i <= items@.len(),
            offers == offered_among(items@, items@.len()),
            levels@ == best_levels(offered_among(items@, i as nat), offered_among(items@, i as nat).len()),
        decreases items@.len() - i,
    {
        let item = &items[i];
        let ghost before = offered_among(items@, i as nat);
        if item.category == ObjectCategory::Item || item.category == ObjectCategory::Furniture {
            let mut j: usize = 0;
            while j < item.qualities.len()
                invariant
                    j <= item.qualities@.len(),
                    item.category == ObjectCategory::Item || item.category == ObjectCategory::Furniture,
                    levels@ == best_levels(before + item.qualities@.take(j as int), (before + item.qualities@.take(j as int)).len()),
                decreases item.qualities@.len() - j,
            {
                let ghost prior = before + item.qualities@.take(j as int);
                let (quality, level) = &item.qualities[j];
                raise(&mut levels, quality, *level);
                proof {
                    let next = before + item.qualities@.take(j + 1);
                    assert(next =~= prior.push(item.qualities@[j as int]));
                    assert(next.drop_last() =~= prior);
                    assert forall|k: nat| k <= prior.len() implies best_levels(next, k) == best_levels(prior, k) by {
                        lemma_best_levels_prefix(prior, next, k);
                    }
                }
                j += 1;
            }
            proof {
                assert(item.qualities@.take(item.qualities@.len() as int) =~= item.qualities@);
                assert(offered_among(items@, (i + 1) as nat) =~= before + item.qualities@);
            }
        } else {
            proof {
                assert(offered_among(items@, (i + 1) as nat) =~= before);
            }
        }
        i += 1;
    }
    levels
}

proof fn lemma_best_levels_prefix(prior: Seq<(String, i8)>, next: Seq<(String, i8)>, k: nat)
    requires
        k <= prior.len(),
        prior.len() <= next.len(),
        forall|i: int| 0 <= i < prior.len() ==> prior[i] == next[i],
    ensures
        best_levels(next, k) == best_levels(prior, k),
    decreases k,
{
    if k > 0 {
        lemma_best_levels_prefix(prior, next, (k - 1) as nat);
    }
}

fn find_level(levels: &Vec<(String, i8)>, quality: &String) -> (res: Option<i8>)
    ensures
        res == quality_level(levels@, quality@),
{
    let mut k: usize = levels.len();
    assert(levels@.take(k as int) =~= levels@);
    while k > 0
        invariant
            k <= levels@.len(),
            quality_level(levels@, quality@) == quality_level(levels@.take(k as int), quality@),
        decreases k,
    {
        proof {
            assert(levels@.take(k as int).drop_last() =~= levels@.take(k - 1));
        }
        if levels[k - 1].0 == *quality {
            return Some(levels[k - 1].1);
        }
        k -= 1;
    }
    None
}

impl SortKey for QualitySituation {
    open spec fn key_le(&self, other: &Self) -> bool {
        text_le(self.name@, other.name@)
    }

    fn le(&self, other: &Self) -> (res: bool) {
        text_before_or_same(self.name.as_str(), other.name.as_str())
    }

    proof fn lemma_key_le_total(a: &Self, b: &Self) {
        lemma_text_le_total(a.name@, b.name@);
    }

    proof fn lemma_key_le_transitive(a: &Self, b: &Self, c: &Self) {
        lemma_text_le_transitive(a.name@, b.name@, c.name@);
    }
}

/// A tool quality among the nearby tools of the crafting screen: its name
/// and its best level nearby. The screen writes the level, a space and the
/// name.
pub struct NearbyTool {
    pub name: String,
    pub level: i8,
}

impl SortKey for NearbyTool {
    open spec fn key_le(&self, other: &Self) -> bool {
        text_le(self.name@, other.name@)
    }

    fn le(&self, other: &Self) -> (res: bool) {
        text_before_or_same(self.name.as_str(), other.name.as_str())
    }

    proof fn lemma_key_le_total(a: &Self, b: &Self) {
        lemma_text_le_total(a.name@, b.name@);
    }

    proof fn lemma_key_le_transitive(a: &Self, b: &Self, c: &Self) {
        lemma_text_le_transitive(a.name@, b.name@, c.name@);
    }
}

/// The nearby tools as the crafting screen lists them: by name, tools of
/// the same name in the given order.
pub fn nearby_tools(tools: Vec<NearbyTool>) -> (res: Vec<NearbyTool>)
    ensures
        res@ == stable_sort(tools@),
{
    sort_stable(tools)
}

/// A tool quality that a recipe asks for, with the name it is shown by.
pub struct RequiredQuality {
    pub id: String,
    pub name: String,
    pub level: u8,
}

/// The situation of each of the first `k` required qualities.
pub open spec fn quality_situations(required: Seq<RequiredQuality>, present: Seq<(String, i8)>, k: nat) -> Seq<
    QualitySituation,
>
    decreases k,
{
    if k == 0 || k > required.len() {
        Seq::empty()
    } else {
        let r = required[k - 1];
        quality_situations(required, present, (k - 1) as nat).push(
            QualitySituation { name: r.name, present: quality_level(present, r.id@), required: r.level },
        )
    }
}

/// The required qualities with the best levels nearby, in order of name.
pub fn recipe_qualities(required: &Vec<RequiredQuality>, present: &Vec<(String, i8)>) -> (res: Vec<QualitySituation>)
    ensures
        res@ == stable_sort(quality_situations(required@, present@, required@.len())),
{
    let mut situations: Vec<QualitySituation> = Vec::new();
    let mut i: usize = 0;
    while i < required.len()
        invariant
            i <= required@.len(),
            situations@ == quality_situations(required@, present@, i as nat),
        decreases required@.len() - i,
    {
        let r = &required[i];
        situations.push(QualitySituation { name: r.name.clone(), present: find_level(present, &r.id), required: r.level });
        i += 1;
    }
    sort_stable(situations)
}

impl SortKey for AlternativeSituation {
    /// Present alternatives come first.
    open spec fn key_le(&self, other: &Self) -> bool {
        self.spec_is_present() || !other.spec_is_present()
    }

    fn le(&self, other: &Self) -> (res: bool) {
        self.is_present() || !other.is_present()
    }

    proof fn lemma_key_le_total(a: &Self, b: &Self) {
    }

    proof fn lemma_key_le_transitive(a: &Self, b: &Self, c: &Self) {
    }
}

/// An item that a recipe asks for, with the name it is shown by.
pub struct RequiredItem {
    pub id: String,
    pub name: String,
    pub required: u32,
}

/// The amount of the item among the first `k` nearby items.
pub open spec fn amount_nearby(items: Seq<NearbyItem>, id: Seq<char>, k: nat) -> int
    decreases k,
{
    if k == 0 || k > items.len() {
        0
    } else {
        amount_nearby(items, id, (k - 1) as nat) + if items[k - 1].id@ == id {
            items[k - 1].amount as int
        } else {
            0
        }
    }
}

/// The nearby entities of the item among the first `k` nearby items.
pub open spec fn entities_nearby(items: Seq<NearbyItem>, id: Seq<char>, k: nat) -> Seq<EntityId>
    decreases k,
{
    if k == 0 || k > items.len() {
        Seq::empty()
    } else {
        let earlier = entities_nearby(items, id, (k - 1) as nat);
        if items[k - 1].id@ == id {
            earlier.push(items[k - 1].entity)
        } else {
            earlier
        }
    }
}

/// `a` is the alternative of the required item: the amount nearby, counted,
/// and the nearby entities that crafting would use.
pub open spec fn is_alternative_of(a: AlternativeSituation, r: RequiredItem, items: Seq<NearbyItem>) -> bool {
    &&& a.name == r.name
    &&& a.required == r.required
    &&& a.present == amount_nearby(items, r.id@, items.len())
    &&& a.counted
    &&& a.consumed@ == entities_nearby(items, r.id@, items.len())
}

pub open spec fn are_alternatives_of(alternatives: Seq<AlternativeSituation>, required: Seq<RequiredItem>, items: Seq<NearbyItem>) -> bool {
    &&& alternatives.len() == required.len()
    &&& forall|i: int| 0 <= i < required.len() ==> is_alternative_of(#[trigger] alternatives[i], required[i], items)
}

/// The amounts of every required item nearby fit in the counter.
pub open spec fn amounts_fit(required: Seq<RequiredItem>, items: Seq<NearbyItem>) -> bool {
    forall|i: int| 0 <= i < required.len() ==> amount_nearby(items, (#[trigger] required[i]).id@, items.len()) <= u32::MAX
}

proof fn lemma_amount_nearby_monotone(items: Seq<NearbyItem>, id: Seq<char>, k: nat, n: nat)
    requires
        k <= n <= items.len(),
    ensures
        0 <= amount_nearby(items, id, k) <= amount_nearby(items, id, n),
    decreases n,
{
    if k < n {
        lemma_amount_nearby_monotone(items, id, k, (n - 1) as nat);
    } else if n > 0 {
        lemma_amount_nearby_monotone(items, id, (n - 1) as nat, (n - 1) as nat);
    }
}

fn alternative_situation(r: &RequiredItem, items: &Vec<NearbyItem>) -> (res: AlternativeSituation)
    requires
        amount_nearby(items@, r.id@, items@.len()) <= u32::MAX,
    ensures
        is_alternative_of(res, *r, items@),
{
    let mut present: u32 = 0;
    let mut consumed: Vec<EntityId> = Vec::new();
    let mut i: usize = 0;
    while i < items.len()
        invariant
            i <= items@.len(),
            amount_nearby(items@, r.id@, items@.len()) <= u32::MAX,
            present == amount_nearby(items@, r.id@, i as nat),
            consumed@ == entities_nearby(items@, r.id@, i as nat),
        decreases items@.len() - i,
    {
        if items[i].id == r.id {
            proof {
                lemma_amount_nearby_monotone(items@, r.id@, (i + 1) as nat, items@.len());
            }
            present = present + items[i].amount;
            consumed.push(items[i].entity);
        }
        i += 1;
    }
    AlternativeSituation { name: r.name.clone(), required: r.required, present, counted: true, consumed }
}

/// The alternatives of a component: for each required item the amount
/// nearby, the present ones first, each group in the given order.
pub fn component_alternatives(required: &Vec<RequiredItem>, items: &Vec<NearbyItem>) -> (res: Vec<AlternativeSituation>)
    requires
        amounts_fit(required@, items@),
    ensures
        exists|alternatives: Seq<AlternativeSituation>|
            are_alternatives_of(alternatives, required@, items@) && res@ == stable_sort(alternatives),
{
    let mut alternatives: Vec<AlternativeSituation> = Vec::new();
    let mut i: usize = 0;
    while i < required.len()
        invariant
            i <= required@.len(),
            amounts_fit(required@, items@),
            alternatives@.len() == i,
            forall|j: int| 0 <= j < i ==> is_alternative_of(#[trigger] alternatives@[j], required@[j], items@),
        decreases required@.len() - i,
    {
        let a = alternative_situation(&required[i], items);
        alternatives.push(a);
        i += 1;
    }
    let ghost unsorted = alternatives@;
    let res = sort_stable(alternatives);
    assert(are_alternatives_of(unsorted, required@, items@));
    res
}

/// The situation shows the required items as alternatives, the present ones
/// first.
pub open spec fn component_matches(situation: ComponentSituation, required: Seq<RequiredItem>, items: Seq<NearbyItem>) -> bool {
    exists|alternatives: Seq<AlternativeSituation>|
        are_alternatives_of(alternatives, required, items) && situation.alternatives@ == stable_sort(alternatives)
}

/// The components of a recipe, each with its alternatives.
pub fn recipe_components(components: &Vec<Vec<RequiredItem>>, items: &Vec<NearbyItem>) -> (res: Vec<ComponentSituation>)
    requires
        forall|c: int| 0 <= c < components@.len() ==> amounts_fit((#[trigger] components@[c])@, items@),
    ensures
        res@.len() == components@.len(),
        forall|c: int| 0 <= c < components@.len() ==> component_matches(#[trigger] res@[c], components@[c]@, items@),
{
    let mut res: Vec<ComponentSituation> = Vec::new();
    let mut c: usize = 0;
    while c < components.len()
        invariant
            c <= components@.len(),
            forall|k: int| 0 <= k < components@.len() ==> amounts_fit((#[trigger] components@[k])@, items@),
            res@.len() == c,
            forall|k: int| 0 <= k < c ==> component_matches(#[trigger] res@[k], components@[k]@, items@),
        decreases components@.len() - c,
    {
        let alternatives = component_alternatives(&components[c], items);
        res.push(ComponentSituation { alternatives });
        c += 1;
    }
    res
}

impl SortKey for RecipeSituation {
    /// Craftable recipes first, then by name, then by the recipe's own name.
    open spec fn key_le(&self, other: &Self) -> bool {
        if self.spec_craftable() != other.spec_craftable() {
            self.spec_craftable()
        } else if self.name@ != other.name@ {
            text_le(self.name@, other.name@)
        } else {
            text_le(self.recipe.fallback_name@, other.recipe.fallback_name@)
        }
    }

    fn le(&self, other: &Self) -> (res: bool) {
        let a = self.craftable();
        let b = other.craftable();
        if a != b {
            a
        } else if self.name != other.name {
            text_before_or_same(self.name.as_str(), other.name.as_str())
        } else {
            text_before_or_same(self.recipe.fallback_name.as_str(), other.recipe.fallback_name.as_str())
        }
    }

    proof fn lemma_key_le_total(a: &Self, b: &Self) {
        lemma_text_le_total(a.name@, b.name@);
        lemma_text_le_total(a.recipe.fallback_name@, b.recipe.fallback_name@);
    }

    proof fn lemma_key_le_transitive(a: &Self, b: &Self, c: &Self) {
        if a.spec_craftable() == b.spec_craftable() && b.spec_craftable() == c.spec_craftable() {
            if a.name@ != b.name@ && b.name@ != c.name@ {
                lemma_text_le_transitive(a.name@, b.name@, c.name@);
                if a.name@ == c.name@ {
                    lemma_text_le_antisymmetric(a.name@, b.name@);
                }
            } else if a.name@ == b.name@ && b.name@ == c.name@ {
                lemma_text_le_transitive(a.recipe.fallback_name@, b.recipe.fallback_name@, c.recipe.fallback_name@);
            }
        }
    }
}

/// A recipe as the game data describes it, with its names resolved.
pub struct RecipeData {
    pub info: RecipeInfo,
    /// The name of the result, where the result is a known item.
    pub result_name: Option<String>,
    pub autolearn: AutoLearn,
    /// The manuals that teach the recipe.
    pub book_learn: Vec<String>,
    pub qualities: Vec<RequiredQuality>,
    pub components: Vec<Vec<RequiredItem>>,
}

/// The recipe is shown: the player learnt it, or a nearby manual teaches it,
/// and its result is a known item.
pub open spec fn is_shown(r: RecipeData, skills: Seq<SkillLevel>, manuals: Seq<(String, String)>) -> bool {
    &&& spec_autolearn(r.autolearn, r.info.skill_used, r.info.difficulty, skills)
        || teaching_manuals(r.book_learn@, manuals, r.book_learn@.len()).len() > 0
    &&& r.result_name is Some
}

/// The positions of the shown recipes among the first `k`.
pub open spec fn shown_indices(
    recipes: Seq<RecipeData>,
    skills: Seq<SkillLevel>,
    manuals: Seq<(String, String)>,
    k: nat,
) -> Seq<int>
    decreases k,
{
    if k == 0 || k > recipes.len() {
        Seq::empty()
    } else {
        let earlier = shown_indices(recipes, skills, manuals, (k - 1) as nat);
        if is_shown(recipes[k - 1], skills, manuals) {
            earlier.push(k - 1)
        } else {
            earlier
        }
    }
}

/// `s` is how the crafting screen shows the recipe `r`.
pub open spec fn situation_of(
    s: RecipeSituation,
    r: RecipeData,
    skills: Seq<SkillLevel>,
    manuals: Seq<(String, String)>,
    qualities: Seq<(String, i8)>,
    items: Seq<NearbyItem>,
) -> bool {
    &&& s.recipe == r.info
    &&& r.result_name == Some(s.name)
    &&& s.autolearn == spec_autolearn(r.autolearn, r.info.skill_used, r.info.difficulty, skills)
    &&& s.manuals@ == stable_sort(teaching_manuals(r.book_learn@, manuals, r.book_learn@.len()))
    &&& s.qualities@ == stable_sort(quality_situations(r.qualities@, qualities, r.qualities@.len()))
    &&& s.tools@.len() == 0
    &&& s.components@.len() == r.components@.len()
    &&& forall|c: int| 0 <= c < r.components@.len() ==> component_matches(#[trigger] s.components@[c], r.components@[c]@, items)
}

/// What `shown_recipes` asks of its inputs: the skills it looks up are
/// known, and the amounts nearby of what the shown recipes need fit.
pub open spec fn recipes_readable(
    recipes: Seq<RecipeData>,
    skills: Seq<SkillLevel>,
    manuals: Seq<(String, String)>,
    items: Seq<NearbyItem>,
) -> bool {
    forall|i: int| 0 <= i < recipes.len() ==> {
        &&& autolearn_skills_known((#[trigger] recipes[i]).autolearn, recipes[i].info.skill_used, skills)
        &&& is_shown(recipes[i], skills, manuals) ==> forall|c: int|
            0 <= c < recipes[i].components@.len() ==> amounts_fit((#[trigger] recipes[i].components@[c])@, items)
    }
}

fn copy_info(info: &RecipeInfo) -> (res: RecipeInfo)
    ensures
        res == *info,
{
    RecipeInfo {
        fallback_name: info.fallback_name.clone(),
        skill_used: match &info.skill_used {
            Some(s) => Some(s.clone()),
            None => None,
        },
        difficulty: info.difficulty,
        time: match &info.time {
            Some(t) => Some(t.clone()),
            None => None,
        },
    }
}

/// The recipes that the crafting screen lists: those that the player learnt
/// or that a nearby manual teaches, with a known result, each with what it
/// needs and what of that is nearby; the craftable ones first, then by name.
pub fn shown_recipes(
    recipes: &Vec<RecipeData>,
    skills: &Vec<SkillLevel>,
    manuals: &Vec<(String, String)>,
    qualities: &Vec<(String, i8)>,
    items: &Vec<NearbyItem>,
) -> (res: Vec<RecipeSituation>)
    requires
        recipes_readable(recipes@, skills@, manuals@, items@),
    ensures
        exists|built: Seq<RecipeSituation>| {
            &&& built.len() == shown_indices(recipes@, skills@, manuals@, recipes@.len()).len()
            &&& forall|i: int| 0 <= i < built.len() ==> situation_of(
                #[trigger] built[i],
                recipes@[shown_indices(recipes@, skills@, manuals@, recipes@.len())[i]],
                skills@,
                manuals@,
                qualities@,
                items@,
            )
            &&& res@ == stable_sort(built)
        },
{
    let mut built: Vec<RecipeSituation> = Vec::new();
    let mut i: usize = 0;
    while i < recipes.len()
        invariant
            i <= recipes@.len(),
            recipes_readable(recipes@, skills@, manuals@, items@),
            built@.len() == shown_indices(recipes@, skills@, manuals@, i as nat).len(),
            forall|j: int| 0 <= j < shown_indices(recipes@, skills@, manuals@, i as nat).len() ==> 0 <= #[trigger] shown_indices(recipes@, skills@, manuals@, i as nat)[j] < i,
            forall|j: int| 0 <= j < built@.len() ==> situation_of(
                #[trigger] built@[j],
                recipes@[shown_indices(recipes@, skills@, manuals@, i as nat)[j]],
                skills@,
                manuals@,
                qualities@,
                items@,
            ),
        decreases recipes@.len() - i,
    {
        let r = &recipes[i];
        assert(autolearn_skills_known(recipes@[i as int].autolearn, recipes@[i as int].info.skill_used, skills@));
        let autolearn = autolearn_recipe(&r.autolearn, &r.info.skill_used, r.info.difficulty, skills);
        let shown_manuals = recipe_manuals(&r.book_learn, manuals);
        proof {
            law_stable_sort_keeps_length(teaching_manuals(r.book_learn@, manuals@, r.book_learn@.len()));
        }
        let ghost before = built@;
        let ghost earlier = shown_indices(recipes@, skills@, manuals@, i as nat);
        if autolearn || shown_manuals.len() > 0 {
            match &r.result_name {
                Some(name) => {
                    assert(is_shown(recipes@[i as int], skills@, manuals@));
                    let situation = RecipeSituation {
                        recipe: copy_info(&r.info),
                        name: name.clone(),
                        autolearn,
                        manuals: shown_manuals,
                        qualities: recipe_qualities(&r.qualities, qualities),
                        tools: Vec::new(),
                        components: recipe_components(&r.components, items),
                    };
                    built.push(situation);
                    proof {
                        let next = shown_indices(recipes@, skills@, manuals@, (i + 1) as nat);
                        assert(next == earlier.push(i as int));
                        assert forall|j: int| 0 <= j < built@.len() implies situation_of(
                            #[trigger] built@[j],
                            recipes@[next[j]],
                            skills@,
                            manuals@,
                            qualities@,
                            items@,
                        ) by {
                            if j < before.len() {
                                assert(built@[j] == before[j]);
                                assert(next[j] == earlier[j]);
                            }
                        }
                    }
                },
                None => {
                    assert(!is_shown(recipes@[i as int], skills@, manuals@));
                },
            }
        } else {
            assert(!is_shown(recipes@[i as int], skills@, manuals@));
        }
        i += 1;
    }
    let ghost unsorted = built@;
    let res = sort_stable(built);
    assert(res@ == stable_sort(unsorted));
    res
}

proof fn lemma_quality_level_is_last_entry(levels: Seq<(String, i8)>, quality: Seq<char>)
    ensures
        quality_level(levels, quality) == match last_entry_of(levels, quality) {
            Some(i) => Some(levels[i].1),
            None => None::<i8>,
        },
        last_entry_of(levels, quality) matches Some(i) ==> 0 <= i < levels.len() && levels[i].0@ == quality,
    decreases levels.len(),
{
    if levels.len() > 0 && levels.last().0@ != quality {
        lemma_quality_level_is_last_entry(levels.drop_last(), quality);
    }
}

proof fn lemma_last_entry_same_keys(a: Seq<(String, i8)>, b: Seq<(String, i8)>, quality: Seq<char>)
    requires
        a.len() == b.len(),
        forall|i: int| 0 <= i < a.len() ==> (#[trigger] a[i]).0 == b[i].0,
    ensures
        last_entry_of(a, quality) == last_entry_of(b, quality),
    decreases a.len(),
{
    if a.len() > 0 {
        lemma_last_entry_same_keys(a.drop_last(), b.drop_last(), quality);
    }
}

proof fn lemma_raise_level_lookup(levels: Seq<(String, i8)>, offer: (String, i8), quality: Seq<char>)
    ensures
        quality == offer.0@ ==> quality_level(raise_level(levels, offer), quality) == Some(
            match quality_level(levels, quality) {
                Some(l) => if l < offer.1 { offer.1 } else { l },
                None => offer.1,
            },
        ),
        quality != offer.0@ ==> quality_level(raise_level(levels, offer), quality) == quality_level(levels, quality),
{
    let raised = raise_level(levels, offer);
    lemma_quality_level_is_last_entry(levels, quality);
    lemma_quality_level_is_last_entry(levels, offer.0@);
    lemma_quality_level_is_last_entry(raised, quality);
    match last_entry_of(levels, offer.0@) {
        Some(i) => {
            lemma_last_entry_same_keys(raised, levels, quality);
        },
        None => {
            assert(raised.drop_last() =~= levels);
        },
    }
}

/// The levels hold the quality at `level` or better.
pub open spec fn covers(levels: Seq<(String, i8)>, quality: Seq<char>, level: i8) -> bool {
    quality_level(levels, quality) matches Some(l) && level <= l
}

/// Law: for every quality that a nearby item offers, the best level nearby
/// is at least the offered one, and it is one of the offered levels.
pub proof fn law_best_level_covers_offers(offers: Seq<(String, i8)>, k: nat)
    requires
        k <= offers.len(),
    ensures
        forall|i: int| 0 <= i < k ==> covers(best_levels(offers, k), (#[trigger] offers[i]).0@, offers[i].1),
        forall|q: Seq<char>| #[trigger] quality_level(best_levels(offers, k), q) is Some ==> exists|i: int|
            0 <= i < k && (#[trigger] offers[i]).0@ == q && offers[i].1 == quality_level(best_levels(offers, k), q)->0,
    decreases k,
{
    if k > 0 {
        law_best_level_covers_offers(offers, (k - 1) as nat);
        let before = best_levels(offers, (k - 1) as nat);
        let offer = offers[k - 1];
        assert forall|i: int| 0 <= i < k implies covers(best_levels(offers, k), (#[trigger] offers[i]).0@, offers[i].1) by {
            lemma_raise_level_lookup(before, offer, offers[i].0@);
        }
        assert forall|q: Seq<char>| #[trigger] quality_level(best_levels(offers, k), q) is Some implies exists|i: int|
            0 <= i < k && (#[trigger] offers[i]).0@ == q && offers[i].1 == quality_level(best_levels(offers, k), q)->0 by {
            lemma_raise_level_lookup(before, offer, q);
            let l = quality_level(best_levels(offers, k), q)->0;
            if q == offer.0@ && l == offer.1 {
                assert(offers[k - 1].0@ == q && offers[k - 1].1 == l);
            } else {
                assert(quality_level(before, q) is Some);
                let i = choose|i: int| 0 <= i < k - 1 && (#[trigger] offers[i]).0@ == q && offers[i].1 == quality_level(before, q)->0;
                assert(0 <= i < k && offers[i].0@ == q && offers[i].1 == l);
            }
        }
    }
}

/// Law: the crafting screen lists the craftable recipes before the others.
pub proof fn law_craftable_listed_first(built: Seq<RecipeSituation>, i: int, j: int)
    requires
        0 <= i < j < stable_sort(built).len(),
        stable_sort(built)[j].spec_craftable(),
    ensures
        stable_sort(built)[i].spec_craftable(),
{
    crate::sorting::law_stable_sort_sorts(built);
    assert(stable_sort(built)[i].key_le(&stable_sort(built)[j]));
}

} // verus!
