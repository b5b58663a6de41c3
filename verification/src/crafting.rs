use vstd::prelude::*;
use crate::units::EntityId;
use crate::text::{TextColor, TextSection, TextView, fixed, owned, number, extend, push, sections_view, strings_view, copy_strings, TextContent};

verus! {

/// A tool quality that a recipe needs, and the best one nearby.
#[derive(Clone, Debug)]
pub struct QualitySituation {
    pub name: String,
    pub present: Option<i8>,
    pub required: u8,
}

impl QualitySituation {
    pub open spec fn spec_is_present(&self) -> bool {
        self.present matches Some(p) && (self.required as i8) <= p
    }

    /// A nearby tool has the quality at the required level or better.
    pub fn is_present(&self) -> (res: bool)
        ensures
            res == self.spec_is_present(),
    {
        match self.present {
            Some(present) => (#[verifier::truncate] (self.required as i8)) <= present,
            None => false,
        }
    }
}

/// One way to meet a requirement of a recipe: an item in some amount.
#[derive(Clone, Debug)]
pub struct AlternativeSituation {
    pub name: String,
    /// The amount (or charges) the recipe needs.
    pub required: u32,
    /// The amount (or charges) nearby.
    pub present: u32,
    /// Whether the amount nearby is shown.
    pub counted: bool,
    /// The nearby items that crafting would use.
    pub consumed: Vec<EntityId>,
}

impl AlternativeSituation {
    pub open spec fn spec_is_present(&self) -> bool {
        self.required <= self.present
    }

    /// Enough is nearby.
    pub fn is_present(&self) -> (res: bool)
        ensures
            res == self.spec_is_present(),
    {
        self.required <= self.present
    }
}

/// Some alternative is nearby in sufficient amount.
pub open spec fn any_present(alternatives: Seq<AlternativeSituation>) -> bool {
    exists|i: int| 0 <= i < alternatives.len() && (#[trigger] alternatives[i]).spec_is_present()
}

/// The index of the first alternative that is present.
pub open spec fn first_present(alternatives: Seq<AlternativeSituation>) -> int {
    choose|i: int| 0 <= i < alternatives.len() && alternatives[i].spec_is_present()
        && forall|j: int| 0 <= j < i ==> !(#[trigger] alternatives[j]).spec_is_present()
}

fn find_present(alternatives: &Vec<AlternativeSituation>) -> (res: Option<usize>)
    ensures
        res is None <==> !any_present(alternatives@),
        res matches Some(i) ==> i == first_present(alternatives@) && i < alternatives@.len(),
{
    let mut i: usize = 0;
    while i < alternatives.len()
        invariant
            i <= alternatives@.len(),
            forall|j: int| 0 <= j < i ==> !(#[trigger] alternatives@[j]).spec_is_present(),
        decreases alternatives@.len() - i,
    {
        if alternatives[i].is_present() {
            proof {
                let f = first_present(alternatives@);
                assert(alternatives@[i as int].spec_is_present());
                if f != i {
                    assert(alternatives@[f].spec_is_present());
                    assert(f < i || f > i);
                }
            }
            return Some(i);
        }
        i += 1;
    }
    None
}

/// A tool that a recipe needs, with its alternatives.
#[derive(Clone, Debug)]
pub struct ToolSituation {
    pub alternatives: Vec<AlternativeSituation>,
}

impl ToolSituation {
    /// One of the alternatives is nearby.
    pub fn is_present(&self) -> (res: bool)
        ensures
            res == any_present(self.alternatives@),
    {
        find_present(&self.alternatives).is_some()
    }
}

/// A component that a recipe consumes, with its alternatives.
#[derive(Clone, Debug)]
pub struct ComponentSituation {
    pub alternatives: Vec<AlternativeSituation>,
}

impl ComponentSituation {
    /// One of the alternatives is nearby.
    pub fn is_present(&self) -> (res: bool)
        ensures
            res == any_present(self.alternatives@),
    {
        find_present(&self.alternatives).is_some()
    }
}

/// What the crafting screen shows of the recipe itself.
#[derive(Clone, Debug)]
pub struct RecipeInfo {
    pub fallback_name: String,
    pub skill_used: Option<String>,
    pub difficulty: u8,
    /// The duration of the craft, as text.
    pub time: Option<String>,
}

/// A recipe as the crafting screen shows it: what it needs and what is nearby.
#[derive(Clone, Debug)]
pub struct RecipeSituation {
    pub recipe: RecipeInfo,
    pub name: String,
    pub autolearn: bool,
    pub manuals: Vec<String>,
    pub qualities: Vec<QualitySituation>,
    pub tools: Vec<ToolSituation>,
    pub components: Vec<ComponentSituation>,
}

impl RecipeSituation {
    /// The recipe.
    pub fn recipe(&self) -> (res: &RecipeInfo)
        ensures
            res == &self.recipe,
    {
        &self.recipe
    }

    pub open spec fn spec_craftable(&self) -> bool {
        &&& forall|i: int| 0 <= i < self.qualities@.len() ==> (#[trigger] self.qualities@[i]).spec_is_present()
        &&& forall|i: int| 0 <= i < self.tools@.len() ==> any_present((#[trigger] self.tools@[i]).alternatives@)
        &&& forall|i: int| 0 <= i < self.components@.len() ==> any_present((#[trigger] self.components@[i]).alternatives@)
    }

    /// Every quality, tool and component that the recipe needs is nearby.
    pub fn craftable(&self) -> (res: bool)
        ensures
            res == self.spec_craftable(),
    {
        let mut i: usize = 0;
        while i < self.qualities.len()
            invariant
                i <= self.qualities@.len(),
                forall|j: int| 0 <= j < i ==> (#[trigger] self.qualities@[j]).spec_is_present(),
            decreases self.qualities@.len() - i,
        {
            if !self.qualities[i].is_present() {
                return false;
            }
            i += 1;
        }
        let mut i: usize = 0;
        while i < self.tools.len()
            invariant
                i <= self.tools@.len(),
                forall|j: int| 0 <= j < self.qualities@.len() ==> (#[trigger] self.qualities@[j]).spec_is_present(),
                forall|j: int| 0 <= j < i ==> any_present((#[trigger] self.tools@[j]).alternatives@),
            decreases self.tools@.len() - i,
        {
            if !self.tools[i].is_present() {
                return false;
            }
            i += 1;
        }
        let mut i: usize = 0;
        while i < self.components.len()
            invariant
                i <= self.components@.len(),
                forall|j: int| 0 <= j < self.qualities@.len() ==> (#[trigger] self.qualities@[j]).spec_is_present(),
                forall|j: int| 0 <= j < self.tools@.len() ==> any_present((#[trigger] self.tools@[j]).alternatives@),
                forall|j: int| 0 <= j < i ==> any_present((#[trigger] self.components@[j]).alternatives@),
            decreases self.components@.len() - i,
        {
            if !self.components[i].is_present() {
                return false;
            }
            i += 1;
        }
        true
    }

    pub open spec fn spec_color(&self, selected: bool) -> TextColor {
        if self.spec_craftable() {
            if selected { TextColor::Good } else { TextColor::Hard }
        } else if selected {
            TextColor::Bad
        } else {
            TextColor::Soft
        }
    }

    /// Craftable recipes stand out; the selected one most.
    pub fn color(&self, selected: bool) -> (res: TextColor)
        ensures
            res == self.spec_color(selected),
    {
        if self.craftable() {
            if selected { TextColor::Good } else { TextColor::Hard }
        } else if selected {
            TextColor::Bad
        } else {
            TextColor::Soft
        }
    }

    /// For each tool, the index of the alternative whose charges crafting uses:
    /// the first one that is present.
    pub fn consumed_tool_charges(&self) -> (res: Vec<usize>)
        requires
            forall|i: int| 0 <= i < self.tools@.len() ==> any_present((#[trigger] self.tools@[i]).alternatives@),
        ensures
            res@.len() == self.tools@.len(),
            forall|i: int| 0 <= i < res@.len() ==> #[trigger] res@[i] == first_present(self.tools@[i].alternatives@),
    {
        let mut res: Vec<usize> = Vec::new();
        let mut i: usize = 0;
        while i < self.tools.len()
            invariant
                i <= self.tools@.len(),
                forall|j: int| 0 <= j < self.tools@.len() ==> any_present((#[trigger] self.tools@[j]).alternatives@),
                res@.len() == i,
                forall|j: int| 0 <= j < i ==> #[trigger] res@[j] == first_present(self.tools@[j].alternatives@),
            decreases self.tools@.len() - i,
        {
            let found = find_present(&self.tools[i].alternatives);
            match found {
                Some(k) => res.push(k),
                None => {
                    assert(any_present(self.tools@[i as int].alternatives@));
                    assert(false);
                },
            }
            i += 1;
        }
        res
    }

    /// For each component, the index of the alternative that crafting
    /// consumes: the first one that is present.
    pub fn consumed_components(&self) -> (res: Vec<usize>)
        requires
            forall|i: int| 0 <= i < self.components@.len() ==> any_present((#[trigger] self.components@[i]).alternatives@),
        ensures
            res@.len() == self.components@.len(),
            forall|i: int| 0 <= i < res@.len() ==> #[trigger] res@[i] == first_present(self.components@[i].alternatives@),
    {
        let mut res: Vec<usize> = Vec::new();
        let mut i: usize = 0;
        while i < self.components.len()
            invariant
                i <= self.components@.len(),
                forall|j: int| 0 <= j < self.components@.len() ==> any_present((#[trigger] self.components@[j]).alternatives@),
                res@.len() == i,
                forall|j: int| 0 <= j < i ==> #[trigger] res@[j] == first_present(self.components@[j].alternatives@),
            decreases self.components@.len() - i,
        {
            let found = find_present(&self.components[i].alternatives);
            match found {
                Some(k) => res.push(k),
                None => {
                    assert(any_present(self.components@[i as int].alternatives@));
                    assert(false);
                },
            }
            i += 1;
        }
        res
    }
}

/// Law: a craftable recipe consumes, for every tool and component, an
/// alternative that is nearby in sufficient amount.
pub proof fn law_craftable_consumes_present(recipe: RecipeSituation, i: int)
    requires
        recipe.spec_craftable(),
    ensures
        0 <= i < recipe.tools@.len() ==> recipe.tools@[i].alternatives@[first_present(recipe.tools@[i].alternatives@)].spec_is_present()
            && 0 <= first_present(recipe.tools@[i].alternatives@) < recipe.tools@[i].alternatives@.len(),
        0 <= i < recipe.components@.len() ==> recipe.components@[i].alternatives@[first_present(recipe.components@[i].alternatives@)].spec_is_present()
            && 0 <= first_present(recipe.components@[i].alternatives@) < recipe.components@[i].alternatives@.len(),
{
    if 0 <= i < recipe.tools@.len() {
        lemma_first_present_exists(recipe.tools@[i].alternatives@);
    }
    if 0 <= i < recipe.components@.len() {
        lemma_first_present_exists(recipe.components@[i].alternatives@);
    }
}

proof fn lemma_first_present_exists(alternatives: Seq<AlternativeSituation>)
    requires
        any_present(alternatives),
    ensures
        0 <= first_present(alternatives) < alternatives.len(),
        alternatives[first_present(alternatives)].spec_is_present(),
        forall|j: int| 0 <= j < first_present(alternatives) ==> !(#[trigger] alternatives[j]).spec_is_present(),
    decreases alternatives.len(),
{
    let k = choose|k: int| 0 <= k < alternatives.len() && (#[trigger] alternatives[k]).spec_is_present();
    lemma_lowest_present(alternatives, k);
}

proof fn lemma_lowest_present(alternatives: Seq<AlternativeSituation>, k: int)
    requires
        0 <= k < alternatives.len(),
        alternatives[k].spec_is_present(),
    ensures
        exists|i: int| 0 <= i < alternatives.len() && alternatives[i].spec_is_present()
            && forall|j: int| 0 <= j < i ==> !(#[trigger] alternatives[j]).spec_is_present(),
    decreases k,
{
    if exists|j: int| 0 <= j < k && (#[trigger] alternatives[j]).spec_is_present() {
        let j = choose|j: int| 0 <= j < k && (#[trigger] alternatives[j]).spec_is_present();
        lemma_lowest_present(alternatives, j);
    } else {
        assert(forall|j: int| 0 <= j < k ==> !(#[trigger] alternatives[j]).spec_is_present());
    }
}


// The texts of the crafting screen.

impl QualitySituation {
    pub open spec fn spec_checked_color(&self) -> TextColor {
        if self.spec_is_present() { TextColor::Good } else { TextColor::Bad }
    }

    pub open spec fn spec_text(&self) -> Seq<(TextView, TextColor)> {
        let checked = self.spec_checked_color();
        let head = seq![
            (TextView::Chars("\n- "@), TextColor::Soft),
            (TextView::Chars(self.name@), checked),
            (TextView::Chars(": a tool of "@), TextColor::Soft),
        ];
        let required = self.required as i8;
        head + match self.present {
            Some(present) => if present > required {
                seq![
                    (TextView::Number(""@, present as i64, ""@), checked),
                    (TextView::Number(" ("@, self.required as i64, " required)"@), TextColor::Soft),
                ]
            } else if present == required {
                seq![(TextView::Number(""@, present as i64, ""@), checked)]
            } else {
                seq![
                    (TextView::Number(""@, self.required as i64, " required"@), checked),
                    (TextView::Number(" ("@, present as i64, " present)"@), TextColor::Soft),
                ]
            },
            None => seq![(TextView::Number(""@, self.required as i64, " required"@), checked)],
        }
    }

    /// The line of the quality: its name, coloured by whether it is present,
    /// then the level present compared with the level required.
    pub fn text_sections(&self) -> (res: Vec<TextSection>)
        ensures
            sections_view(res@) == self.spec_text(),
    {
        let checked = if self.is_present() { TextColor::Good } else { TextColor::Bad };
        let mut res: Vec<TextSection> = Vec::new();
        push(&mut res, fixed("\n- ", TextColor::Soft));
        push(&mut res, owned(&self.name, checked));
        push(&mut res, fixed(": a tool of ", TextColor::Soft));
        let required = #[verifier::truncate] (self.required as i8);
        match self.present {
            Some(present) => {
                if present > required {
                    push(&mut res, number("", present as i64, "", checked));
                    push(&mut res, number(" (", self.required as i64, " required)", TextColor::Soft));
                } else if present == required {
                    push(&mut res, number("", present as i64, "", checked));
                } else {
                    push(&mut res, number("", self.required as i64, " required", checked));
                    push(&mut res, number(" (", present as i64, " present)", TextColor::Soft));
                }
            },
            None => {
                push(&mut res, number("", self.required as i64, " required", checked));
            },
        }
        assert(sections_view(res@) =~= self.spec_text());
        res
    }
}

impl AlternativeSituation {
    pub open spec fn spec_presence_color(&self) -> TextColor {
        if self.spec_is_present() { TextColor::Good } else { TextColor::Bad }
    }

    pub open spec fn spec_text(&self) -> Seq<(TextView, TextColor)> {
        seq![(TextView::Requirement(self.name@, self.required), self.spec_presence_color())] + if self.counted {
            seq![(
                TextView::Number(if self.present < self.required { " (only "@ } else { " ("@ }, self.present as i64, " present)"@),
                TextColor::Soft,
            )]
        } else {
            Seq::empty()
        }
    }

    /// The colour of the alternative: good when present.
    pub fn presence_color(&self) -> (res: TextColor)
        ensures
            res == self.spec_presence_color(),
    {
        if self.is_present() { TextColor::Good } else { TextColor::Bad }
    }

    /// The requirement, coloured by presence, then the amount present when it
    /// is counted, marked when it falls short.
    pub fn text_sections(&self) -> (res: Vec<TextSection>)
        ensures
            sections_view(res@) == self.spec_text(),
    {
        let mut res: Vec<TextSection> = Vec::new();
        push(&mut res, TextSection {
            content: TextContent::Requirement { name: self.name.clone(), amount: self.required },
            color: self.presence_color(),
        });
        if self.counted {
            let before = if self.present < self.required { " (only " } else { " (" };
            push(&mut res, number(before, self.present as i64, " present)", TextColor::Soft));
        }
        assert(sections_view(res@) =~= self.spec_text());
        res
    }
}

/// The divider before the alternative at `index` of `len`: a new line before
/// the first, "or" before the last, commas between.
pub open spec fn spec_divider(index: int, len: int) -> Seq<char> {
    if index == 0 {
        "\n- "@
    } else if index < len - 1 {
        ", "@
    } else {
        ", or "@
    }
}

/// The alternatives among the first `k`, each after its divider.
pub open spec fn alternatives_text(alternatives: Seq<AlternativeSituation>, k: nat) -> Seq<(TextView, TextColor)>
    decreases k,
{
    if k == 0 || k > alternatives.len() {
        Seq::empty()
    } else {
        alternatives_text(alternatives, (k - 1) as nat) + seq![
            (TextView::Chars(spec_divider(k - 1, alternatives.len() as int)), TextColor::Soft),
        ] + alternatives[k - 1].spec_text()
    }
}

fn alternatives_sections(alternatives: &Vec<AlternativeSituation>) -> (res: Vec<TextSection>)
    ensures
        sections_view(res@) == alternatives_text(alternatives@, alternatives@.len()),
{
    let mut res: Vec<TextSection> = Vec::new();
    let mut index: usize = 0;
    let len = alternatives.len();
    while index < len
        invariant
            len == alternatives@.len(),
            index <= len,
            sections_view(res@) == alternatives_text(alternatives@, index as nat),
        decreases len - index,
    {
        let divider = if index == 0 {
            "\n- "
        } else if index < len - 1 {
            ", "
        } else {
            ", or "
        };
        push(&mut res, fixed(divider, TextColor::Soft));
        extend(&mut res, alternatives[index].text_sections());
        index += 1;
    }
    res
}

impl ToolSituation {
    /// The alternatives of the tool, separated by commas and a final "or".
    pub fn text_sections(&self) -> (res: Vec<TextSection>)
        ensures
            sections_view(res@) == alternatives_text(self.alternatives@, self.alternatives@.len()),
    {
        alternatives_sections(&self.alternatives)
    }
}

impl ComponentSituation {
    /// The alternatives of the component, separated by commas and a final "or".
    pub fn text_sections(&self) -> (res: Vec<TextSection>)
        ensures
            sections_view(res@) == alternatives_text(self.alternatives@, self.alternatives@.len()),
    {
        alternatives_sections(&self.alternatives)
    }
}

pub open spec fn qualities_text(qualities: Seq<QualitySituation>, k: nat) -> Seq<(TextView, TextColor)>
    decreases k,
{
    if k == 0 || k > qualities.len() {
        Seq::empty()
    } else {
        qualities_text(qualities, (k - 1) as nat) + qualities[k - 1].spec_text()
    }
}

pub open spec fn tools_text(tools: Seq<ToolSituation>, k: nat) -> Seq<(TextView, TextColor)>
    decreases k,
{
    if k == 0 || k > tools.len() {
        Seq::empty()
    } else {
        tools_text(tools, (k - 1) as nat) + alternatives_text(tools[k - 1].alternatives@, tools[k - 1].alternatives@.len())
    }
}

pub open spec fn components_text(components: Seq<ComponentSituation>, k: nat) -> Seq<(TextView, TextColor)>
    decreases k,
{
    if k == 0 || k > components.len() {
        Seq::empty()
    } else {
        components_text(components, (k - 1) as nat) + alternatives_text(
            components[k - 1].alternatives@,
            components[k - 1].alternatives@.len(),
        )
    }
}

impl RecipeSituation {
    /// The opening lines: the result, the skill and difficulty, the duration
    /// and the heading of the tools.
    pub open spec fn spec_head_text(&self, recipe: RecipeInfo) -> Seq<(TextView, TextColor)> {
        let head = seq![
            (TextView::Chars("Result: "@), TextColor::Soft),
            (TextView::Chars(self.name@), self.spec_color(true)),
            (TextView::Framed("\n("@, recipe.fallback_name@, ")"@), TextColor::Soft),
        ];
        let skill = match recipe.skill_used {
            Some(skill_used) => seq![
                (TextView::Chars("\n\nSkill: "@), TextColor::Soft),
                (TextView::Chars(skill_used@), TextColor::Warn),
                (TextView::Chars("\nDifficulty: "@), TextColor::Soft),
                (TextView::Number(""@, recipe.difficulty as i64, ""@), TextColor::Warn),
            ],
            None => Seq::empty(),
        };
        let time = match recipe.time {
            Some(time) => seq![
                (TextView::Chars("\n\nDuration: "@), TextColor::Soft),
                (TextView::Chars(time@), TextColor::Warn),
            ],
            None => Seq::empty(),
        };
        let tools_header = if self.qualities@.len() > 0 || self.tools@.len() > 0 {
            seq![(TextView::Chars("\n\nTools"@), TextColor::Soft)]
        } else {
            Seq::empty()
        };
        head + skill + time + tools_header
    }

    /// The closing lines: where the recipe is known from.
    pub open spec fn spec_source_text(&self) -> Seq<(TextView, TextColor)> {
        seq![
            (TextView::Chars("\n\nSource: "@), TextColor::Soft),
            (TextView::Chars(if self.autolearn { "Self-taught"@ } else { ""@ }), TextColor::Good),
            (TextView::Chars(if self.autolearn && self.manuals@.len() > 0 { ", "@ } else { ""@ }), TextColor::Good),
            (TextView::Joined(strings_view(self.manuals@), ", "@), TextColor::Warn),
        ]
    }

    /// The components, after their heading when there are any.
    pub open spec fn spec_components_part(&self) -> Seq<(TextView, TextColor)> {
        (if self.components@.len() > 0 {
            seq![(TextView::Chars("\n\nComponents"@), TextColor::Soft)]
        } else {
            Seq::empty()
        }) + components_text(self.components@, self.components@.len())
    }

    /// The details of the recipe: the result, the skill and difficulty, the
    /// duration, the tools, the components and where the recipe is known from.
    pub open spec fn spec_text(&self, recipe: RecipeInfo) -> Seq<(TextView, TextColor)> {
        self.spec_head_text(recipe) + qualities_text(self.qualities@, self.qualities@.len()) + tools_text(
            self.tools@,
            self.tools@.len(),
        ) + self.spec_components_part() + self.spec_source_text()
    }

    fn head_sections(&self, recipe: &RecipeInfo) -> (res: Vec<TextSection>)
        ensures
            sections_view(res@) == self.spec_head_text(*recipe),
    {
        let mut res: Vec<TextSection> = Vec::new();
        push(&mut res, fixed("Result: ", TextColor::Soft));
        push(&mut res, owned(&self.name, self.color(true)));
        push(&mut res, TextSection {
            content: TextContent::Framed { before: "\n(", text: recipe.fallback_name.clone(), after: ")" },
            color: TextColor::Soft,
        });
        match &recipe.skill_used {
            Some(skill_used) => {
                push(&mut res, fixed("\n\nSkill: ", TextColor::Soft));
                push(&mut res, owned(skill_used, TextColor::Warn));
                push(&mut res, fixed("\nDifficulty: ", TextColor::Soft));
                push(&mut res, number("", recipe.difficulty as i64, "", TextColor::Warn));
            },
            None => {},
        }
        match &recipe.time {
            Some(time) => {
                push(&mut res, fixed("\n\nDuration: ", TextColor::Soft));
                push(&mut res, owned(time, TextColor::Warn));
            },
            None => {},
        }
        if self.qualities.len() > 0 || self.tools.len() > 0 {
            push(&mut res, fixed("\n\nTools", TextColor::Soft));
        }
        assert(sections_view(res@) =~= self.spec_head_text(*recipe));
        res
    }

    fn qualities_sections(&self) -> (res: Vec<TextSection>)
        ensures
            sections_view(res@) == qualities_text(self.qualities@, self.qualities@.len()),
    {
        let mut res: Vec<TextSection> = Vec::new();
        let mut i: usize = 0;
        while i < self.qualities.len()
            invariant
                i <= self.qualities@.len(),
                sections_view(res@) == qualities_text(self.qualities@, i as nat),
            decreases self.qualities@.len() - i,
        {
            extend(&mut res, self.qualities[i].text_sections());
            i += 1;
        }
        res
    }

    fn tools_sections(&self) -> (res: Vec<TextSection>)
        ensures
            sections_view(res@) == tools_text(self.tools@, self.tools@.len()),
    {
        let mut res: Vec<TextSection> = Vec::new();
        let mut i: usize = 0;
        while i < self.tools.len()
            invariant
                i <= self.tools@.len(),
                sections_view(res@) == tools_text(self.tools@, i as nat),
            decreases self.tools@.len() - i,
        {
            extend(&mut res, self.tools[i].text_sections());
            i += 1;
        }
        res
    }

    fn components_sections(&self) -> (res: Vec<TextSection>)
        ensures
            sections_view(res@) == self.spec_components_part(),
    {
        let mut res: Vec<TextSection> = Vec::new();
        if self.components.len() > 0 {
            push(&mut res, fixed("\n\nComponents", TextColor::Soft));
        }
        let ghost header = sections_view(res@);
        let mut i: usize = 0;
        while i < self.components.len()
            invariant
                i <= self.components@.len(),
                sections_view(res@) == header + components_text(self.components@, i as nat),
            decreases self.components@.len() - i,
        {
            extend(&mut res, self.components[i].text_sections());
            assert(header + components_text(self.components@, i as nat) + alternatives_text(
                self.components@[i as int].alternatives@,
                self.components@[i as int].alternatives@.len(),
            ) =~= header + components_text(self.components@, (i + 1) as nat));
            i += 1;
        }
        assert(sections_view(res@) =~= self.spec_components_part());
        res
    }

    fn source_sections(&self) -> (res: Vec<TextSection>)
        ensures
            sections_view(res@) == self.spec_source_text(),
    {
        let mut res: Vec<TextSection> = Vec::new();
        push(&mut res, fixed("\n\nSource: ", TextColor::Soft));
        push(&mut res, fixed(if self.autolearn { "Self-taught" } else { "" }, TextColor::Good));
        push(&mut res, fixed(if self.autolearn && self.manuals.len() > 0 { ", " } else { "" }, TextColor::Good));
        push(&mut res, TextSection {
            content: TextContent::Joined { texts: copy_strings(&self.manuals), separator: ", " },
            color: TextColor::Warn,
        });
        assert(sections_view(res@) =~= self.spec_source_text());
        res
    }

    /// The details of the recipe, as the crafting screen shows them.
    pub fn text_sections(&self, recipe: &RecipeInfo) -> (res: Vec<TextSection>)
        ensures
            sections_view(res@) == self.spec_text(*recipe),
    {
        let mut res = self.head_sections(recipe);
        extend(&mut res, self.qualities_sections());
        extend(&mut res, self.tools_sections());
        extend(&mut res, self.components_sections());
        extend(&mut res, self.source_sections());
        res
    }
}

} // verus!
