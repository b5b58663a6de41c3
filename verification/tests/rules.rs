use rustaclysm_core::crafting::RecipeInfo;
use rustaclysm_core::crafting_rules::{
    autolearn_recipe, component_alternatives, nearby_tools, NearbyTool, nearby_manuals, nearby_qualities, recipe_components, recipe_manuals,
    recipe_qualities, shown_recipes, AutoLearn, NearbyItem, ObjectCategory, RecipeData, RequiredItem, RequiredQuality,
    SkillLevel, SkillRequirement,
};
use rustaclysm_core::sorting::{same_text, sort_stable, text_before_or_same};
use rustaclysm_core::units::EntityId;

fn skills() -> Vec<SkillLevel> {
    vec![
        SkillLevel { name: String::from("fabrication"), level: 3 },
        SkillLevel { name: String::from("cooking"), level: 0 },
    ]
}

fn nearby(bits: u64, id: &str, category: ObjectCategory, amount: u32, qualities: Vec<(&str, i8)>) -> NearbyItem {
    NearbyItem {
        entity: EntityId { bits },
        id: String::from(id),
        category,
        item_category: None,
        name: Some(String::from(id)),
        amount,
        qualities: qualities.into_iter().map(|(q, l)| (String::from(q), l)).collect(),
    }
}

fn manual(bits: u64, id: &str, name: &str) -> NearbyItem {
    NearbyItem {
        entity: EntityId { bits },
        id: String::from(id),
        category: ObjectCategory::Item,
        item_category: Some(String::from("manuals")),
        name: Some(String::from(name)),
        amount: 1,
        qualities: Vec::new(),
    }
}

#[test]
fn texts_order_by_characters() {
    assert!(text_before_or_same("apple", "banana"));
    assert!(text_before_or_same("app", "apple"));
    assert!(!text_before_or_same("apple", "app"));
    assert!(text_before_or_same("", ""));
    assert!(text_before_or_same("Zebra", "apple"));
    assert!(same_text("rock", "rock"));
    assert!(!same_text("rock", "rocks"));
}

#[test]
fn stable_sort_orders_texts() {
    let sorted = sort_stable(vec![String::from("pear"), String::from("apple"), String::from("fig"), String::from("apple")]);
    assert_eq!(sorted, vec![String::from("apple"), String::from("apple"), String::from("fig"), String::from("pear")]);
    let empty: Vec<String> = sort_stable(Vec::new());
    assert!(empty.is_empty());
}

#[test]
fn autolearn_by_skill_and_difficulty() {
    let skills = skills();
    assert!(autolearn_recipe(&AutoLearn::Bool(true), &Some(String::from("fabrication")), 3, &skills));
    assert!(!autolearn_recipe(&AutoLearn::Bool(true), &Some(String::from("fabrication")), 4, &skills));
    assert!(autolearn_recipe(&AutoLearn::Bool(true), &None, 9, &skills));
    assert!(!autolearn_recipe(&AutoLearn::Bool(false), &Some(String::from("unknown")), 0, &skills));
    let listed = AutoLearn::Skills(vec![
        SkillRequirement { name: String::from("fabrication"), level: 2 },
        SkillRequirement { name: String::from("cooking"), level: 1 },
    ]);
    assert!(!autolearn_recipe(&listed, &None, 0, &skills));
    let short_circuit = AutoLearn::Skills(vec![
        SkillRequirement { name: String::from("cooking"), level: 1 },
        SkillRequirement { name: String::from("unknown"), level: 1 },
    ]);
    assert!(!autolearn_recipe(&short_circuit, &None, 0, &skills));
}

#[test]
fn manuals_nearby_teach_recipes() {
    let items = vec![
        manual(1, "mag_cooking", "Cooking Weekly"),
        nearby(2, "knife", ObjectCategory::Item, 1, Vec::new()),
        manual(3, "book_smithing", "Smithing Basics"),
    ];
    let manuals = nearby_manuals(&items);
    assert_eq!(manuals.len(), 2);
    assert_eq!(manuals[0], (String::from("mag_cooking"), String::from("Cooking Weekly")));
    let taught = recipe_manuals(&vec![String::from("book_smithing"), String::from("book_missing"), String::from("mag_cooking")], &manuals);
    assert_eq!(taught, vec![String::from("Cooking Weekly"), String::from("Smithing Basics")]);
}

#[test]
fn best_quality_levels_nearby() {
    let items = vec![
        nearby(1, "knife", ObjectCategory::Item, 1, vec![("CUT", 1), ("BUTCHER", 5)]),
        nearby(2, "workbench", ObjectCategory::Furniture, 1, vec![("CUT", 2)]),
        nearby(3, "zombie", ObjectCategory::Character, 1, vec![("CUT", 9)]),
        nearby(4, "rock", ObjectCategory::Item, 1, vec![("HAMMER", 1), ("CUT", 0)]),
    ];
    let levels = nearby_qualities(&items);
    assert_eq!(
        levels,
        vec![(String::from("CUT"), 2), (String::from("BUTCHER"), 5), (String::from("HAMMER"), 1)]
    );
}

#[test]
fn required_qualities_sorted_by_name() {
    let present = vec![(String::from("CUT"), 2), (String::from("HAMMER"), 1)];
    let required = vec![
        RequiredQuality { id: String::from("HAMMER"), name: String::from("Hammering"), level: 2 },
        RequiredQuality { id: String::from("CUT"), name: String::from("Cutting"), level: 1 },
        RequiredQuality { id: String::from("SAW"), name: String::from("Sawing"), level: 1 },
    ];
    let situations = recipe_qualities(&required, &present);
    let names: Vec<&str> = situations.iter().map(|q| q.name.as_str()).collect();
    assert_eq!(names, vec!["Cutting", "Hammering", "Sawing"]);
    assert!(situations[0].is_present());
    assert!(!situations[1].is_present());
    assert_eq!(situations[2].present, None);
}

#[test]
fn present_alternatives_come_first() {
    let items = vec![
        nearby(1, "rag", ObjectCategory::Item, 2, Vec::new()),
        nearby(2, "rag", ObjectCategory::Item, 3, Vec::new()),
        nearby(3, "string", ObjectCategory::Item, 1, Vec::new()),
    ];
    let required = vec![
        RequiredItem { id: String::from("string"), name: String::from("2 strings"), required: 2 },
        RequiredItem { id: String::from("rag"), name: String::from("4 rags"), required: 4 },
        RequiredItem { id: String::from("thread"), name: String::from("thread"), required: 1 },
    ];
    let alternatives = component_alternatives(&required, &items);
    let names: Vec<&str> = alternatives.iter().map(|a| a.name.as_str()).collect();
    assert_eq!(names, vec!["4 rags", "2 strings", "thread"]);
    assert_eq!(alternatives[0].present, 5);
    assert_eq!(alternatives[0].consumed, vec![EntityId { bits: 1 }, EntityId { bits: 2 }]);
    assert_eq!(alternatives[1].present, 1);
    let components = recipe_components(&vec![required], &items);
    assert_eq!(components.len(), 1);
    assert!(components[0].is_present());
}

fn recipe(name: &str, fallback: &str, autolearn: bool, components: Vec<Vec<RequiredItem>>) -> RecipeData {
    RecipeData {
        info: RecipeInfo { fallback_name: String::from(fallback), skill_used: None, difficulty: 0, time: None },
        result_name: Some(String::from(name)),
        autolearn: AutoLearn::Bool(autolearn),
        book_learn: Vec::new(),
        qualities: Vec::new(),
        components,
    }
}

#[test]
fn shown_recipes_craftable_first_then_by_name() {
    let items = vec![nearby(1, "stick", ObjectCategory::Item, 1, Vec::new())];
    let stick = vec![vec![RequiredItem { id: String::from("stick"), name: String::from("stick"), required: 1 }]];
    let rock = vec![vec![RequiredItem { id: String::from("rock"), name: String::from("rock"), required: 1 }]];
    let mut unknown_result = recipe("Ghost", "ghost", true, Vec::new());
    unknown_result.result_name = None;
    let recipes = vec![
        recipe("Spear", "spear", true, stick.clone_items()),
        recipe("Axe", "axe", true, rock),
        recipe("Club", "club", true, stick.clone_items()),
        recipe("Secret", "secret", false, Vec::new()),
        unknown_result,
    ];
    let shown = shown_recipes(&recipes, &skills(), &Vec::new(), &Vec::new(), &items);
    let names: Vec<&str> = shown.iter().map(|r| r.name.as_str()).collect();
    assert_eq!(names, vec!["Club", "Spear", "Axe"]);
    assert!(shown[0].craftable());
    assert!(!shown[2].craftable());
}

trait CloneItems {
    fn clone_items(&self) -> Vec<Vec<RequiredItem>>;
}

impl CloneItems for Vec<Vec<RequiredItem>> {
    fn clone_items(&self) -> Vec<Vec<RequiredItem>> {
        self.iter()
            .map(|c| {
                c.iter()
                    .map(|r| RequiredItem { id: r.id.clone(), name: r.name.clone(), required: r.required })
                    .collect()
            })
            .collect()
    }
}

#[test]
fn nearby_tools_by_name() {
    let tools = vec![
        NearbyTool { name: String::from("Sawing"), level: 2 },
        NearbyTool { name: String::from("Cutting"), level: 1 },
        NearbyTool { name: String::from("Hammering"), level: 3 },
    ];
    let listed = nearby_tools(tools);
    let names: Vec<(&str, i8)> = listed.iter().map(|t| (t.name.as_str(), t.level)).collect();
    assert_eq!(names, vec![("Cutting", 1), ("Hammering", 3), ("Sawing", 2)]);
}
