use rustaclysm_core::crafting::{AlternativeSituation, ComponentSituation, QualitySituation, RecipeInfo, RecipeSituation, ToolSituation};
use rustaclysm_core::envir::Envir;
use rustaclysm_core::geometry::{HorizontalDirection, Level, Pos};
use rustaclysm_core::instruction::Severity;
use rustaclysm_core::inventory::{actions, InventoryAction, InventorySection};
use rustaclysm_core::inventory_rules::{items_by_section, InventoryItem};
use rustaclysm_core::geometry::Nbor;
use rustaclysm_core::item_text::{describe_item, prefix, suffix, InPocket, ItemDescription, PocketType, Subitems};
use rustaclysm_core::message_log::{percieve, Fragment, LogMessage, MessageLog, Positioning};
use rustaclysm_core::text::{TextColor, TextContent, TextSection};
use rustaclysm_core::units::EntityId;
use rustaclysm_core::vec_map::VecMap;
use rustaclysm_core::visibility::{CurrentlyVisible, RelativeSegments};

fn stat(text: &'static str, color: TextColor) -> TextSection {
    TextSection { content: TextContent::Static(text), color }
}

fn own(text: &str, color: TextColor) -> TextSection {
    TextSection { content: TextContent::Owned(String::from(text)), color }
}

fn num(before: &'static str, value: i64, after: &'static str, color: TextColor) -> TextSection {
    TextSection { content: TextContent::Number { before, value, after }, color }
}

fn alternative(name: &str, required: u32, present: u32) -> AlternativeSituation {
    AlternativeSituation { name: String::from(name), required, present, counted: true, consumed: Vec::new() }
}

#[test]
fn quality_text_shows_levels() {
    let quality = QualitySituation { name: String::from("Cutting"), present: Some(3), required: 1 };
    assert!(quality.is_present());
    assert_eq!(
        quality.text_sections(),
        vec![
            stat("\n- ", TextColor::Soft),
            own("Cutting", TextColor::Good),
            stat(": a tool of ", TextColor::Soft),
            num("", 3, "", TextColor::Good),
            num(" (", 1, " required)", TextColor::Soft),
        ]
    );
    let missing = QualitySituation { name: String::from("Hammering"), present: None, required: 2 };
    assert!(!missing.is_present());
    assert_eq!(missing.text_sections()[3], num("", 2, " required", TextColor::Bad));
}

#[test]
fn alternatives_are_separated() {
    let tool = ToolSituation { alternatives: vec![alternative("knife", 1, 0), alternative("axe", 1, 1), alternative("saw", 1, 0)] };
    assert!(tool.is_present());
    let text = tool.text_sections();
    assert_eq!(text[0], stat("\n- ", TextColor::Soft));
    assert_eq!(text[1], TextSection { content: TextContent::Requirement { name: String::from("knife"), amount: 1 }, color: TextColor::Bad });
    assert_eq!(text[2], num(" (only ", 0, " present)", TextColor::Soft));
    assert_eq!(text[3], stat(", ", TextColor::Soft));
    assert_eq!(text[6], stat(", or ", TextColor::Soft));
}

#[test]
fn recipe_color_and_consumption() {
    let recipe = RecipeSituation {
        recipe: RecipeInfo { fallback_name: String::from("knife_recipe"), skill_used: None, difficulty: 0, time: None },
        name: String::from("Knife"),
        autolearn: true,
        manuals: Vec::new(),
        qualities: Vec::new(),
        tools: Vec::new(),
        components: vec![ComponentSituation { alternatives: vec![alternative("scrap", 2, 1), alternative("steel", 1, 4)] }],
    };
    assert!(recipe.craftable());
    assert_eq!(recipe.color(true), TextColor::Good);
    assert_eq!(recipe.color(false), TextColor::Hard);
    assert_eq!(recipe.consumed_components(), vec![1]);
    let text = recipe.text_sections(&recipe.recipe);
    assert_eq!(text[0], stat("Result: ", TextColor::Soft));
    assert_eq!(text[1], own("Knife", TextColor::Good));
    assert_eq!(text[3], stat("\n\nComponents", TextColor::Soft));
    let last = text.len() - 1;
    assert_eq!(text[last - 2], stat("Self-taught", TextColor::Good));
    assert_eq!(text[last], TextSection { content: TextContent::Joined { texts: Vec::new(), separator: ", " }, color: TextColor::Warn });
}

#[test]
fn uncraftable_recipe_color() {
    let recipe = RecipeSituation {
        recipe: RecipeInfo { fallback_name: String::from("r"), skill_used: Some(String::from("fabrication")), difficulty: 2, time: Some(String::from("5 m")) },
        name: String::from("Thing"),
        autolearn: false,
        manuals: vec![String::from("Manual")],
        qualities: vec![QualitySituation { name: String::from("Cutting"), present: Some(0), required: 1 }],
        tools: Vec::new(),
        components: Vec::new(),
    };
    assert!(!recipe.craftable());
    assert_eq!(recipe.color(true), TextColor::Bad);
    assert_eq!(recipe.color(false), TextColor::Soft);
    let text = recipe.text_sections(&recipe.recipe);
    assert_eq!(text[3], stat("\n\nSkill: ", TextColor::Soft));
    assert_eq!(text[6], num("", 2, "", TextColor::Warn));
    assert_eq!(text[8], own("5 m", TextColor::Warn));
    assert_eq!(text[9], stat("\n\nTools", TextColor::Soft));
}

#[test]
fn inventory_sections_and_actions() {
    assert_eq!(InventorySection::Hands.label(), "Hands (H)");
    assert_eq!(InventorySection::Nbor(HorizontalDirection::SouthWest).label(), "SW (1)");
    assert_eq!(actions(&InventorySection::Hands, false), vec![InventoryAction::Examine, InventoryAction::Drop, InventoryAction::Unwield]);
    assert_eq!(
        actions(&InventorySection::Nbor(HorizontalDirection::Here), false),
        vec![InventoryAction::Examine, InventoryAction::Take, InventoryAction::Move, InventoryAction::Wield]
    );
    assert_eq!(InventoryAction::Move.label(), "Move");
}

#[test]
fn items_are_grouped_by_section_and_sorted() {
    let hands = EntityId { bits: 100 };
    let clothing = EntityId { bits: 200 };
    let here = Pos { x: 0, level: Level { h: 0 }, z: 0 };
    let east = Pos { x: 1, level: Level { h: 0 }, z: 0 };
    let item = |bits: u64, pos: Option<Pos>, parent: EntityId, label: &str| InventoryItem {
        entity: EntityId { bits },
        pos,
        parent,
        currently_seen: true,
        known: true,
        label: String::from(label),
    };
    let items = vec![
        item(1, None, hands, "sword"),
        item(2, Some(here), EntityId { bits: 0 }, "rock"),
        item(3, Some(here), EntityId { bits: 0 }, "apple"),
        item(4, Some(east), EntityId { bits: 0 }, "stick"),
        item(5, None, clothing, "hat"),
    ];
    let nbors = vec![(Nbor::Horizontal(HorizontalDirection::Here), here), (Nbor::Horizontal(HorizontalDirection::East), east)];
    let sections = items_by_section(&items, &nbors, hands, clothing);
    let order: Vec<InventorySection> = sections.iter().map(|s| s.section).collect();
    assert_eq!(
        order,
        vec![
            InventorySection::Nbor(HorizontalDirection::Here),
            InventorySection::Nbor(HorizontalDirection::East),
            InventorySection::Hands,
            InventorySection::Clothing,
        ]
    );
    let here_labels: Vec<String> = sections[0].items.iter().map(|l| l.label.clone()).collect();
    assert_eq!(here_labels, vec![String::from("apple"), String::from("rock")]);
    assert_eq!(sections[2].items[0].entity, EntityId { bits: 1 });
    assert_eq!(sections[3].items[0].label, "hat");
}

#[test]
fn item_prefixes_and_suffixes() {
    assert_eq!(prefix(None), "");
    let nested = InPocket { type_: PocketType::Mod, single_in_type: false, depth: 3 };
    assert_eq!(prefix(Some(nested)), "        '-+");
    let single = InPocket { type_: PocketType::Container, single_in_type: true, depth: 1 };
    assert_eq!(prefix(Some(single)), "");
    assert_eq!(suffix(Some(single)), "");
    let well = InPocket { type_: PocketType::MagazineWell, single_in_type: false, depth: 1 };
    assert_eq!(prefix(Some(well)), "(");
    assert_eq!(suffix(Some(well)), ")");
    assert_eq!(suffix(None), "\n");
}

#[test]
fn item_description_counts_contents() {
    let item = ItemDescription {
        fragments: vec![stat("backpack", TextColor::Hard)],
        id_name: String::from("backpack"),
        battery_capacity: None,
    };
    let contents = vec![
        Subitems { output: vec![stat("rock", TextColor::Hard)], sealed: false, direct_items: 2, pocket_type: PocketType::Container },
    ];
    let text = describe_item(item, contents, Vec::new(), Vec::new(), Vec::new(), None);
    assert_eq!(
        text,
        vec![
            own("", TextColor::Soft),
            stat("backpack", TextColor::Hard),
            TextSection { content: TextContent::DebugOnly { before: "[", text: String::from("backpack"), after: "]" }, color: TextColor::Soft },
            stat("", TextColor::Soft),
            num("> ", 2, "+", TextColor::Good),
            stat("\n", TextColor::Soft),
            stat("rock", TextColor::Hard),
        ]
    );
}

#[test]
fn empty_sealed_container() {
    let item = ItemDescription { fragments: Vec::new(), id_name: String::from("can"), battery_capacity: None };
    let contents = vec![Subitems { output: Vec::new(), sealed: true, direct_items: 0, pocket_type: PocketType::Container }];
    let wells = vec![Subitems { output: Vec::new(), sealed: false, direct_items: 0, pocket_type: PocketType::MagazineWell }];
    let text = describe_item(item, contents, Vec::new(), wells, Vec::new(), None);
    assert_eq!(text[2], stat("not loaded", TextColor::Soft));
    assert_eq!(text[3], stat("(empty, sealed)", TextColor::Soft));
    assert_eq!(text[4], stat("\n", TextColor::Soft));
    assert_eq!(text.len(), 5);
}

fn message(texts: Vec<(&str, Positioning)>, transient: bool) -> LogMessage {
    LogMessage {
        fragments: texts
            .into_iter()
            .map(|(text, positioning)| Fragment { text: String::from(text), color: TextColor::Hard, positioning })
            .collect(),
        severity: Severity::Info,
        transient,
    }
}

#[test]
fn log_counts_repeated_messages() {
    let mut log = MessageLog::new();
    log.record(message(vec![("You wait", Positioning::NoPosition)], false));
    log.record(message(vec![("You wait", Positioning::NoPosition)], false));
    log.record(message(vec![("Hello", Positioning::Player)], false));
    log.record(message(vec![("Loading", Positioning::NoPosition)], true));
    assert_eq!(log.previous.len(), 1);
    assert_eq!(log.previous[0].1, 2);
    assert_eq!(log.last.as_ref().map(|l| l.1), Some(1));
    assert!(log.transient.is_some());
    let text = log.text_sections();
    assert_eq!(
        text,
        vec![
            own("You wait", TextColor::Hard),
            num(" (", 2, "x)", TextColor::Soft),
            stat("\n", TextColor::Soft),
            own("Hello", TextColor::Hard),
            stat("\n", TextColor::Soft),
            own("Loading", TextColor::Hard),
            stat("\n", TextColor::Soft),
        ]
    );
    log.record(message(vec![("Hello", Positioning::Player)], false));
    assert!(log.transient.is_none());
    assert_eq!(log.last.as_ref().map(|l| l.1), Some(2));
}

#[test]
fn warnings_take_the_warning_color() {
    let mut warning = message(vec![("Careful", Positioning::NoPosition)], false);
    warning.severity = Severity::Warn;
    let mut log = MessageLog::new();
    log.record(warning);
    assert_eq!(log.text_sections()[0], own("Careful", TextColor::Warn));
}

#[test]
fn unseen_positions_are_hidden_from_messages() {
    let envir = Envir::new();
    let segments = RelativeSegments { segments: vec![VecMap::new()] };
    let visible = CurrentlyVisible::build(&envir, &segments, Some(0), Pos { x: 0, level: Level { h: 0 }, z: 0 }, true);
    let far = Pos { x: 5, level: Level { h: 0 }, z: 0 };
    assert!(percieve(&visible, message(vec![("A zombie", Positioning::Pos(far))], false)).is_none());
    let mixed = percieve(&visible, message(vec![("You hit", Positioning::Player), ("a zombie", Positioning::Pos(far))], false));
    let mixed = mixed.unwrap();
    assert_eq!(mixed.fragments[0].text, "You hit");
    assert_eq!(mixed.fragments[1].text, "(unseen)");
    assert!(percieve(&visible, message(vec![("It rains", Positioning::NoPosition)], false)).is_some());
    let mut log = MessageLog::new();
    assert!(!log.receive(&visible, message(vec![("A zombie", Positioning::Pos(far))], false)));
    assert!(log.last.is_none());
}
