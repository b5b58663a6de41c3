use rustaclysm_core::appearance::{looks_like, object_variants, variants};
use rustaclysm_core::crafting_rules::ObjectCategory;
use rustaclysm_core::requirements::{component_items, expand_items, expansion, Alternative, ExpansionResult, RequirementEntry};

fn s(text: &str) -> String {
    String::from(text)
}

fn item(id: &str, required: u32) -> Alternative {
    Alternative::Item { item: s(id), required }
}

fn requirement(id: &str, factor: u32) -> Alternative {
    Alternative::Requirement { requirement: s(id), factor }
}

fn table() -> Vec<RequirementEntry> {
    vec![
        RequirementEntry {
            id: s("sewing_standard"),
            components: vec![vec![item("thread", 1), item("sinew", 1)], vec![requirement("adhesive", 2)]],
        },
        RequirementEntry { id: s("adhesive"), components: vec![vec![item("duct_tape", 3), requirement("nonsense", 1)]] },
        RequirementEntry { id: s("loop_a"), components: vec![vec![requirement("loop_b", 1)]] },
        RequirementEntry { id: s("loop_b"), components: vec![vec![requirement("loop_a", 1)]] },
        RequirementEntry { id: s("huge"), components: vec![vec![item("grain", 3_000_000_000)]] },
    ]
}

fn known() -> Vec<String> {
    vec![s("thread"), s("duct_tape"), s("rag")]
}

#[test]
fn items_expand_to_themselves() {
    assert_eq!(expand_items(&table(), &known(), &item("rock", 4)), Ok(vec![(s("rock"), 4)]));
}

#[test]
fn requirements_expand_with_their_factor() {
    let expanded = expand_items(&table(), &known(), &requirement("sewing_standard", 5)).unwrap();
    assert_eq!(expanded, vec![(s("thread"), 5), (s("sinew"), 5), (s("duct_tape"), 30)]);
}

#[test]
fn item_named_as_requirement() {
    assert_eq!(expand_items(&table(), &known(), &requirement("rag", 3)), Ok(vec![(s("rag"), 3)]));
    assert_eq!(expand_items(&table(), &known(), &requirement("nothing", 3)), Err(s("nothing")));
}

#[test]
fn circles_and_overflows_are_reported() {
    assert!(matches!(expansion(&table(), &known(), &requirement("loop_a", 1)), ExpansionResult::Endless));
    assert!(matches!(expansion(&table(), &known(), &requirement("huge", 2)), ExpansionResult::Overflow));
    assert!(matches!(expansion(&table(), &known(), &requirement("huge", 1)), ExpansionResult::Items(_)));
}

#[test]
fn component_keeps_known_items() {
    let component = vec![requirement("sewing_standard", 1), requirement("nothing", 1), item("rag", 2), item("stone", 1)];
    assert_eq!(
        component_items(&table(), &known(), &component),
        vec![(s("thread"), 1), (s("duct_tape"), 6), (s("rag"), 2)]
    );
}

#[test]
fn variants_follow_looks_like() {
    let table = vec![(s("t_door_c"), s("t_door_o")), (s("t_door_o"), s("t_door_frame"))];
    assert_eq!(
        variants(&table, "t_door_c"),
        vec![
            s("t_door_c_season_summer"),
            s("t_door_c"),
            s("vp_t_door_c"),
            s("vp_t_door_c_cover"),
            s("t_door_o_season_summer"),
            s("t_door_o"),
            s("vp_t_door_o"),
            s("vp_t_door_o_cover"),
            s("t_door_frame_season_summer"),
            s("t_door_frame"),
            s("vp_t_door_frame"),
            s("vp_t_door_frame_cover"),
        ]
    );
    assert_eq!(variants(&table, "t_wall").len(), 4);
}

#[test]
fn variants_stop_at_a_circle() {
    let table = vec![(s("a"), s("b")), (s("b"), s("a")), (s("a"), s("c"))];
    assert_eq!(
        variants(&table, "a"),
        vec![
            s("a_season_summer"),
            s("a"),
            s("vp_a"),
            s("vp_a_cover"),
            s("b_season_summer"),
            s("b"),
            s("vp_b"),
            s("vp_b_cover"),
        ]
    );
}

#[test]
fn interface_objects_have_one_name() {
    assert_eq!(object_variants(ObjectCategory::Meta, &vec![], "cursor"), vec![s("cursor")]);
    assert_eq!(object_variants(ObjectCategory::Terrain, &vec![], "t_dirt").len(), 4);
}

#[test]
fn first_entry_decides_the_look() {
    let table = vec![(s("a"), s("b")), (s("c"), s("d")), (s("a"), s("e"))];
    assert_eq!(looks_like(&table, "a"), Some(s("b")));
    assert_eq!(looks_like(&table, "c"), Some(s("d")));
    assert_eq!(looks_like(&table, "b"), None);
}
