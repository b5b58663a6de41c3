use rustaclysm_core::details::{detail_text, entity_detail_lines, entity_details, Detail, EntityFacts};
use rustaclysm_core::envir::MoveCost;
use rustaclysm_core::inventory_rules::{row_indentation, row_kind, row_selection, RowKind};
use rustaclysm_core::item_text::{InPocket, PocketType};
use rustaclysm_core::spawn_rules::LastSeen;
use rustaclysm_core::text::{TextColor, TextContent};
use rustaclysm_core::units::EntityId;

fn nothing() -> EntityFacts {
    EntityFacts {
        corpse: false,
        accessible: None,
        stairs_up: false,
        stairs_down: false,
        integrity: None,
        obstacle: false,
        hurdle: None,
        opaque: false,
        opaque_floor: false,
        last_seen: None,
        visible: None,
    }
}

#[test]
fn details_of_nothing_special() {
    assert!(entity_details(nothing()).is_empty());
    assert!(entity_detail_lines(nothing()).is_empty());
}

#[test]
fn details_in_order() {
    let facts = EntityFacts {
        corpse: true,
        accessible: Some(MoveCost { value: 3 }),
        stairs_up: true,
        stairs_down: true,
        integrity: Some(7),
        obstacle: true,
        hurdle: Some(2),
        opaque: true,
        opaque_floor: true,
        last_seen: Some(LastSeen::Previously),
        visible: Some(false),
    };
    assert_eq!(
        entity_details(facts),
        vec![
            Detail::Corpse,
            Detail::Accessible,
            Detail::Slow(3),
            Detail::StairsUp,
            Detail::StairsDown,
            Detail::Integrity(7),
            Detail::Obstacle,
            Detail::Hurdle(2),
            Detail::Opaque,
            Detail::OpaqueFloor,
            Detail::Seen(LastSeen::Previously),
            Detail::Visible(false),
        ]
    );
    let plain_floor = EntityFacts { accessible: Some(MoveCost { value: 2 }), ..nothing() };
    assert_eq!(entity_details(plain_floor), vec![Detail::Accessible]);
}

#[test]
fn detail_texts() {
    assert_eq!(detail_text(Detail::Corpse), TextContent::Static("corpse"));
    assert_eq!(
        detail_text(Detail::Slow(3)),
        TextContent::Number { before: "hurlde (x", value: 1, after: ".5)" }
    );
    assert_eq!(
        detail_text(Detail::Slow(8)),
        TextContent::Number { before: "hurlde (x", value: 4, after: ".0)" }
    );
    assert_eq!(
        detail_text(Detail::Integrity(10)),
        TextContent::Number { before: "integrity (", value: 10, after: ")" }
    );
    assert_eq!(detail_text(Detail::Seen(LastSeen::Never)), TextContent::Static("never seen"));
    assert_eq!(detail_text(Detail::Visible(false)), TextContent::Static("invisible"));
    assert_eq!(detail_text(Detail::Visible(true)), TextContent::Static("visible"));
    assert_eq!(detail_text(Detail::OpaqueFloor), TextContent::Static("opaque_floor"));
}

#[test]
fn detail_lines() {
    let lines = entity_detail_lines(EntityFacts { obstacle: true, ..nothing() });
    assert_eq!(lines.len(), 3);
    assert_eq!(lines[0].content, TextContent::Static("- "));
    assert_eq!(lines[0].color, TextColor::Soft);
    assert_eq!(lines[1].content, TextContent::Static("obstacle"));
    assert_eq!(lines[1].color, TextColor::Hard);
    assert_eq!(lines[2].content, TextContent::Static("\n"));
}

#[test]
fn inventory_rows() {
    let container = |depth| Some(InPocket { type_: PocketType::Container, single_in_type: false, depth });
    assert_eq!(row_kind(None), RowKind::Row);
    assert_eq!(row_kind(container(1)), RowKind::Row);
    assert_eq!(
        row_kind(Some(InPocket { type_: PocketType::MagazineWell, single_in_type: true, depth: 1 })),
        RowKind::Row
    );
    assert_eq!(
        row_kind(Some(InPocket { type_: PocketType::Magazine, single_in_type: true, depth: 2 })),
        RowKind::AfterHolder
    );
    assert_eq!(row_kind(Some(InPocket { type_: PocketType::Mod, single_in_type: true, depth: 1 })), RowKind::Hidden);

    assert_eq!(row_indentation(None), "");
    assert_eq!(row_indentation(container(1)), "'->");
    assert_eq!(row_indentation(container(3)), "        '->");

    let a = EntityId { bits: 1 };
    let b = EntityId { bits: 2 };
    assert_eq!(row_selection(Some(a), a, false), (true, true));
    assert_eq!(row_selection(Some(a), b, true), (false, false));
    assert_eq!(row_selection(None, b, true), (true, false));
    assert_eq!(row_selection(None, b, false), (false, false));
}
