use vstd::prelude::*;
use crate::geometry::{HorizontalDirection, Nbor, PlayerDirection};
use crate::instruction::{ChangePace, QueuedInstruction};
use crate::inventory::{InventoryAction, InventorySection};
use crate::units::EntityId;

verus! {

/// A key as the key bindings see it.
#[derive(Clone, Copy, Debug, PartialEq, Eq, Structural)]
pub enum Key {
    Character(char),
    /// A digit key of the numeric keypad.
    Numpad(u8),
    Tab,
    Escape,
    ArrowUp,
    ArrowDown,
    PageUp,
    PageDown,
}

impl PlayerDirection {
    pub open spec fn spec_from_key(key: Key) -> Option<PlayerDirection> {
        match key {
            Key::Numpad(1) => Some(PlayerDirection::CloserLeft),
            Key::Numpad(2) => Some(PlayerDirection::Closer),
            Key::Numpad(3) => Some(PlayerDirection::CloserRight),
            Key::Numpad(4) => Some(PlayerDirection::Left),
            Key::Numpad(5) => Some(PlayerDirection::Here),
            Key::Numpad(6) => Some(PlayerDirection::Right),
            Key::Numpad(7) => Some(PlayerDirection::AwayLeft),
            Key::Numpad(8) => Some(PlayerDirection::Away),
            Key::Numpad(9) => Some(PlayerDirection::AwayRight),
            Key::Character('<') => Some(PlayerDirection::Above),
            Key::Character('>') => Some(PlayerDirection::Below),
            _ => None,
        }
    }

    /// The direction of a movement key: the digits of the numeric keypad as
    /// on a compass, `<` up and `>` down.
    pub fn from_key(key: Key) -> (res: Option<PlayerDirection>)
        ensures
            res == Self::spec_from_key(key),
    {
        match key {
            Key::Numpad(1) => Some(PlayerDirection::CloserLeft),
            Key::Numpad(2) => Some(PlayerDirection::Closer),
            Key::Numpad(3) => Some(PlayerDirection::CloserRight),
            Key::Numpad(4) => Some(PlayerDirection::Left),
            Key::Numpad(5) => Some(PlayerDirection::Here),
            Key::Numpad(6) => Some(PlayerDirection::Right),
            Key::Numpad(7) => Some(PlayerDirection::AwayLeft),
            Key::Numpad(8) => Some(PlayerDirection::Away),
            Key::Numpad(9) => Some(PlayerDirection::AwayRight),
            Key::Character('<') => Some(PlayerDirection::Above),
            Key::Character('>') => Some(PlayerDirection::Below),
            _ => None,
        }
    }
}

/// The movement instruction of a movement key.
pub fn to_offset(key: Key) -> (res: QueuedInstruction)
    requires
        PlayerDirection::spec_from_key(key) is Some,
    ensures
        res == QueuedInstruction::Offset(PlayerDirection::spec_from_key(key)->0),
{
    match PlayerDirection::from_key(key) {
        Some(direction) => QueuedInstruction::Offset(direction),
        None => {
            assert(false);
            QueuedInstruction::Wait
        },
    }
}

pub open spec fn spec_base_instruction(key: char) -> Option<QueuedInstruction> {
    if key == '|' {
        Some(QueuedInstruction::Wait)
    } else if key == '$' {
        Some(QueuedInstruction::Sleep)
    } else if key == 'a' {
        Some(QueuedInstruction::Attack)
    } else if key == 's' {
        Some(QueuedInstruction::Smash)
    } else if key == 'c' {
        Some(QueuedInstruction::Close)
    } else if key == '+' {
        Some(QueuedInstruction::ChangePace(ChangePace::Next))
    } else if key == '-' {
        Some(QueuedInstruction::ChangePace(ChangePace::Previous))
    } else {
        None
    }
}

/// The instruction of a character key on the base screen.
pub fn base_instruction(key: char) -> (res: Option<QueuedInstruction>)
    ensures
        res == spec_base_instruction(key),
{
    if key == '|' {
        Some(QueuedInstruction::Wait)
    } else if key == '$' {
        Some(QueuedInstruction::Sleep)
    } else if key == 'a' {
        Some(QueuedInstruction::Attack)
    } else if key == 's' {
        Some(QueuedInstruction::Smash)
    } else if key == 'c' {
        Some(QueuedInstruction::Close)
    } else if key == '+' {
        Some(QueuedInstruction::ChangePace(ChangePace::Next))
    } else if key == '-' {
        Some(QueuedInstruction::ChangePace(ChangePace::Previous))
    } else {
        None
    }
}

/// How far the camera zooms out when the map is toggled.
#[derive(Clone, Copy, Debug, PartialEq, Eq, Structural)]
pub enum ZoomDistance {
    Close,
    Far,
}

/// Which way the camera zooms.
#[derive(Clone, Copy, Debug, PartialEq, Eq, Structural)]
pub enum ZoomDirection {
    In,
    Out,
}

/// The zoom distance of the map keys: `m` close, `M` far.
pub fn zoom_distance(key: Key) -> (res: Option<ZoomDistance>)
    ensures
        res == (match key {
            Key::Character('m') => Some(ZoomDistance::Close),
            Key::Character('M') => Some(ZoomDistance::Far),
            _ => None,
        }),
{
    match key {
        Key::Character('m') => Some(ZoomDistance::Close),
        Key::Character('M') => Some(ZoomDistance::Far),
        _ => None,
    }
}

/// The zoom direction of the zoom keys: `z` in, `Z` out.
pub fn zoom_direction(key: Key) -> (res: Option<ZoomDirection>)
    ensures
        res == (match key {
            Key::Character('z') => Some(ZoomDirection::In),
            Key::Character('Z') => Some(ZoomDirection::Out),
            _ => None,
        }),
{
    match key {
        Key::Character('z') => Some(ZoomDirection::In),
        Key::Character('Z') => Some(ZoomDirection::Out),
        _ => None,
    }
}

/// The drop direction that a numeric keypad key sets on the inventory screen;
/// `None` for other keys.
pub fn drop_direction(key: Key) -> (res: Option<HorizontalDirection>)
    ensures
        res == (match PlayerDirection::spec_from_key(key) {
            Some(d) => match d.spec_to_nbor() {
                Nbor::Horizontal(h) => Some(h),
                _ => None,
            },
            None => None,
        }),
{
    match PlayerDirection::from_key(key) {
        Some(d) => match d.to_nbor() {
            Nbor::Horizontal(h) => Some(h),
            _ => None,
        },
        None => None,
    }
}

pub open spec fn spec_selected_item_instruction(
    key: char,
    item: EntityId,
    item_section: Option<InventorySection>,
    drop_direction: HorizontalDirection,
) -> Option<QueuedInstruction> {
    if key == 'd' {
        match item_section {
            Some(section) => if section == InventorySection::Nbor(drop_direction) {
                None
            } else {
                Some(QueuedInstruction::Dump(item, drop_direction))
            },
            None => None,
        }
    } else if key == 't' {
        Some(QueuedInstruction::Pickup(item))
    } else if key == 'u' {
        Some(QueuedInstruction::Unwield(item))
    } else {
        Some(QueuedInstruction::Wield(item))
    }
}

/// The instruction that a key gives for the selected item of the inventory:
/// `d` drops it in the drop direction (unless it already lies there, or its
/// section is unknown), `t` takes it, `u` unwields it, `w` wields it.
pub fn selected_item_instruction(
    key: char,
    item: EntityId,
    item_section: Option<InventorySection>,
    drop_direction: HorizontalDirection,
) -> (res: Option<QueuedInstruction>)
    requires
        key == 'd' || key == 't' || key == 'u' || key == 'w',
    ensures
        res == spec_selected_item_instruction(key, item, item_section, drop_direction),
{
    if key == 'd' {
        match item_section {
            Some(section) => if section == InventorySection::Nbor(drop_direction) {
                None
            } else {
                Some(QueuedInstruction::Dump(item, drop_direction))
            },
            None => None,
        }
    } else if key == 't' {
        Some(QueuedInstruction::Pickup(item))
    } else if key == 'u' {
        Some(QueuedInstruction::Unwield(item))
    } else {
        Some(QueuedInstruction::Wield(item))
    }
}

/// The instruction of a button of an item row.
pub fn inventory_action_instruction(action: InventoryAction, item: EntityId, drop_direction: HorizontalDirection) -> (res: QueuedInstruction)
    ensures
        res == (match action {
            InventoryAction::Examine => QueuedInstruction::ExamineItem(item),
            InventoryAction::Take => QueuedInstruction::Pickup(item),
            InventoryAction::Drop => QueuedInstruction::Dump(item, drop_direction),
            InventoryAction::Move => QueuedInstruction::Dump(item, drop_direction),
            InventoryAction::Wield => QueuedInstruction::Wield(item),
            InventoryAction::Unwield => QueuedInstruction::Unwield(item),
        }),
{
    match action {
        InventoryAction::Examine => QueuedInstruction::ExamineItem(item),
        InventoryAction::Take => QueuedInstruction::Pickup(item),
        InventoryAction::Drop | InventoryAction::Move => QueuedInstruction::Dump(item, drop_direction),
        InventoryAction::Wield => QueuedInstruction::Wield(item),
        InventoryAction::Unwield => QueuedInstruction::Unwield(item),
    }
}

/// Law: an item is never dropped where it already lies.
pub proof fn law_no_drop_in_place(key: char, item: EntityId, section: InventorySection, drop_direction: HorizontalDirection)
    requires
        section == InventorySection::Nbor(drop_direction),
    ensures
        spec_selected_item_instruction(key, item, Some(section), drop_direction) != Some(
            QueuedInstruction::Dump(item, drop_direction),
        ),
{
}

} // verus!
