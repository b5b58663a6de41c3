use vstd::prelude::*;
use core::cmp::Ordering;
use crate::geometry::HorizontalDirection;

verus! {

/// A part of the inventory screen: the floor in one direction, the hands, or
/// the clothing.
#[derive(Clone, Copy, Debug, PartialEq, Eq, Hash, Structural)]
pub enum InventorySection {
    Nbor(HorizontalDirection),
    Hands,
    Clothing,
}

/// What the player can do with an item in the inventory.
#[derive(Clone, Copy, Debug, PartialEq, Eq, Structural)]
pub enum InventoryAction {
    Examine,
    Take,
    Drop,
    Move,
    Wield,
    Unwield,
}

impl InventoryAction {
    /// The caption of the action's button.
    pub fn label(&self) -> (res: &'static str)
        ensures
            res == (match *self {
                InventoryAction::Examine => "Examine",
                InventoryAction::Take => "Take",
                InventoryAction::Drop => "Drop",
                InventoryAction::Move => "Move",
                InventoryAction::Wield => "Wield",
                InventoryAction::Unwield => "Unwield",
            }),
    {
        match self {
            InventoryAction::Examine => "Examine",
            InventoryAction::Take => "Take",
            InventoryAction::Drop => "Drop",
            InventoryAction::Move => "Move",
            InventoryAction::Wield => "Wield",
            InventoryAction::Unwield => "Unwield",
        }
    }
}

/// The rank of a section in the order of the screen: the floor around first,
/// ordered by direction, then the hands, then the clothing.
pub open spec fn section_rank(section: InventorySection) -> (int, int, int) {
    match section {
        InventorySection::Nbor(d) => (0, d.spec_offset().0 as int, d.spec_offset().1 as int),
        InventorySection::Hands => (1, 0, 0),
        InventorySection::Clothing => (2, 0, 0),
    }
}

pub open spec fn rank_less(a: (int, int, int), b: (int, int, int)) -> bool {
    a.0 < b.0 || (a.0 == b.0 && a.1 < b.1) || (a.0 == b.0 && a.1 == b.1 && a.2 < b.2)
}

pub open spec fn section_order(a: InventorySection, b: InventorySection) -> Ordering {
    if rank_less(section_rank(a), section_rank(b)) {
        Ordering::Less
    } else if section_rank(a) == section_rank(b) {
        Ordering::Equal
    } else {
        Ordering::Greater
    }
}

impl InventorySection {
    /// The title of the section.
    pub fn label(&self) -> (res: &'static str)
        ensures
            res == (match *self {
                InventorySection::Nbor(HorizontalDirection::NorthWest) => "NW (7)",
                InventorySection::Nbor(HorizontalDirection::West) => "W (4)",
                InventorySection::Nbor(HorizontalDirection::SouthWest) => "SW (1)",
                InventorySection::Nbor(HorizontalDirection::North) => "N (8)",
                InventorySection::Nbor(HorizontalDirection::Here) => "Here (5)",
                InventorySection::Nbor(HorizontalDirection::South) => "S (2)",
                InventorySection::Nbor(HorizontalDirection::NorthEast) => "NE (9)",
                InventorySection::Nbor(HorizontalDirection::East) => "E (6)",
                InventorySection::Nbor(HorizontalDirection::SouthEast) => "SE (3)",
                InventorySection::Hands => "Hands (H)",
                InventorySection::Clothing => "Clothing (C)",
            }),
    {
        match self {
            InventorySection::Nbor(HorizontalDirection::NorthWest) => "NW (7)",
            InventorySection::Nbor(HorizontalDirection::West) => "W (4)",
            InventorySection::Nbor(HorizontalDirection::SouthWest) => "SW (1)",
            InventorySection::Nbor(HorizontalDirection::North) => "N (8)",
            InventorySection::Nbor(HorizontalDirection::Here) => "Here (5)",
            InventorySection::Nbor(HorizontalDirection::South) => "S (2)",
            InventorySection::Nbor(HorizontalDirection::NorthEast) => "NE (9)",
            InventorySection::Nbor(HorizontalDirection::East) => "E (6)",
            InventorySection::Nbor(HorizontalDirection::SouthEast) => "SE (3)",
            InventorySection::Hands => "Hands (H)",
            InventorySection::Clothing => "Clothing (C)",
        }
    }

    /// The order of the sections on the screen: the floor around by the
    /// direction's offset in x, then in z; then the hands; then the clothing.
    pub fn cmp(&self, other: &Self) -> (res: Ordering)
        ensures
            res == section_order(*self, *other),
    {
        match (self, other) {
            (InventorySection::Nbor(a), InventorySection::Nbor(b)) => {
                let (ax, az) = a.offset();
                let (bx, bz) = b.offset();
                if ax < bx || (ax == bx && az < bz) {
                    Ordering::Less
                } else if ax == bx && az == bz {
                    Ordering::Equal
                } else {
                    Ordering::Greater
                }
            },
            (InventorySection::Nbor(_), _) => Ordering::Less,
            (InventorySection::Hands, InventorySection::Clothing) => Ordering::Less,
            (InventorySection::Hands, InventorySection::Hands) => Ordering::Equal,
            (InventorySection::Clothing, InventorySection::Clothing) => Ordering::Equal,
            _ => Ordering::Greater,
        }
    }

    /// The same order, as a partial order.
    pub fn partial_cmp(&self, other: &Self) -> (res: Option<Ordering>)
        ensures
            res == Some(section_order(*self, *other)),
    {
        Some(self.cmp(other))
    }
}

/// Law: the order of the sections is a total order: each section equals only
/// itself, comparing the other way round gives the reverse, and it is transitive.
pub proof fn law_section_order_total(a: InventorySection, b: InventorySection, c: InventorySection)
    ensures
        (section_order(a, b) == Ordering::Equal) <==> (a == b),
        section_order(a, b) == Ordering::Less <==> section_order(b, a) == Ordering::Greater,
        section_order(a, b) == Ordering::Less && section_order(b, c) == Ordering::Less
            ==> section_order(a, c) == Ordering::Less,
{
    if section_rank(a) == section_rank(b) {
        match (a, b) {
            (InventorySection::Nbor(x), InventorySection::Nbor(y)) => {
                match x {
                    HorizontalDirection::NorthWest => {},
                    HorizontalDirection::North => {},
                    HorizontalDirection::NorthEast => {},
                    HorizontalDirection::West => {},
                    HorizontalDirection::Here => {},
                    HorizontalDirection::East => {},
                    HorizontalDirection::SouthWest => {},
                    HorizontalDirection::South => {},
                    HorizontalDirection::SouthEast => {},
                }
                match y {
                    HorizontalDirection::NorthWest => {},
                    HorizontalDirection::North => {},
                    HorizontalDirection::NorthEast => {},
                    HorizontalDirection::West => {},
                    HorizontalDirection::Here => {},
                    HorizontalDirection::East => {},
                    HorizontalDirection::SouthWest => {},
                    HorizontalDirection::South => {},
                    HorizontalDirection::SouthEast => {},
                }
            },
            _ => {},
        }
    }
}

pub open spec fn spec_actions(section: InventorySection, drop_section: bool) -> Seq<InventoryAction> {
    let handling = if section is Nbor {
        if drop_section {
            seq![InventoryAction::Take]
        } else {
            seq![InventoryAction::Take, InventoryAction::Move]
        }
    } else {
        seq![InventoryAction::Drop]
    };
    let wielding = if section is Hands { InventoryAction::Unwield } else { InventoryAction::Wield };
    seq![InventoryAction::Examine] + handling + seq![wielding]
}

/// The buttons of an item row: examine; take from the floor (and move it to
/// the drop direction, unless it lies there) or drop; unwield what is in the
/// hands, else wield.
pub fn actions(section: &InventorySection, drop_section: bool) -> (res: Vec<InventoryAction>)
    ensures
        res@ == spec_actions(*section, drop_section),
{
    let mut actions = vec![InventoryAction::Examine];
    if matches!(section, InventorySection::Nbor(_)) {
        actions.push(InventoryAction::Take);
        if !drop_section {
            actions.push(InventoryAction::Move);
        }
    } else {
        actions.push(InventoryAction::Drop);
    }
    if matches!(section, InventorySection::Hands) {
        actions.push(InventoryAction::Unwield);
    } else {
        actions.push(InventoryAction::Wield);
    }
    assert(actions@ =~= spec_actions(*section, drop_section));
    actions
}

} // verus!
