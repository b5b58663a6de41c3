use vstd::prelude::*;
use crate::geometry::{HorizontalDirection, Nbor, Pos};
use crate::inventory::InventorySection;
use crate::item_text::{indentation, InPocket, PocketType};
use crate::sorting::{lemma_text_le_total, lemma_text_le_transitive, sort_stable, stable_sort, text_before_or_same, text_le, SortKey};
use crate::units::EntityId;

verus! {

/// An item as the inventory screen reads it.
pub struct InventoryItem {
    pub entity: EntityId,
    /// Where the item lies, when it lies on the floor.
    pub pos: Option<Pos>,
    /// What holds the item.
    pub parent: EntityId,
    /// The player sees the item now.
    pub currently_seen: bool,
    /// The game knows what the item is.
    pub known: bool,
    /// How the item is described, by which the rows are sorted.
    pub label: String,
}

/// A row of the inventory screen.
pub struct ItemLine {
    pub entity: EntityId,
    pub label: String,
}

impl SortKey for ItemLine {
    open spec fn key_le(&self, other: &Self) -> bool {
        text_le(self.label@, other.label@)
    }

    fn le(&self, other: &Self) -> (res: bool) {
        text_before_or_same(self.label.as_str(), other.label.as_str())
    }

    proof fn lemma_key_le_total(a: &Self, b: &Self) {
        lemma_text_le_total(a.label@, b.label@);
    }

    proof fn lemma_key_le_transitive(a: &Self, b: &Self, c: &Self) {
        lemma_text_le_transitive(a.label@, b.label@, c.label@);
    }
}

/// A section of the inventory screen with its rows.
pub struct SectionItems {
    pub section: InventorySection,
    pub items: Vec<ItemLine>,
}

impl View for SectionItems {
    type V = (InventorySection, Seq<ItemLine>);

    open spec fn view(&self) -> (InventorySection, Seq<ItemLine>) {
        (self.section, self.items@)
    }
}

pub open spec fn sections_items_view(sections: Seq<SectionItems>) -> Seq<(InventorySection, Seq<ItemLine>)> {
    sections.map_values(|s: SectionItems| s@)
}

/// The direction on the level of a neighbour: straight up and down project to here.
pub open spec fn horizontal_projection(nbor: Nbor) -> HorizontalDirection {
    match nbor {
        Nbor::Horizontal(d) => d,
        _ => HorizontalDirection::Here,
    }
}

/// The sections in the order of the screen: the floor around by the offset
/// of the direction in x, then in z; then the hands; then the clothing.
pub open spec fn section_order_list() -> Seq<InventorySection> {
    seq![
        InventorySection::Nbor(HorizontalDirection::NorthWest),
        InventorySection::Nbor(HorizontalDirection::West),
        InventorySection::Nbor(HorizontalDirection::SouthWest),
        InventorySection::Nbor(HorizontalDirection::North),
        InventorySection::Nbor(HorizontalDirection::Here),
        InventorySection::Nbor(HorizontalDirection::South),
        InventorySection::Nbor(HorizontalDirection::NorthEast),
        InventorySection::Nbor(HorizontalDirection::East),
        InventorySection::Nbor(HorizontalDirection::SouthEast),
        InventorySection::Hands,
        InventorySection::Clothing,
    ]
}

/// The position of the floor that the section in direction `d` shows: that
/// of the last neighbour in that direction.
pub open spec fn floor_pos(nbors: Seq<(Nbor, Pos)>, d: HorizontalDirection) -> Option<Pos>
    decreases nbors.len(),
{
    if nbors.len() == 0 {
        None
    } else if horizontal_projection(nbors.last().0) == d {
        Some(nbors.last().1)
    } else {
        floor_pos(nbors.drop_last(), d)
    }
}

/// The rows of the known items among the first `k` that the player sees at `pos`.
pub open spec fn lines_at(items: Seq<InventoryItem>, pos: Pos, k: nat) -> Seq<ItemLine>
    decreases k,
{
    if k == 0 || k > items.len() {
        Seq::empty()
    } else {
        let earlier = lines_at(items, pos, (k - 1) as nat);
        let item = items[k - 1];
        if item.currently_seen && item.pos == Some(pos) && item.known {
            earlier.push(ItemLine { entity: item.entity, label: item.label })
        } else {
            earlier
        }
    }
}

/// The rows of the known items among the first `k` that `holder` holds.
pub open spec fn lines_held(items: Seq<InventoryItem>, holder: EntityId, k: nat) -> Seq<ItemLine>
    decreases k,
{
    if k == 0 || k > items.len() {
        Seq::empty()
    } else {
        let earlier = lines_held(items, holder, (k - 1) as nat);
        let item = items[k - 1];
        if item.parent == holder && item.known {
            earlier.push(ItemLine { entity: item.entity, label: item.label })
        } else {
            earlier
        }
    }
}

/// The section is on the screen: the hands and the clothing always are, the
/// floor in a direction where a neighbour lies there.
pub open spec fn section_shown(nbors: Seq<(Nbor, Pos)>, section: InventorySection) -> bool {
    match section {
        InventorySection::Nbor(d) => floor_pos(nbors, d) is Some,
        _ => true,
    }
}

/// The rows of the section, in order of their descriptions.
pub open spec fn section_lines(
    items: Seq<InventoryItem>,
    nbors: Seq<(Nbor, Pos)>,
    hands: EntityId,
    clothing: EntityId,
    section: InventorySection,
) -> Seq<ItemLine> {
    stable_sort(
        match section {
            InventorySection::Nbor(d) => lines_at(items, floor_pos(nbors, d)->0, items.len()),
            InventorySection::Hands => lines_held(items, hands, items.len()),
            InventorySection::Clothing => lines_held(items, clothing, items.len()),
        },
    )
}

/// The shown sections among the first `k` of the screen's order, with their rows.
pub open spec fn sections_upto(
    items: Seq<InventoryItem>,
    nbors: Seq<(Nbor, Pos)>,
    hands: EntityId,
    clothing: EntityId,
    k: nat,
) -> Seq<(InventorySection, Seq<ItemLine>)>
    decreases k,
{
    if k == 0 || k > section_order_list().len() {
        Seq::empty()
    } else {
        let earlier = sections_upto(items, nbors, hands, clothing, (k - 1) as nat);
        let section = section_order_list()[k - 1];
        if section_shown(nbors, section) {
            earlier.push((section, section_lines(items, nbors, hands, clothing, section)))
        } else {
            earlier
        }
    }
}

fn section_order_vec() -> (res: Vec<InventorySection>)
    ensures
        res@ == section_order_list(),
{
    let res = vec![
        InventorySection::Nbor(HorizontalDirection::NorthWest),
        InventorySection::Nbor(HorizontalDirection::West),
        InventorySection::Nbor(HorizontalDirection::SouthWest),
        InventorySection::Nbor(HorizontalDirection::North),
        InventorySection::Nbor(HorizontalDirection::Here),
        InventorySection::Nbor(HorizontalDirection::South),
        InventorySection::Nbor(HorizontalDirection::NorthEast),
        InventorySection::Nbor(HorizontalDirection::East),
        InventorySection::Nbor(HorizontalDirection::SouthEast),
        InventorySection::Hands,
        InventorySection::Clothing,
    ];
    assert(res@ =~= section_order_list());
    res
}

fn find_floor_pos(nbors: &Vec<(Nbor, Pos)>, d: HorizontalDirection) -> (res: Option<Pos>)
    ensures
        res == floor_pos(nbors@, d),
{
    let mut k: usize = nbors.len();
    assert(nbors@.take(k as int) =~= nbors@);
    while k > 0
        invariant
            k <= nbors@.len(),
            floor_pos(nbors@, d) == floor_pos(nbors@.take(k as int), d),
        decreases k,
    {
        proof {
            assert(nbors@.take(k as int).drop_last() =~= nbors@.take(k - 1));
        }
        let (nbor, pos) = nbors[k - 1];
        let projected = match nbor {
            Nbor::Horizontal(h) => h,
            _ => HorizontalDirection::Here,
        };
        if projected == d {
            return Some(pos);
        }
        k -= 1;
    }
    None
}

fn collect_lines(items: &Vec<InventoryItem>, at: Option<Pos>, holder: EntityId) -> (res: Vec<ItemLine>)
    ensures
        res@ == match at {
            Some(pos) => lines_at(items@, pos, items@.len()),
            None => lines_held(items@, holder, items@.len()),
        },
{
    let mut res: Vec<ItemLine> = Vec::new();
    let mut i: usize = 0;
    while i < items.len()
        invariant
            i <= items@.len(),
            res@ == match at {
                Some(pos) => lines_at(items@, pos, i as nat),
                None => lines_held(items@, holder, i as nat),
            },
        decreases items@.len() - i,
    {
        let item = &items[i];
        let belongs = match at {
            Some(pos) => item.currently_seen && item.pos == Some(pos),
            None => item.parent == holder,
        };
        if belongs && item.known {
            res.push(ItemLine { entity: item.entity, label: item.label.clone() });
        }
        i += 1;
    }
    res
}

/// The sections of the inventory screen in the screen's order: the floor
/// in each direction where a neighbour lies (`nbors`), the hands and the
/// clothing, each with the rows of its known items in order of description.
pub fn items_by_section(
    items: &Vec<InventoryItem>,
    nbors: &Vec<(Nbor, Pos)>,
    hands: EntityId,
    clothing: EntityId,
) -> (res: Vec<SectionItems>)
    ensures
        sections_items_view(res@) == sections_upto(items@, nbors@, hands, clothing, section_order_list().len()),
{
    let order = section_order_vec();
    let mut res: Vec<SectionItems> = Vec::new();
    let mut k: usize = 0;
    while k < order.len()
        invariant
            order@ == section_order_list(),
            k <= order@.len(),
            sections_items_view(res@) == sections_upto(items@, nbors@, hands, clothing, k as nat),
        decreases order@.len() - k,
    {
        let section = order[k];
        let lines = match section {
            InventorySection::Nbor(d) => match find_floor_pos(nbors, d) {
                Some(pos) => Some(collect_lines(items, Some(pos), hands)),
                None => None,
            },
            InventorySection::Hands => Some(collect_lines(items, None, hands)),
            InventorySection::Clothing => Some(collect_lines(items, None, clothing)),
        };
        let ghost before = res@;
        match lines {
            Some(lines) => {
                let sorted = sort_stable(lines);
                res.push(SectionItems { section, items: sorted });
                proof {
                    assert(sections_items_view(res@) =~= sections_items_view(before).push(
                        (section, section_lines(items@, nbors@, hands, clothing, section)),
                    ));
                }
            },
            None => {},
        }
        k += 1;
    }
    res
}


/// What the inventory screen shows of an item, by where it sits: a row of
/// its own at the top level, in a container or in a magazine well; "with"
/// and its description after the item that holds it as a magazine; nothing
/// in other pockets.
#[derive(Clone, Copy, Debug, PartialEq, Eq, Structural)]
pub enum RowKind {
    Row,
    AfterHolder,
    Hidden,
}

pub open spec fn spec_row_kind(in_pocket: Option<InPocket>) -> RowKind {
    match in_pocket {
        None => RowKind::Row,
        Some(p) => match p.type_ {
            PocketType::Container | PocketType::MagazineWell => RowKind::Row,
            PocketType::Magazine => RowKind::AfterHolder,
            _ => RowKind::Hidden,
        },
    }
}

/// How the inventory screen shows an item, by where it sits.
pub fn row_kind(in_pocket: Option<InPocket>) -> (res: RowKind)
    ensures
        res == spec_row_kind(in_pocket),
{
    match in_pocket {
        None => RowKind::Row,
        Some(p) => match p.type_ {
            PocketType::Container | PocketType::MagazineWell => RowKind::Row,
            PocketType::Magazine => RowKind::AfterHolder,
            _ => RowKind::Hidden,
        },
    }
}

/// The indentation of a row: none at the top level; else four spaces for
/// each level below the first, and a mark.
pub open spec fn spec_row_indentation(in_pocket: Option<InPocket>) -> Seq<char> {
    match in_pocket {
        None => Seq::empty(),
        Some(p) => indentation((p.depth - 1) as nat) + "'->"@,
    }
}

/// The indentation of the row of an item.
pub fn row_indentation(in_pocket: Option<InPocket>) -> (res: String)
    requires
        in_pocket matches Some(p) ==> p.depth >= 1,
    ensures
        res@ == spec_row_indentation(in_pocket),
{
    match in_pocket {
        None => String::new(),
        Some(p) => {
            let mut res = String::new();
            let mut i: usize = 1;
            while i < p.depth
                invariant
                    1 <= i <= p.depth,
                    res@ == indentation((i - 1) as nat),
                decreases p.depth - i,
            {
                res.append("    ");
                i += 1;
            }
            res.append("'->");
            res
        },
    }
}

/// Whether the row of an item is selected, and whether it is so as the item
/// that was selected before the screen was refreshed. With such an item,
/// only its row is selected; without one, the first row is.
pub open spec fn spec_row_selection(previous_selected: Option<EntityId>, item: EntityId, nothing_selected: bool) -> (bool, bool) {
    match previous_selected {
        Some(previous) => (previous == item, previous == item),
        None => (nothing_selected, false),
    }
}

/// Whether the row of an item is selected, and whether as the item selected before.
pub fn row_selection(previous_selected: Option<EntityId>, item: EntityId, nothing_selected: bool) -> (res: (bool, bool))
    ensures
        res == spec_row_selection(previous_selected, item, nothing_selected),
{
    match previous_selected {
        Some(previous) => {
            let same = previous == item;
            (same, same)
        },
        None => (nothing_selected, false),
    }
}

} // verus!
