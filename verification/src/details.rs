use vstd::prelude::*;
use crate::envir::{MoveCost, NORMAL_MOVE_COST};
use crate::spawn_rules::LastSeen;
use crate::text::{fixed, push, sections_view, TextColor, TextContent, TextSection, TextView};

verus! {

/// What the details of an examined position show of one entity there.
#[derive(Clone, Copy, Debug, PartialEq, Eq, Structural)]
pub struct EntityFacts {
    pub corpse: bool,
    /// The move cost of the floor that it is, where it can be walked on.
    pub accessible: Option<MoveCost>,
    pub stairs_up: bool,
    pub stairs_down: bool,
    /// The current integrity, where it can be smashed.
    pub integrity: Option<u16>,
    pub obstacle: bool,
    pub hurdle: Option<u8>,
    pub opaque: bool,
    pub opaque_floor: bool,
    pub last_seen: Option<LastSeen>,
    /// Whether it is shown, where that is known.
    pub visible: Option<bool>,
}

/// One line of the details of an entity.
#[derive(Clone, Copy, Debug, PartialEq, Eq, Structural)]
pub enum Detail {
    Corpse,
    Accessible,
    /// A floor that is harder to walk on than plain ground, with its move cost.
    Slow(u16),
    StairsUp,
    StairsDown,
    Integrity(u16),
    Obstacle,
    Hurdle(u8),
    Opaque,
    OpaqueFloor,
    Seen(LastSeen),
    Visible(bool),
}

/// The one detail where the condition holds, else none.
pub open spec fn detail_if(condition: bool, detail: Detail) -> Seq<Detail> {
    if condition { seq![detail] } else { Seq::empty() }
}

/// The details of an entity, in this order: corpse; accessible, and slow
/// where its move cost is above that of plain ground; stairs up; stairs down;
/// integrity; obstacle; hurdle; opaque; opaque floor; when last seen;
/// visibility.
pub open spec fn spec_entity_details(facts: EntityFacts) -> Seq<Detail> {
    detail_if(facts.corpse, Detail::Corpse)
        + (match facts.accessible {
            Some(move_cost) => seq![Detail::Accessible]
                + detail_if(NORMAL_MOVE_COST < move_cost.value, Detail::Slow(move_cost.value)),
            None => Seq::empty(),
        })
        + detail_if(facts.stairs_up, Detail::StairsUp)
        + detail_if(facts.stairs_down, Detail::StairsDown)
        + (match facts.integrity {
            Some(integrity) => seq![Detail::Integrity(integrity)],
            None => Seq::empty(),
        })
        + detail_if(facts.obstacle, Detail::Obstacle)
        + (match facts.hurdle {
            Some(hurdle) => seq![Detail::Hurdle(hurdle)],
            None => Seq::empty(),
        })
        + detail_if(facts.opaque, Detail::Opaque)
        + detail_if(facts.opaque_floor, Detail::OpaqueFloor)
        + (match facts.last_seen {
            Some(last_seen) => seq![Detail::Seen(last_seen)],
            None => Seq::empty(),
        })
        + (match facts.visible {
            Some(visible) => seq![Detail::Visible(visible)],
            None => Seq::empty(),
        })
}

fn push_if(details: &mut Vec<Detail>, condition: bool, detail: Detail)
    ensures
        final(details)@ == old(details)@ + detail_if(condition, detail),
{
    if condition {
        details.push(detail);
    }
    assert(final(details)@ =~= old(details)@ + detail_if(condition, detail));
}

fn push_option(details: &mut Vec<Detail>, detail: Option<Detail>)
    ensures
        final(details)@ == old(details)@ + (match detail {
            Some(d) => seq![d],
            None => Seq::empty(),
        }),
{
    if let Some(d) = detail {
        details.push(d);
    }
    assert(final(details)@ =~= old(details)@ + (match detail {
        Some(d) => seq![d],
        None => Seq::<Detail>::empty(),
    }));
}

/// The details of an entity, as the sidebar lists them.
pub fn entity_details(facts: EntityFacts) -> (res: Vec<Detail>)
    ensures
        res@ == spec_entity_details(facts),
{
    let mut res: Vec<Detail> = Vec::new();
    push_if(&mut res, facts.corpse, Detail::Corpse);
    let ghost accessible_part = match facts.accessible {
        Some(move_cost) => seq![Detail::Accessible]
            + detail_if(NORMAL_MOVE_COST < move_cost.value, Detail::Slow(move_cost.value)),
        None => Seq::<Detail>::empty(),
    };
    let ghost before = res@;
    match facts.accessible {
        Some(move_cost) => {
            res.push(Detail::Accessible);
            push_if(&mut res, NORMAL_MOVE_COST < move_cost.value, Detail::Slow(move_cost.value));
        },
        None => {},
    }
    assert(res@ =~= before + accessible_part);
    push_if(&mut res, facts.stairs_up, Detail::StairsUp);
    push_if(&mut res, facts.stairs_down, Detail::StairsDown);
    push_option(&mut res, match facts.integrity {
        Some(integrity) => Some(Detail::Integrity(integrity)),
        None => None,
    });
    push_if(&mut res, facts.obstacle, Detail::Obstacle);
    push_option(&mut res, match facts.hurdle {
        Some(hurdle) => Some(Detail::Hurdle(hurdle)),
        None => None,
    });
    push_if(&mut res, facts.opaque, Detail::Opaque);
    push_if(&mut res, facts.opaque_floor, Detail::OpaqueFloor);
    push_option(&mut res, match facts.last_seen {
        Some(last_seen) => Some(Detail::Seen(last_seen)),
        None => None,
    });
    push_option(&mut res, match facts.visible {
        Some(visible) => Some(Detail::Visible(visible)),
        None => None,
    });
    assert(res@ =~= spec_entity_details(facts));
    res
}

/// The text of a detail. A slow floor shows how many times the move cost of
/// plain ground (two) it has, with one decimal: a whole number or a half.
pub open spec fn spec_detail_text(detail: Detail) -> TextView {
    match detail {
        Detail::Corpse => TextView::Chars("corpse"@),
        Detail::Accessible => TextView::Chars("accessible"@),
        Detail::Slow(move_cost) => TextView::Number(
            "hurlde (x"@,
            (move_cost / NORMAL_MOVE_COST) as i64,
            if move_cost % NORMAL_MOVE_COST == 0 { ".0)"@ } else { ".5)"@ },
        ),
        Detail::StairsUp => TextView::Chars("stairs up"@),
        Detail::StairsDown => TextView::Chars("stairs down"@),
        Detail::Integrity(integrity) => TextView::Number("integrity ("@, integrity as i64, ")"@),
        Detail::Obstacle => TextView::Chars("obstacle"@),
        Detail::Hurdle(hurdle) => TextView::Number("hurdle ("@, hurdle as i64, ")"@),
        Detail::Opaque => TextView::Chars("opaque"@),
        Detail::OpaqueFloor => TextView::Chars("opaque_floor"@),
        Detail::Seen(LastSeen::Currently) => TextView::Chars("currently seen"@),
        Detail::Seen(LastSeen::Previously) => TextView::Chars("previously seen"@),
        Detail::Seen(LastSeen::Never) => TextView::Chars("never seen"@),
        Detail::Visible(true) => TextView::Chars("visible"@),
        Detail::Visible(false) => TextView::Chars("invisible"@),
    }
}

/// The text of a detail.
pub fn detail_text(detail: Detail) -> (res: TextContent)
    ensures
        res@ == spec_detail_text(detail),
{
    match detail {
        Detail::Corpse => TextContent::Static("corpse"),
        Detail::Accessible => TextContent::Static("accessible"),
        Detail::Slow(move_cost) => TextContent::Number {
            before: "hurlde (x",
            value: (move_cost / NORMAL_MOVE_COST) as i64,
            after: if move_cost % NORMAL_MOVE_COST == 0 { ".0)" } else { ".5)" },
        },
        Detail::StairsUp => TextContent::Static("stairs up"),
        Detail::StairsDown => TextContent::Static("stairs down"),
        Detail::Integrity(integrity) => TextContent::Number { before: "integrity (", value: integrity as i64, after: ")" },
        Detail::Obstacle => TextContent::Static("obstacle"),
        Detail::Hurdle(hurdle) => TextContent::Number { before: "hurdle (", value: hurdle as i64, after: ")" },
        Detail::Opaque => TextContent::Static("opaque"),
        Detail::OpaqueFloor => TextContent::Static("opaque_floor"),
        Detail::Seen(LastSeen::Currently) => TextContent::Static("currently seen"),
        Detail::Seen(LastSeen::Previously) => TextContent::Static("previously seen"),
        Detail::Seen(LastSeen::Never) => TextContent::Static("never seen"),
        Detail::Visible(true) => TextContent::Static("visible"),
        Detail::Visible(false) => TextContent::Static("invisible"),
    }
}

/// The lines of the details: each a soft dash, the detail's text in hard
/// colour, and a soft line break.
pub open spec fn spec_detail_lines(details: Seq<Detail>) -> Seq<(TextView, TextColor)>
    decreases details.len(),
{
    if details.len() == 0 {
        Seq::empty()
    } else {
        spec_detail_lines(details.drop_last()) + seq![
            (TextView::Chars("- "@), TextColor::Soft),
            (spec_detail_text(details.last()), TextColor::Hard),
            (TextView::Chars("\n"@), TextColor::Soft),
        ]
    }
}

/// The lines that list the details of an entity.
pub fn entity_detail_lines(facts: EntityFacts) -> (res: Vec<TextSection>)
    ensures
        sections_view(res@) == spec_detail_lines(spec_entity_details(facts)),
{
    let details = entity_details(facts);
    let mut res: Vec<TextSection> = Vec::new();
    let mut i: usize = 0;
    while i < details.len()
        invariant
            i <= details@.len(),
            details@ == spec_entity_details(facts),
            sections_view(res@) == spec_detail_lines(details@.take(i as int)),
        decreases details@.len() - i,
    {
        let ghost before = res@;
        push(&mut res, fixed("- ", TextColor::Soft));
        push(&mut res, TextSection { content: detail_text(details[i]), color: TextColor::Hard });
        push(&mut res, fixed("\n", TextColor::Soft));
        proof {
            let taken = details@.take(i + 1);
            assert(taken.drop_last() =~= details@.take(i as int));
            assert(taken.last() == details@[i as int]);
        }
        i += 1;
    }
    assert(details@.take(details@.len() as int) =~= details@);
    res
}

} // verus!
