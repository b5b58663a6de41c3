use vstd::prelude::*;
use crate::text::{extend, push, sections_view, TextColor, TextContent, TextSection, TextView};

verus! {

/// The kinds of pockets of items.
#[derive(Clone, Copy, Debug, PartialEq, Eq, Structural)]
pub enum PocketType {
    Container,
    Magazine,
    MagazineWell,
    Mod,
    Corpse,
    Software,
    Ebook,
    Migration,
    Last,
}

/// Where an item sits: in a pocket of some type, how deep in the hierarchy,
/// and whether it is the single pocket of its type.
#[derive(Clone, Copy, Debug, PartialEq, Eq, Structural)]
pub struct InPocket {
    pub type_: PocketType,
    pub single_in_type: bool,
    /// At least one.
    pub depth: usize,
}

/// Four spaces for each level of depth.
pub open spec fn indentation(levels: nat) -> Seq<char>
    decreases levels,
{
    if levels == 0 {
        Seq::empty()
    } else {
        indentation((levels - 1) as nat) + "    "@
    }
}

/// The mark of an item in a pocket of the type, where it has one.
pub open spec fn pocket_mark(type_: PocketType) -> Seq<char> {
    match type_ {
        PocketType::Container => "'->"@,
        PocketType::Mod => "'-+"@,
        PocketType::Corpse => "'-_"@,
        PocketType::Software => "'-S"@,
        PocketType::Ebook => "'-E"@,
        PocketType::Migration => "'-M"@,
        PocketType::Last => "'-9"@,
        PocketType::Magazine => "with"@,
        PocketType::MagazineWell => "("@,
    }
}

pub open spec fn spec_prefix(in_pocket: Option<InPocket>) -> Seq<char> {
    match in_pocket {
        None => Seq::empty(),
        Some(p) => match p.type_ {
            PocketType::Container => if p.single_in_type {
                Seq::empty()
            } else {
                indentation((p.depth - 1) as nat) + pocket_mark(p.type_)
            },
            PocketType::Magazine => pocket_mark(p.type_),
            PocketType::MagazineWell => pocket_mark(p.type_),
            _ => indentation((p.depth - 1) as nat) + pocket_mark(p.type_),
        },
    }
}

fn mark(type_: PocketType) -> (res: &'static str)
    ensures
        res@ == pocket_mark(type_),
{
    match type_ {
        PocketType::Container => "'->",
        PocketType::Mod => "'-+",
        PocketType::Corpse => "'-_",
        PocketType::Software => "'-S",
        PocketType::Ebook => "'-E",
        PocketType::Migration => "'-M",
        PocketType::Last => "'-9",
        PocketType::Magazine => "with",
        PocketType::MagazineWell => "(",
    }
}

/// What comes before the description of an item in a pocket: nothing for
/// the single container pocket, "with" for a magazine, a parenthesis for a
/// magazine well, and else an indented mark of the pocket type.
pub fn prefix(in_pocket: Option<InPocket>) -> (res: String)
    requires
        in_pocket matches Some(p) ==> p.depth >= 1,
    ensures
        res@ == spec_prefix(in_pocket),
{
    let p = match in_pocket {
        None => {
            return String::new();
        },
        Some(p) => p,
    };
    match p.type_ {
        PocketType::Container => {
            if p.single_in_type {
                return String::new();
            }
        },
        PocketType::Magazine | PocketType::MagazineWell => {
            return String::from_str(mark(p.type_));
        },
        _ => {},
    }
    let mut res = String::new();
    let mut i: usize = 1;
    while i < p.depth
        invariant
            1 <= i <= p.depth,
            res@ == indentation((i - 1) as nat),
        decreases p.depth - i,
    {
        res.append("    ");
        i += 1;
    }
    res.append(mark(p.type_));
    res
}

pub open spec fn spec_suffix(in_pocket: Option<InPocket>) -> Seq<char> {
    match in_pocket {
        Some(p) => if p.type_ == PocketType::Magazine || (p.type_ == PocketType::Container && p.single_in_type) {
            ""@
        } else if p.type_ == PocketType::MagazineWell {
            ")"@
        } else {
            "\n"@
        },
        None => "\n"@,
    }
}

/// What comes after the description of an item in a pocket: nothing in a
/// magazine or the single container pocket, a parenthesis in a magazine well,
/// else a line break.
pub fn suffix(in_pocket: Option<InPocket>) -> (res: &'static str)
    ensures
        res@ == spec_suffix(in_pocket),
{
    match in_pocket {
        Some(p) => {
            if p.type_ == PocketType::Magazine || (p.type_ == PocketType::Container && p.single_in_type) {
                ""
            } else if p.type_ == PocketType::MagazineWell {
                ")"
            } else {
                "\n"
            }
        },
        None => "\n",
    }
}

/// What the descriptions of the items in one pocket give.
pub struct Subitems {
    pub output: Vec<TextSection>,
    pub sealed: bool,
    /// The number of items directly in the pocket.
    pub direct_items: usize,
    pub pocket_type: PocketType,
}

/// The item itself, as the sidebar describes it.
pub struct ItemDescription {
    /// The description of the item.
    pub fragments: Vec<TextSection>,
    /// The name of the item's type.
    pub id_name: String,
    /// Where the item is a battery magazine: its capacity, if known.
    pub battery_capacity: Option<Option<u32>>,
}

pub open spec fn soft(text: Seq<char>) -> (TextView, TextColor) {
    (TextView::Chars(text), TextColor::Soft)
}

/// The outputs of the first `k` pockets, one after the other.
pub open spec fn outputs_text(subs: Seq<Subitems>, k: nat) -> Seq<(TextView, TextColor)>
    decreases k,
{
    if k == 0 || k > subs.len() {
        Seq::empty()
    } else {
        outputs_text(subs, (k - 1) as nat) + sections_view(subs[k - 1].output@)
    }
}

/// The outputs of the first `k` magazine wells, "not loaded" for an empty one.
pub open spec fn wells_text(subs: Seq<Subitems>, k: nat) -> Seq<(TextView, TextColor)>
    decreases k,
{
    if k == 0 || k > subs.len() {
        Seq::empty()
    } else {
        wells_text(subs, (k - 1) as nat) + if subs[k - 1].output@.len() == 0 {
            seq![soft("not loaded"@)]
        } else {
            sections_view(subs[k - 1].output@)
        }
    }
}

/// The name of a pocket type.
pub open spec fn pocket_type_name(type_: PocketType) -> Seq<char> {
    match type_ {
        PocketType::Container => "Container"@,
        PocketType::Magazine => "Magazine"@,
        PocketType::MagazineWell => "MagazineWell"@,
        PocketType::Mod => "Mod"@,
        PocketType::Corpse => "Corpse"@,
        PocketType::Software => "Software"@,
        PocketType::Ebook => "Ebook"@,
        PocketType::Migration => "Migration"@,
        PocketType::Last => "Last"@,
    }
}

/// The outputs of the first `k` other pockets that have any, each after a
/// heading with the prefix and the pocket type.
pub open spec fn others_text(subs: Seq<Subitems>, prefix: Seq<char>, k: nat) -> Seq<(TextView, TextColor)>
    decreases k,
{
    if k == 0 || k > subs.len() {
        Seq::empty()
    } else {
        others_text(subs, prefix, (k - 1) as nat) + if subs[k - 1].output@.len() == 0 {
            Seq::empty()
        } else {
            seq![soft(prefix + pocket_type_name(subs[k - 1].pocket_type) + ":\n"@)] + sections_view(
                subs[k - 1].output@,
            )
        }
    }
}

pub open spec fn all_empty(subs: Seq<Subitems>) -> bool {
    forall|i: int| 0 <= i < subs.len() ==> (#[trigger] subs[i]).output@.len() == 0
}

pub open spec fn all_sealed(subs: Seq<Subitems>) -> bool {
    forall|i: int| 0 <= i < subs.len() ==> (#[trigger] subs[i]).sealed
}

pub open spec fn direct_total(subs: Seq<Subitems>, k: nat) -> int
    decreases k,
{
    if k == 0 || k > subs.len() {
        0
    } else {
        direct_total(subs, (k - 1) as nat) + subs[k - 1].direct_items
    }
}

/// How the state of a container reads.
pub open spec fn container_state(is_container: bool, is_empty: bool, is_sealed: bool) -> Seq<char> {
    if is_container && is_empty && is_sealed {
        "(empty, sealed)"@
    } else if is_container && is_empty {
        "(empty)"@
    } else if is_container && is_sealed {
        "(sealed)"@
    } else {
        ""@
    }
}

/// The first part of the description: the prefix of the pocket, the load
/// of a battery magazine, the item, the magazines and magazine wells, and the
/// state of the container.
pub open spec fn spec_item_phrase(
    item: ItemDescription,
    contents: Seq<Subitems>,
    magazines: Seq<Subitems>,
    wells: Seq<Subitems>,
    in_pocket: Option<InPocket>,
) -> Seq<(TextView, TextColor)> {
    let magazine_output = outputs_text(magazines, magazines.len());
    seq![soft(spec_prefix(in_pocket))] + match item.battery_capacity {
        Some(capacity) => magazine_output + seq![
            match capacity {
                Some(c) => (TextView::Number("/"@, c as i64, ""@), TextColor::Soft),
                None => soft(""@),
            },
        ],
        None => Seq::empty(),
    } + sections_view(item.fragments@) + seq![(TextView::DebugOnly("["@, item.id_name@, "]"@), TextColor::Soft)]
        + (if item.battery_capacity is Some {
        Seq::empty()
    } else {
        magazine_output
    }) + wells_text(wells, wells.len()) + seq![
        soft(container_state(contents.len() > 0, all_empty(contents), all_sealed(contents))),
    ]
}

/// The contents: all of them after a single direct item, else their count
/// first; none for an empty container or another item.
pub open spec fn spec_contents_part(contents: Seq<Subitems>, in_pocket: Option<InPocket>) -> Seq<(TextView, TextColor)> {
    let suffix = spec_suffix(in_pocket);
    let direct = direct_total(contents, contents.len());
    if contents.len() == 0 || all_empty(contents) {
        seq![soft(suffix)]
    } else if direct == 1 {
        seq![(TextView::Chars(">"@), TextColor::Good)] + outputs_text(contents, contents.len()) + seq![soft(suffix)]
    } else {
        seq![(TextView::Number("> "@, direct as i64, "+"@), TextColor::Good), soft(suffix)] + outputs_text(
            contents,
            contents.len(),
        )
    }
}

/// The description of an item and of what it holds: the phrase of the item,
/// the contents, then the other pockets that hold anything.
pub open spec fn spec_describe_item(
    item: ItemDescription,
    contents: Seq<Subitems>,
    magazines: Seq<Subitems>,
    wells: Seq<Subitems>,
    others: Seq<Subitems>,
    in_pocket: Option<InPocket>,
) -> Seq<(TextView, TextColor)> {
    spec_item_phrase(item, contents, magazines, wells, in_pocket) + spec_contents_part(contents, in_pocket)
        + others_text(others, spec_prefix(in_pocket), others.len())
}

fn take_outputs(subs: Vec<Subitems>) -> (res: Vec<TextSection>)
    ensures
        sections_view(res@) == outputs_text(subs@, subs@.len()),
{
    let ghost all = subs@;
    let mut rest = subs;
    let mut res: Vec<TextSection> = Vec::new();
    let mut done: usize = 0;
    let n = rest.len();
    while rest.len() > 0
        invariant
            all.len() == n,
            done + rest@.len() == n,
            rest@ == all.skip(done as int),
            sections_view(res@) == outputs_text(all, done as nat),
        decreases rest@.len(),
    {
        let sub = rest.remove(0);
        proof {
            assert(sub == all[done as int]);
            assert(rest@ =~= all.skip(done + 1));
        }
        extend(&mut res, sub.output);
        done += 1;
    }
    res
}

fn wells_sections(subs: Vec<Subitems>) -> (res: Vec<TextSection>)
    ensures
        sections_view(res@) == wells_text(subs@, subs@.len()),
{
    let ghost all = subs@;
    let mut rest = subs;
    let mut res: Vec<TextSection> = Vec::new();
    let mut done: usize = 0;
    let n = rest.len();
    while rest.len() > 0
        invariant
            all.len() == n,
            done + rest@.len() == n,
            rest@ == all.skip(done as int),
            sections_view(res@) == wells_text(all, done as nat),
        decreases rest@.len(),
    {
        let sub = rest.remove(0);
        proof {
            assert(sub == all[done as int]);
            assert(rest@ =~= all.skip(done + 1));
        }
        if sub.output.len() == 0 {
            let ghost before = sections_view(res@);
            push(&mut res, TextSection { content: TextContent::Static("not loaded"), color: TextColor::Soft });
            assert(sections_view(res@) =~= before + seq![soft("not loaded"@)]);
        } else {
            extend(&mut res, sub.output);
        }
        done += 1;
    }
    res
}

fn pocket_label(type_: PocketType) -> (res: &'static str)
    ensures
        res@ == pocket_type_name(type_),
{
    match type_ {
        PocketType::Container => "Container",
        PocketType::Magazine => "Magazine",
        PocketType::MagazineWell => "MagazineWell",
        PocketType::Mod => "Mod",
        PocketType::Corpse => "Corpse",
        PocketType::Software => "Software",
        PocketType::Ebook => "Ebook",
        PocketType::Migration => "Migration",
        PocketType::Last => "Last",
    }
}

fn others_sections(subs: Vec<Subitems>, prefix: &String) -> (res: Vec<TextSection>)
    ensures
        sections_view(res@) == others_text(subs@, prefix@, subs@.len()),
{
    let ghost all = subs@;
    let mut rest = subs;
    let mut res: Vec<TextSection> = Vec::new();
    let mut done: usize = 0;
    let n = rest.len();
    while rest.len() > 0
        invariant
            all.len() == n,
            done + rest@.len() == n,
            rest@ == all.skip(done as int),
            sections_view(res@) == others_text(all, prefix@, done as nat),
        decreases rest@.len(),
    {
        let sub = rest.remove(0);
        proof {
            assert(sub == all[done as int]);
            assert(rest@ =~= all.skip(done + 1));
        }
        if sub.output.len() > 0 {
            let mut heading = prefix.clone();
            heading.append(pocket_label(sub.pocket_type));
            heading.append(":\n");
            let ghost before = sections_view(res@);
            push(&mut res, TextSection { content: TextContent::Owned(heading), color: TextColor::Soft });
            let ghost output = sections_view(sub.output@);
            extend(&mut res, sub.output);
            assert(sections_view(res@) =~= before + (seq![soft(prefix@ + pocket_type_name(all[done as int].pocket_type) + ":\n"@)] + output));
        } else {
            assert(others_text(all, prefix@, (done + 1) as nat) =~= others_text(all, prefix@, done as nat));
        }
        done += 1;
    }
    res
}

fn soft_section(text: &'static str) -> (res: TextSection)
    ensures
        res@ == soft(text@),
{
    TextSection { content: TextContent::Static(text), color: TextColor::Soft }
}

fn contents_summary(contents: &Vec<Subitems>) -> (res: (bool, bool, u64))
    requires
        direct_total(contents@, contents@.len()) <= i64::MAX,
    ensures
        res.0 == all_empty(contents@),
        res.1 == all_sealed(contents@),
        res.2 == direct_total(contents@, contents@.len()),
{
    let mut is_empty = true;
    let mut is_sealed = true;
    let mut direct: u64 = 0;
    let mut i: usize = 0;
    while i < contents.len()
        invariant
            i <= contents@.len(),
            direct_total(contents@, contents@.len()) <= i64::MAX,
            is_empty == forall|j: int| 0 <= j < i ==> (#[trigger] contents@[j]).output@.len() == 0,
            is_sealed == forall|j: int| 0 <= j < i ==> (#[trigger] contents@[j]).sealed,
            direct == direct_total(contents@, i as nat),
        decreases contents@.len() - i,
    {
        proof {
            lemma_direct_total_monotone(contents@, (i + 1) as nat, contents@.len());
        }
        if contents[i].output.len() > 0 {
            is_empty = false;
        }
        if !contents[i].sealed {
            is_sealed = false;
        }
        direct = direct + contents[i].direct_items as u64;
        i += 1;
    }
    (is_empty, is_sealed, direct)
}

fn item_phrase(
    item: ItemDescription,
    contents: &Vec<Subitems>,
    magazines: Vec<Subitems>,
    magazine_wells: Vec<Subitems>,
    in_pocket: Option<InPocket>,
    prefix: &String,
    is_empty: bool,
    is_sealed: bool,
) -> (res: Vec<TextSection>)
    requires
        prefix@ == spec_prefix(in_pocket),
        is_empty == all_empty(contents@),
        is_sealed == all_sealed(contents@),
    ensures
        sections_view(res@) == spec_item_phrase(item, contents@, magazines@, magazine_wells@, in_pocket),
{
    let ghost wanted = spec_item_phrase(item, contents@, magazines@, magazine_wells@, in_pocket);
    let is_container = contents.len() > 0;
    let mut magazine_output = take_outputs(magazines);
    let mut res: Vec<TextSection> = Vec::new();
    push(&mut res, TextSection { content: TextContent::Owned(prefix.clone()), color: TextColor::Soft });
    match item.battery_capacity {
        Some(capacity) => {
            let drained = magazine_output;
            magazine_output = Vec::new();
            extend(&mut res, drained);
            match capacity {
                Some(c) => push(&mut res, TextSection {
                    content: TextContent::Number { before: "/", value: c as i64, after: "" },
                    color: TextColor::Soft,
                }),
                None => push(&mut res, soft_section("")),
            }
        },
        None => {},
    }
    extend(&mut res, item.fragments);
    push(&mut res, TextSection {
        content: TextContent::DebugOnly { before: "[", text: item.id_name, after: "]" },
        color: TextColor::Soft,
    });
    extend(&mut res, magazine_output);
    extend(&mut res, wells_sections(magazine_wells));
    let state = if is_container && is_empty && is_sealed {
        "(empty, sealed)"
    } else if is_container && is_empty {
        "(empty)"
    } else if is_container && is_sealed {
        "(sealed)"
    } else {
        ""
    };
    push(&mut res, soft_section(state));
    assert(sections_view(res@) =~= wanted);
    res
}

fn contents_part(contents: Vec<Subitems>, in_pocket: Option<InPocket>, is_empty: bool, direct: u64) -> (res: Vec<TextSection>)
    requires
        is_empty == all_empty(contents@),
        direct == direct_total(contents@, contents@.len()),
        direct <= i64::MAX,
    ensures
        sections_view(res@) == spec_contents_part(contents@, in_pocket),
{
    let ghost wanted = spec_contents_part(contents@, in_pocket);
    let suffix = suffix(in_pocket);
    let mut res: Vec<TextSection> = Vec::new();
    if contents.len() == 0 || is_empty {
        push(&mut res, soft_section(suffix));
    } else if direct == 1 {
        push(&mut res, TextSection { content: TextContent::Static(">"), color: TextColor::Good });
        extend(&mut res, take_outputs(contents));
        push(&mut res, soft_section(suffix));
    } else {
        push(&mut res, TextSection {
            content: TextContent::Number { before: "> ", value: direct as i64, after: "+" },
            color: TextColor::Good,
        });
        push(&mut res, soft_section(suffix));
        extend(&mut res, take_outputs(contents));
    }
    assert(sections_view(res@) =~= wanted);
    res
}

/// The description of an item and of what it holds, for the sidebar.
pub fn describe_item(
    item: ItemDescription,
    contents: Vec<Subitems>,
    magazines: Vec<Subitems>,
    magazine_wells: Vec<Subitems>,
    other_pockets: Vec<Subitems>,
    in_pocket: Option<InPocket>,
) -> (res: Vec<TextSection>)
    requires
        in_pocket matches Some(p) ==> p.depth >= 1,
        direct_total(contents@, contents@.len()) <= i64::MAX,
    ensures
        sections_view(res@) == spec_describe_item(item, contents@, magazines@, magazine_wells@, other_pockets@, in_pocket),
{
    let prefix = prefix(in_pocket);
    let (is_empty, is_sealed, direct) = contents_summary(&contents);
    let mut res = item_phrase(item, &contents, magazines, magazine_wells, in_pocket, &prefix, is_empty, is_sealed);
    extend(&mut res, contents_part(contents, in_pocket, is_empty, direct));
    extend(&mut res, others_sections(other_pockets, &prefix));
    res
}

proof fn lemma_direct_total_monotone(subs: Seq<Subitems>, k: nat, n: nat)
    requires
        k <= n <= subs.len(),
    ensures
        0 <= direct_total(subs, k) <= direct_total(subs, n),
    decreases n,
{
    if k < n {
        lemma_direct_total_monotone(subs, k, (n - 1) as nat);
    } else if n > 0 {
        lemma_direct_total_monotone(subs, (n - 1) as nat, (n - 1) as nat);
    }
}

} // verus!
