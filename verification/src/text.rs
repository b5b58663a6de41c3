use vstd::prelude::*;
use crate::sorting::same_text;

verus! {

/// The text colours of the interface.
#[derive(Clone, Copy, Debug, PartialEq, Eq, Structural)]
pub enum TextColor {
    Soft,
    Hard,
    Good,
    Bad,
    Warn,
}

/// What a piece of text says; the interface renders it.
#[derive(Clone, Debug, PartialEq, Eq)]
pub enum TextContent {
    Static(&'static str),
    Owned(String),
    /// `before`, the number in decimals, then `after`.
    Number { before: &'static str, value: i64, after: &'static str },
    /// `before`, the text, then `after`.
    Framed { before: &'static str, text: String, after: &'static str },
    /// The texts with `separator` between them.
    Joined { texts: Vec<String>, separator: &'static str },
    /// The required amount of an item, as the item's requirement names it.
    Requirement { name: String, amount: u32 },
    /// `before`, the text, then `after`, shown only while debug texts are shown.
    DebugOnly { before: &'static str, text: String, after: &'static str },
}

/// The content of a text piece, as characters.
pub ghost enum TextView {
    Chars(Seq<char>),
    Number(Seq<char>, i64, Seq<char>),
    Framed(Seq<char>, Seq<char>, Seq<char>),
    Joined(Seq<Seq<char>>, Seq<char>),
    Requirement(Seq<char>, u32),
    DebugOnly(Seq<char>, Seq<char>, Seq<char>),
}

pub open spec fn strings_view(texts: Seq<String>) -> Seq<Seq<char>> {
    texts.map_values(|t: String| t@)
}

impl View for TextContent {
    type V = TextView;

    open spec fn view(&self) -> TextView {
        match *self {
            TextContent::Static(s) => TextView::Chars(s@),
            TextContent::Owned(s) => TextView::Chars(s@),
            TextContent::Number { before, value, after } => TextView::Number(before@, value, after@),
            TextContent::Framed { before, text, after } => TextView::Framed(before@, text@, after@),
            TextContent::Joined { texts, separator } => TextView::Joined(strings_view(texts@), separator@),
            TextContent::Requirement { name, amount } => TextView::Requirement(name@, amount),
            TextContent::DebugOnly { before, text, after } => TextView::DebugOnly(before@, text@, after@),
        }
    }
}

/// A piece of text with its colour.
#[derive(Clone, Debug, PartialEq, Eq)]
pub struct TextSection {
    pub content: TextContent,
    pub color: TextColor,
}

impl View for TextSection {
    type V = (TextView, TextColor);

    open spec fn view(&self) -> (TextView, TextColor) {
        (self.content@, self.color)
    }
}

pub open spec fn sections_view(sections: Seq<TextSection>) -> Seq<(TextView, TextColor)> {
    sections.map_values(|s: TextSection| s@)
}

/// A piece of fixed text.
pub fn fixed(text: &'static str, color: TextColor) -> (res: TextSection)
    ensures
        res@ == (TextView::Chars(text@), color),
{
    TextSection { content: TextContent::Static(text), color }
}

/// A piece of text that copies `text`.
pub fn owned(text: &String, color: TextColor) -> (res: TextSection)
    ensures
        res@ == (TextView::Chars(text@), color),
{
    TextSection { content: TextContent::Owned(text.clone()), color }
}

/// A number between two fixed texts.
pub fn number(before: &'static str, value: i64, after: &'static str, color: TextColor) -> (res: TextSection)
    ensures
        res@ == (TextView::Number(before@, value, after@), color),
{
    TextSection { content: TextContent::Number { before, value, after }, color }
}

/// Copies the texts.
pub fn copy_strings(texts: &Vec<String>) -> (res: Vec<String>)
    ensures
        strings_view(res@) == strings_view(texts@),
{
    let mut res: Vec<String> = Vec::new();
    let mut i: usize = 0;
    while i < texts.len()
        invariant
            i <= texts@.len(),
            strings_view(res@) == strings_view(texts@.take(i as int)),
        decreases texts@.len() - i,
    {
        let ghost before = res@;
        res.push(texts[i].clone());
        proof {
            assert(strings_view(res@) =~= strings_view(before).push(texts@[i as int]@));
            assert(texts@.take(i + 1) =~= texts@.take(i as int).push(texts@[i as int]));
            assert(strings_view(texts@.take(i + 1)) =~= strings_view(texts@.take(i as int)).push(texts@[i as int]@));
        }
        i += 1;
    }
    assert(texts@.take(texts@.len() as int) =~= texts@);
    res
}

/// Appends `more` to `sections`.
pub fn extend(sections: &mut Vec<TextSection>, more: Vec<TextSection>)
    ensures
        sections_view(final(sections)@) == sections_view(old(sections)@) + sections_view(more@),
{
    let mut more = more;
    let ghost first = sections@;
    let ghost second = more@;
    sections.append(&mut more);
    assert(sections_view(sections@) =~= sections_view(first) + sections_view(second));
}

/// Appends one piece of text.
pub fn push(sections: &mut Vec<TextSection>, section: TextSection)
    ensures
        sections_view(final(sections)@) == sections_view(old(sections)@).push(section@),
{
    let ghost first = sections@;
    sections.push(section);
    assert(sections_view(sections@) =~= sections_view(first).push(section@));
}

/// Whether one of the texts equals `text`.
pub fn contains_text(texts: &Vec<String>, text: &str) -> (res: bool)
    ensures
        res == strings_view(texts@).contains(text@),
{
    let mut i: usize = 0;
    while i < texts.len()
        invariant
            i <= texts@.len(),
            forall|j: int| 0 <= j < i ==> texts@[j]@ != text@,
        decreases texts@.len() - i,
    {
        if same_text(texts[i].as_str(), text) {
            assert(strings_view(texts@)[i as int] == text@);
            return true;
        }
        i += 1;
    }
    proof {
        if strings_view(texts@).contains(text@) {
            let j = choose|j: int| 0 <= j < strings_view(texts@).len() && strings_view(texts@)[j] == text@;
            assert(texts@[j]@ == text@);
        }
    }
    false
}

} // verus!
