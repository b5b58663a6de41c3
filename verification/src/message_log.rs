use vstd::prelude::*;
use crate::geometry::Pos;
use crate::instruction::Severity;
use crate::text::{number, push, fixed, sections_view, TextColor, TextContent, TextSection, TextView};
use crate::visibility::{CurrentlyVisible, Visible};

verus! {

/// Where the subject of a part of a message is.
#[derive(Clone, Copy, Debug, PartialEq, Eq, Structural)]
pub enum Positioning {
    Pos(Pos),
    Player,
    NoPosition,
}

/// A position that a message is about lies in the world.
pub open spec fn placed_in_world(positioning: Positioning) -> bool {
    match positioning {
        Positioning::Pos(p) => p.in_world(),
        _ => true,
    }
}

/// A part of a message.
pub struct Fragment {
    pub text: String,
    pub color: TextColor,
    pub positioning: Positioning,
}

impl View for Fragment {
    type V = (Seq<char>, TextColor, Positioning);

    open spec fn view(&self) -> (Seq<char>, TextColor, Positioning) {
        (self.text@, self.color, self.positioning)
    }
}

/// A message for the log: its parts, how severe it is, and whether it only
/// stays until the next message.
pub struct LogMessage {
    pub fragments: Vec<Fragment>,
    pub severity: Severity,
    pub transient: bool,
}

pub open spec fn fragments_view(fragments: Seq<Fragment>) -> Seq<(Seq<char>, TextColor, Positioning)> {
    fragments.map_values(|f: Fragment| f@)
}

impl View for LogMessage {
    type V = (Seq<(Seq<char>, TextColor, Positioning)>, Severity, bool);

    open spec fn view(&self) -> (Seq<(Seq<char>, TextColor, Positioning)>, Severity, bool) {
        (fragments_view(self.fragments@), self.severity, self.transient)
    }
}

impl Fragment {
    fn copy(&self) -> (res: Fragment)
        ensures
            res@ == self@,
    {
        Fragment { text: self.text.clone(), color: self.color, positioning: self.positioning }
    }

    fn same(&self, other: &Fragment) -> (res: bool)
        ensures
            res == (self@ == other@),
    {
        self.text == other.text && self.color == other.color && self.positioning == other.positioning
    }
}

impl LogMessage {
    /// Whether both messages say the same.
    pub fn same(&self, other: &LogMessage) -> (res: bool)
        ensures
            res == (self@ == other@),
    {
        if self.severity != other.severity || self.transient != other.transient
            || self.fragments.len() != other.fragments.len() {
            proof {
                if self.fragments.len() != other.fragments.len() {
                    assert(fragments_view(self.fragments@).len() != fragments_view(other.fragments@).len());
                }
            }
            return false;
        }
        let mut i: usize = 0;
        while i < self.fragments.len()
            invariant
                self.fragments@.len() == other.fragments@.len(),
                i <= self.fragments@.len(),
                forall|j: int| 0 <= j < i ==> self.fragments@[j]@ == other.fragments@[j]@,
            decreases self.fragments@.len() - i,
        {
            if !self.fragments[i].same(&other.fragments[i]) {
                assert(fragments_view(self.fragments@)[i as int] != fragments_view(other.fragments@)[i as int]);
                return false;
            }
            i += 1;
        }
        assert(fragments_view(self.fragments@) =~= fragments_view(other.fragments@));
        true
    }

    /// A copy of the message.
    pub fn copy(&self) -> (res: LogMessage)
        ensures
            res@ == self@,
    {
        let mut fragments: Vec<Fragment> = Vec::new();
        let mut i: usize = 0;
        while i < self.fragments.len()
            invariant
                i <= self.fragments@.len(),
                fragments_view(fragments@) == fragments_view(self.fragments@.take(i as int)),
            decreases self.fragments@.len() - i,
        {
            let ghost before = fragments@;
            fragments.push(self.fragments[i].copy());
            proof {
                assert(fragments_view(fragments@) =~= fragments_view(before).push(self.fragments@[i as int]@));
                assert(self.fragments@.take(i + 1) =~= self.fragments@.take(i as int).push(self.fragments@[i as int]));
                assert(fragments_view(fragments@) =~= fragments_view(self.fragments@.take(i + 1)));
            }
            i += 1;
        }
        assert(self.fragments@.take(self.fragments@.len() as int) =~= self.fragments@);
        LogMessage { fragments, severity: self.severity, transient: self.transient }
    }
}

/// The part as perceived: a part about a position that is not seen reads
/// "(unseen)".
pub open spec fn perceived_fragment(cv: &CurrentlyVisible, f: (Seq<char>, TextColor, Positioning)) -> (
    Seq<char>,
    TextColor,
    Positioning,
) {
    match f.2 {
        Positioning::Pos(p) => if cv.spec_can_see(p, false) == Visible::Seen {
            f
        } else {
            ("(unseen)"@, f.1, f.2)
        },
        _ => f,
    }
}

/// The part is about the player, or about a position that is seen.
pub open spec fn fragment_seen(cv: &CurrentlyVisible, f: (Seq<char>, TextColor, Positioning)) -> bool {
    match f.2 {
        Positioning::Pos(p) => cv.spec_can_see(p, false) == Visible::Seen,
        Positioning::Player => true,
        Positioning::NoPosition => false,
    }
}

/// How the player perceives the message: not at all when it is about
/// positions and the player sees none of them (nor is one of them), else with
/// the unseen positions hidden.
pub open spec fn spec_percieve(
    cv: &CurrentlyVisible,
    m: (Seq<(Seq<char>, TextColor, Positioning)>, Severity, bool),
) -> Option<(Seq<(Seq<char>, TextColor, Positioning)>, Severity, bool)> {
    let seen = exists|i: int| 0 <= i < m.0.len() && fragment_seen(cv, #[trigger] m.0[i]);
    let global = forall|i: int| 0 <= i < m.0.len() ==> (#[trigger] m.0[i]).2 is NoPosition;
    if seen || global {
        Some((m.0.map_values(|f: (Seq<char>, TextColor, Positioning)| perceived_fragment(cv, f)), m.1, m.2))
    } else {
        None
    }
}

/// The message as the player perceives it, if at all.
pub fn percieve(cv: &CurrentlyVisible, message: LogMessage) -> (res: Option<LogMessage>)
    requires
        cv.wf(),
        forall|i: int| 0 <= i < message.fragments@.len() ==> placed_in_world(#[trigger] message.fragments@[i].positioning),
    ensures
        match res {
            Some(m) => spec_percieve(cv, message@) == Some(m@),
            None => spec_percieve(cv, message@) is None,
        },
{
    let mut seen = false;
    let mut global = true;
    let mut fragments: Vec<Fragment> = Vec::new();
    let ghost source = fragments_view(message.fragments@);
    let mut i: usize = 0;
    while i < message.fragments.len()
        invariant
            cv.wf(),
            source == fragments_view(message.fragments@),
            forall|j: int| 0 <= j < message.fragments@.len() ==> placed_in_world(#[trigger] message.fragments@[j].positioning),
            i <= message.fragments@.len(),
            seen == exists|j: int| 0 <= j < i && fragment_seen(cv, #[trigger] source[j]),
            global == forall|j: int| 0 <= j < i ==> (#[trigger] source[j]).2 is NoPosition,
            fragments_view(fragments@) == source.take(i as int).map_values(
                |f: (Seq<char>, TextColor, Positioning)| perceived_fragment(cv, f),
            ),
        decreases message.fragments@.len() - i,
    {
        let fragment = &message.fragments[i];
        let ghost f = source[i as int];
        let perceived = match fragment.positioning {
            Positioning::Pos(pos) => {
                global = false;
                if cv.can_see(pos, false) == Visible::Seen {
                    seen = true;
                    fragment.copy()
                } else {
                    Fragment { text: String::from_str("(unseen)"), color: fragment.color, positioning: fragment.positioning }
                }
            },
            Positioning::Player => {
                seen = true;
                global = false;
                fragment.copy()
            },
            Positioning::NoPosition => fragment.copy(),
        };
        proof {
            reveal_strlit("(unseen)");
            assert(perceived@ == perceived_fragment(cv, f));
            assert(source.take(i + 1) =~= source.take(i as int).push(f));
            assert(fragment_seen(cv, f) ==> fragment_seen(cv, source[i as int]));
        }
        let ghost before = fragments@;
        fragments.push(perceived);
        proof {
            assert(fragments_view(fragments@) =~= fragments_view(before).push(perceived_fragment(cv, f)));
            assert(fragments_view(fragments@) =~= source.take(i + 1).map_values(
                |f: (Seq<char>, TextColor, Positioning)| perceived_fragment(cv, f),
            ));
            if seen {
                if !fragment_seen(cv, f) {
                    let j = choose|j: int| 0 <= j < i && fragment_seen(cv, #[trigger] source[j]);
                    assert(0 <= j < i + 1 && fragment_seen(cv, source[j]));
                }
            }
        }
        i += 1;
    }
    proof {
        assert(source.take(i as int) =~= source);
    }
    if seen || global {
        Some(LogMessage { fragments, severity: message.severity, transient: message.transient })
    } else {
        None
    }
}

/// What a message says, as characters.
pub type MessageView = (Seq<(Seq<char>, TextColor, Positioning)>, Severity, bool);

/// The log of messages: the earlier ones with how often each came in a row,
/// the latest one with its count, and the latest transient one, which only
/// stays until the next message.
pub struct MessageLog {
    pub previous: Vec<(LogMessage, u32)>,
    pub last: Option<(LogMessage, u32)>,
    pub transient: Option<LogMessage>,
}

pub ghost struct LogView {
    pub previous: Seq<(MessageView, u32)>,
    pub last: Option<(MessageView, u32)>,
    pub transient: Option<MessageView>,
}

pub open spec fn entries_view(entries: Seq<(LogMessage, u32)>) -> Seq<(MessageView, u32)> {
    entries.map_values(|e: (LogMessage, u32)| (e.0@, e.1))
}

impl View for MessageLog {
    type V = LogView;

    open spec fn view(&self) -> LogView {
        LogView {
            previous: entries_view(self.previous@),
            last: match self.last {
                Some(e) => Some((e.0@, e.1)),
                None => None,
            },
            transient: match self.transient {
                Some(m) => Some(m@),
                None => None,
            },
        }
    }
}

/// The log after a perceived message: a transient message replaces the
/// transient one; another one is counted when it repeats the latest message,
/// and else becomes the latest, the former latest joining the earlier ones.
/// Either way the former transient message goes.
pub open spec fn spec_record(log: LogView, m: MessageView) -> LogView {
    if m.2 {
        LogView { transient: Some(m), ..log }
    } else {
        match log.last {
            Some((last, count)) => if last == m {
                LogView {
                    previous: log.previous,
                    last: Some((last, if count + 1 > u32::MAX { u32::MAX } else { (count + 1) as u32 })),
                    transient: None,
                }
            } else {
                LogView { previous: log.previous.push((last, count)), last: Some((m, 1)), transient: None }
            },
            None => LogView { previous: log.previous, last: Some((m, 1)), transient: None },
        }
    }
}

impl MessageLog {
    /// An empty log.
    pub fn new() -> (res: MessageLog)
        ensures
            res@ == (LogView { previous: Seq::empty(), last: None, transient: None }),
    {
        let res = MessageLog { previous: Vec::new(), last: None, transient: None };
        assert(res@.previous =~= Seq::<(MessageView, u32)>::empty());
        res
    }

    /// Adds a message that the player perceived.
    pub fn record(&mut self, message: LogMessage)
        ensures
            final(self)@ == spec_record(old(self)@, message@),
    {
        self.transient = None;
        if message.transient {
            self.transient = Some(message);
            return;
        }
        let last = self.last.take();
        match last {
            Some((last, count)) => {
                if last.same(&message) {
                    self.last = Some((last, count.saturating_add(1)));
                } else {
                    let ghost before = self.previous@;
                    self.previous.push((last, count));
                    proof {
                        assert(entries_view(self.previous@) =~= entries_view(before).push((last@, count)));
                    }
                    self.last = Some((message, 1));
                }
            },
            None => {
                self.last = Some((message, 1));
            },
        }
    }

    /// Adds the message as the player perceives it; returns whether the player
    /// perceived it at all.
    pub fn receive(&mut self, cv: &CurrentlyVisible, message: LogMessage) -> (res: bool)
        requires
            cv.wf(),
            forall|i: int| 0 <= i < message.fragments@.len() ==> placed_in_world(#[trigger] message.fragments@[i].positioning),
        ensures
            res == spec_percieve(cv, message@) is Some,
            final(self)@ == match spec_percieve(cv, message@) {
                Some(m) => spec_record(old(self)@, m),
                None => old(self)@,
            },
    {
        match percieve(cv, message) {
            Some(m) => {
                self.record(m);
                true
            },
            None => false,
        }
    }
}

/// The parts of a message, each in the colour of the message's severity where
/// it has one, else in its own.
pub open spec fn fragments_text(m: MessageView, k: nat) -> Seq<(TextView, TextColor)>
    decreases k,
{
    if k == 0 || k > m.0.len() {
        Seq::empty()
    } else {
        let f = m.0[k - 1];
        fragments_text(m, (k - 1) as nat).push((
            TextView::Chars(f.0),
            match m.1.spec_color_override() {
                Some(c) => c,
                None => f.1,
            },
        ))
    }
}

/// A line of the log: the message, how often it came when more than once,
/// and a line break.
pub open spec fn entry_text(m: MessageView, count: u32) -> Seq<(TextView, TextColor)> {
    fragments_text(m, m.0.len()) + (if 1 < count {
        seq![(TextView::Number(" ("@, count as i64, "x)"@), TextColor::Soft)]
    } else {
        Seq::empty()
    }) + seq![(TextView::Chars("\n"@), TextColor::Soft)]
}

pub open spec fn entries_text(entries: Seq<(MessageView, u32)>, k: nat) -> Seq<(TextView, TextColor)>
    decreases k,
{
    if k == 0 || k > entries.len() {
        Seq::empty()
    } else {
        entries_text(entries, (k - 1) as nat) + entry_text(entries[k - 1].0, entries[k - 1].1)
    }
}

/// The text of the log: the earlier messages, the latest one and the
/// transient one.
pub open spec fn log_text(log: LogView) -> Seq<(TextView, TextColor)> {
    entries_text(log.previous, log.previous.len()) + match log.last {
        Some((m, count)) => entry_text(m, count),
        None => Seq::empty(),
    } + match log.transient {
        Some(m) => entry_text(m, 1),
        None => Seq::empty(),
    }
}

/// The text of one line of the log.
pub fn entry_sections(message: &LogMessage, count: u32) -> (res: Vec<TextSection>)
    ensures
        sections_view(res@) == entry_text(message@, count),
{
    let color_override = message.severity.color_override();
    let mut res: Vec<TextSection> = Vec::new();
    let mut i: usize = 0;
    while i < message.fragments.len()
        invariant
            color_override == message.severity.spec_color_override(),
            i <= message.fragments@.len(),
            sections_view(res@) == fragments_text(message@, i as nat),
        decreases message.fragments@.len() - i,
    {
        let fragment = &message.fragments[i];
        let color = match color_override {
            Some(c) => c,
            None => fragment.color,
        };
        push(&mut res, TextSection { content: TextContent::Owned(fragment.text.clone()), color });
        i += 1;
    }
    if 1 < count {
        push(&mut res, number(" (", count as i64, "x)", TextColor::Soft));
    }
    push(&mut res, fixed("\n", TextColor::Soft));
    proof {
        assert(sections_view(res@) =~= entry_text(message@, count));
    }
    res
}

impl MessageLog {
    /// The text of the log, as the sidebar shows it.
    pub fn text_sections(&self) -> (res: Vec<TextSection>)
        ensures
            sections_view(res@) == log_text(self@),
    {
        let mut res: Vec<TextSection> = Vec::new();
        let mut i: usize = 0;
        while i < self.previous.len()
            invariant
                i <= self.previous@.len(),
                sections_view(res@) == entries_text(entries_view(self.previous@), i as nat),
            decreases self.previous@.len() - i,
        {
            let (message, count) = &self.previous[i];
            let more = entry_sections(message, *count);
            crate::text::extend(&mut res, more);
            i += 1;
        }
        let ghost before_last = sections_view(res@);
        match &self.last {
            Some((message, count)) => crate::text::extend(&mut res, entry_sections(message, *count)),
            None => {},
        }
        let ghost before_transient = sections_view(res@);
        match &self.transient {
            Some(message) => crate::text::extend(&mut res, entry_sections(message, 1)),
            None => {},
        }
        proof {
            assert(sections_view(res@) =~= log_text(self@));
        }
        res
    }
}

/// Law: the player reads what the player sees. Where a part of a message is
/// about a position that the player sees, the message is perceived, and that
/// part keeps its text, colour and position. Parts about the player or about
/// no position keep theirs too; only parts about unseen positions read
/// "(unseen)", in their own colour. The perceived message has as many parts,
/// the same severity and the same transience.
pub proof fn law_seen_parts_are_kept(cv: &CurrentlyVisible, m: MessageView, i: int)
    requires
        0 <= i < m.0.len(),
    ensures
        (m.0[i].2 matches Positioning::Pos(p) && cv.spec_can_see(p, false) == Visible::Seen)
            ==> (spec_percieve(cv, m) matches Some(r) && r.0[i] == m.0[i]),
        !(m.0[i].2 is Pos) ==> (spec_percieve(cv, m) matches Some(r) ==> r.0[i] == m.0[i]),
        (m.0[i].2 matches Positioning::Pos(p) && cv.spec_can_see(p, false) != Visible::Seen)
            ==> (spec_percieve(cv, m) matches Some(r) ==> r.0[i] == ("(unseen)"@, m.0[i].1, m.0[i].2)),
        spec_percieve(cv, m) matches Some(r) ==> r.0.len() == m.0.len() && r.1 == m.1 && r.2 == m.2,
{
    match m.0[i].2 {
        Positioning::Pos(p) => {
            if cv.spec_can_see(p, false) == Visible::Seen {
                assert(fragment_seen(cv, m.0[i]));
            }
        },
        _ => {},
    }
}

/// The part is about a position that the player does not see.
pub open spec fn about_unseen_position(cv: &CurrentlyVisible, f: (Seq<char>, TextColor, Positioning)) -> bool {
    match f.2 {
        Positioning::Pos(p) => cv.spec_can_see(p, false) != Visible::Seen,
        _ => false,
    }
}

/// Law: which messages reach the player. A message with a part about the
/// player, or with no part about any place, is perceived; one whose parts are
/// all about positions that the player does not see is not.
pub proof fn law_which_messages_are_perceived(cv: &CurrentlyVisible, m: MessageView)
    ensures
        (exists|i: int| 0 <= i < m.0.len() && (#[trigger] m.0[i]).2 is Player) ==> spec_percieve(cv, m) is Some,
        (forall|i: int| 0 <= i < m.0.len() ==> (#[trigger] m.0[i]).2 is NoPosition) ==> spec_percieve(cv, m) is Some,
        (m.0.len() > 0 && forall|i: int| 0 <= i < m.0.len() ==> about_unseen_position(cv, #[trigger] m.0[i]))
            ==> spec_percieve(cv, m) is None,
{
    if exists|i: int| 0 <= i < m.0.len() && (#[trigger] m.0[i]).2 is Player {
        let i = choose|i: int| 0 <= i < m.0.len() && (#[trigger] m.0[i]).2 is Player;
        assert(fragment_seen(cv, m.0[i]));
    }
    if m.0.len() > 0 && forall|i: int| 0 <= i < m.0.len() ==> about_unseen_position(cv, #[trigger] m.0[i]) {
        assert(about_unseen_position(cv, m.0[0]));
        assert forall|i: int| 0 <= i < m.0.len() implies !fragment_seen(cv, #[trigger] m.0[i]) by {
            assert(about_unseen_position(cv, m.0[i]));
        }
    }
}

/// Law: a message that repeats the latest one is counted, and the earlier
/// messages stay as they were.
pub proof fn law_repeat_is_counted(log: LogView, m: MessageView)
    requires
        !m.2,
        log.last matches Some((last, count)) && last == m && count < u32::MAX,
    ensures
        spec_record(log, m).previous == log.previous,
        spec_record(log, m).last == Some((m, ((log.last->0).1 + 1) as u32)),
{
}

/// Law: a new message keeps the former latest one, with its count, as the
/// last of the earlier messages.
pub proof fn law_new_message_keeps_last(log: LogView, m: MessageView)
    requires
        !m.2,
        log.last matches Some((last, count)) && last != m,
    ensures
        spec_record(log, m).previous == log.previous.push(log.last->0),
        spec_record(log, m).last == Some((m, 1u32)),
{
}

/// Law: a transient message leaves the earlier and the latest messages as
/// they were.
pub proof fn law_transient_keeps_history(log: LogView, m: MessageView)
    requires
        m.2,
    ensures
        spec_record(log, m).previous == log.previous,
        spec_record(log, m).last == log.last,
        spec_record(log, m).transient == Some(m),
{
}

/// Law: every message after a transient one removes it.
pub proof fn law_transient_goes(log: LogView, m: MessageView)
    requires
        !m.2,
    ensures
        spec_record(log, m).transient is None,
{
}

} // verus!
