use vstd::prelude::*;
use crate::text::TextColor;
use crate::geometry::{HorizontalDirection, PlayerDirection, Pos};
use crate::units::EntityId;

verus! {

/// Why the player's current activity is interrupted.
#[derive(Clone, Copy, Debug, PartialEq, Eq, Structural)]
pub enum Interruption {
    /// An enemy came into view.
    Danger,
    /// The activity reached its end.
    Finished,
}

/// Whether to walk faster or slower.
#[derive(Clone, Copy, Debug, PartialEq, Eq, Structural)]
pub enum ChangePace {
    Next,
    Previous,
}

/// How a key that gives an instruction changed.
#[derive(Clone, Copy, Debug, PartialEq, Eq, Structural)]
pub enum InputChange {
    JustPressed,
    Held,
}

/// An instruction of the player, waiting to be processed.
#[derive(Clone, Copy, Debug, PartialEq, Eq, Structural)]
pub enum QueuedInstruction {
    Offset(PlayerDirection),
    Wield(EntityId),
    Unwield(EntityId),
    Pickup(EntityId),
    Dump(EntityId, HorizontalDirection),
    ExamineItem(EntityId),
    Attack,
    Smash,
    Close,
    Wait,
    Sleep,
    ChangePace(ChangePace),
    ExaminePos,
    ExamineZoneLevel,
    CancelAction,
    Interrupt(Interruption),
}

impl QueuedInstruction {
    /// Instructions that may repeat while their key is held down: the movements.
    pub open spec fn spec_held_key_allowed(self) -> bool {
        self is Offset
    }

    /// Whether the instruction may repeat while its key is held down.
    pub fn held_key_allowed(&self) -> (res: bool)
        ensures
            res == self.spec_held_key_allowed(),
    {
        matches!(self, QueuedInstruction::Offset(_))
    }
}

/// How long a character stays in place.
#[derive(Clone, Copy, Debug, PartialEq, Eq, Structural)]
pub enum StayDuration {
    Short,
    Long,
}

/// An action that the player character will perform.
#[derive(Clone, Copy, Debug, PartialEq, Eq, Structural)]
pub enum PlannedAction {
    Stay { duration: StayDuration },
    Step { to: Pos },
    Attack { target: Pos },
    Smash { target: Pos },
    Close { target: Pos },
    Wield { entity: EntityId },
    Unwield { entity: EntityId },
    Pickup { entity: EntityId },
    Dump { entity: EntityId, direction: HorizontalDirection },
    ExamineItem { entity: EntityId },
    ChangePace(ChangePace),
}

/// How a message is shown.
#[derive(Clone, Copy, Debug, PartialEq, Eq, Structural)]
pub enum Severity {
    Info,
    Warn,
    Error,
}

impl Severity {
    pub open spec fn spec_color_override(self) -> Option<TextColor> {
        match self {
            Severity::Info => None,
            Severity::Warn => Some(TextColor::Warn),
            Severity::Error => Some(TextColor::Bad),
        }
    }

    /// The colour that the whole of a message takes, if it is not left to its parts.
    pub fn color_override(self) -> (res: Option<TextColor>)
        ensures
            res == self.spec_color_override(),
    {
        match self {
            Severity::Info => None,
            Severity::Warn => Some(TextColor::Warn),
            Severity::Error => Some(TextColor::Bad),
        }
    }
}

/// A message for the player.
#[derive(Clone, Copy, Debug, PartialEq, Eq)]
pub struct Message {
    pub severity: Severity,
    pub text: &'static str,
}

impl Message {
    pub open spec fn spec_new(severity: Severity, text: &'static str) -> Message {
        Message { severity, text }
    }

    pub fn info(text: &'static str) -> (res: Message)
        ensures
            res == Self::spec_new(Severity::Info, text),
    {
        Message { severity: Severity::Info, text }
    }

    pub fn warn(text: &'static str) -> (res: Message)
        ensures
            res == Self::spec_new(Severity::Warn, text),
    {
        Message { severity: Severity::Warn, text }
    }

    pub fn error(text: &'static str) -> (res: Message)
        ensures
            res == Self::spec_new(Severity::Error, text),
    {
        Message { severity: Severity::Error, text }
    }
}

} // verus!
