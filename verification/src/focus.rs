use vstd::prelude::*;
use crate::geometry::{offset_fits, GroundRelation, Level, Pos, PosOffset, LevelOffset, ZoneLevel};
use crate::instruction::QueuedInstruction;
use crate::instruction_queue::{InstructionQueue, queue_after_add};
use crate::player_action_state::PlayerActionState;

verus! {

/// Visibility of tiles above the player character.
#[derive(Clone, Copy, Debug, PartialEq, Eq, Structural)]
pub enum ElevationVisibility {
    Shown,
    Hidden,
}

impl ElevationVisibility {
    pub open spec fn spec_toggled(self) -> ElevationVisibility {
        match self {
            ElevationVisibility::Shown => ElevationVisibility::Hidden,
            ElevationVisibility::Hidden => ElevationVisibility::Shown,
        }
    }

    /// The other visibility, as the elevation key switches to.
    pub fn toggled(self) -> (res: ElevationVisibility)
        ensures
            res == self.spec_toggled(),
    {
        match self {
            ElevationVisibility::Shown => ElevationVisibility::Hidden,
            ElevationVisibility::Hidden => ElevationVisibility::Shown,
        }
    }
}

/// Strategy to use when updating visualizations.
#[derive(Clone, Copy, Debug, PartialEq, Eq, Structural)]
pub enum VisualizationUpdate {
    Smart,
    Forced,
}

impl VisualizationUpdate {
    /// Every visualization must be updated.
    pub fn forced(&self) -> (res: bool)
        ensures
            res == (*self == VisualizationUpdate::Forced),
    {
        *self == VisualizationUpdate::Forced
    }

    /// Back to updating only what changed.
    pub fn reset(&mut self)
        ensures
            *final(self) == VisualizationUpdate::Smart,
    {
        *self = VisualizationUpdate::Smart;
    }
}

/// What the camera focuses on, besides the player character.
#[derive(Clone, Copy, Debug, PartialEq, Eq, Structural)]
pub enum FocusState {
    Normal,
    ExaminingPos(Pos),
    ExaminingZoneLevel(ZoneLevel),
}

/// What the escape key does.
#[derive(Clone, Copy, Debug, PartialEq, Eq, Structural)]
pub enum CancelHandling {
    Menu,
    Queued,
}

impl FocusState {
    pub open spec fn spec_cancel_handling(self, player_action_state: PlayerActionState) -> CancelHandling {
        if !(self is Normal) {
            CancelHandling::Queued
        } else if player_action_state is Normal || player_action_state is Sleeping {
            CancelHandling::Menu
        } else {
            CancelHandling::Queued
        }
    }

    /// Escape opens the menu only when nothing is examined and the player
    /// character is in the normal state or asleep; otherwise it cancels.
    pub fn cancel_handling(&self, player_action_state: &PlayerActionState) -> (res: CancelHandling)
        ensures
            res == self.spec_cancel_handling(*player_action_state),
    {
        if !matches!(*self, FocusState::Normal) {
            CancelHandling::Queued
        } else if matches!(player_action_state, PlayerActionState::Normal | PlayerActionState::Sleeping { .. }) {
            CancelHandling::Menu
        } else {
            CancelHandling::Queued
        }
    }

    /// The text that the sidebar shows for the state.
    pub fn label(&self) -> (res: &'static str)
        ensures
            res == (match *self {
                FocusState::Normal => "",
                FocusState::ExaminingPos(_) => "Examining",
                FocusState::ExaminingZoneLevel(_) => "Examining map",
            }),
    {
        match self {
            FocusState::Normal => "",
            FocusState::ExaminingPos(_) => "Examining",
            FocusState::ExaminingZoneLevel(_) => "Examining map",
        }
    }

    pub open spec fn wf(self) -> bool {
        match self {
            FocusState::Normal => true,
            FocusState::ExaminingPos(p) => p.in_world(),
            FocusState::ExaminingZoneLevel(z) => z.in_world(),
        }
    }
}

/// The focus state together with the position of the player character.
#[derive(Clone, Copy, Debug, PartialEq, Eq, Structural)]
pub struct Focus {
    pub state: FocusState,
    pub player_pos: Pos,
}

impl Focus {
    pub open spec fn wf(self) -> bool {
        self.state.wf() && self.player_pos.in_world()
    }

    /// Examining a zone level below ground shows only its level. On or above
    /// ground, with elevation shown, every level from the ground up is shown;
    /// with elevation hidden, the levels from the ground up to the focused one.
    /// Otherwise the levels up to the focused position are shown, and with
    /// elevation shown also what lies higher but not beyond it in z.
    pub open spec fn spec_is_pos_shown(self, shown_pos: Pos, elevation_visibility: ElevationVisibility) -> bool {
        match self.state {
            FocusState::ExaminingZoneLevel(zone_level) => {
                let focus_level = zone_level.level;
                match focus_level.ground_relation() {
                    GroundRelation::Below => shown_pos.level == focus_level,
                    _ => if elevation_visibility == ElevationVisibility::Shown {
                        0 <= shown_pos.level.h
                    } else {
                        0 <= shown_pos.level.h && shown_pos.level.h <= focus_level.h
                    },
                }
            },
            _ => {
                let focus_pos = match self.state {
                    FocusState::ExaminingPos(p) => p,
                    _ => self.player_pos,
                };
                shown_pos.level.h <= focus_pos.level.h
                    || (elevation_visibility == ElevationVisibility::Shown && shown_pos.z <= focus_pos.z)
            },
        }
    }

    /// Whether a position is drawn, given what is focused on.
    pub fn is_pos_shown(&self, shown_pos: Pos, elevation_visibility: ElevationVisibility) -> (res: bool)
        ensures
            res == self.spec_is_pos_shown(shown_pos, elevation_visibility),
    {
        let focus_pos = match self.state {
            FocusState::Normal => self.player_pos,
            FocusState::ExaminingPos(pos) => pos,
            FocusState::ExaminingZoneLevel(zone_level) => {
                let focus_level = zone_level.level;
                return match focus_level.compare_to_ground() {
                    GroundRelation::Below => shown_pos.level == focus_level,
                    _ => if elevation_visibility == ElevationVisibility::Shown {
                        0 <= shown_pos.level.h
                    } else {
                        0 <= shown_pos.level.h && shown_pos.level.h <= focus_level.h
                    },
                };
            },
        };
        shown_pos.level.h <= focus_pos.level.h
            || (elevation_visibility == ElevationVisibility::Shown && shown_pos.z <= focus_pos.z)
    }

    pub open spec fn spec_pos(self) -> Pos {
        match self.state {
            FocusState::Normal => self.player_pos,
            FocusState::ExaminingPos(p) => p,
            FocusState::ExaminingZoneLevel(z) => z.spec_center_pos(),
        }
    }

    /// The focused position: the player's, the examined one, or the centre of
    /// the examined zone level.
    pub fn pos(&self) -> (res: Pos)
        requires
            self.wf(),
        ensures
            res == self.spec_pos(),
            res.in_world(),
    {
        match self.state {
            FocusState::Normal => self.player_pos,
            FocusState::ExaminingPos(p) => p,
            FocusState::ExaminingZoneLevel(z) => z.center_pos(),
        }
    }

    /// The focused level.
    pub fn level(&self) -> (res: Level)
        ensures
            res == (match self.state {
                FocusState::Normal => self.player_pos.level,
                FocusState::ExaminingPos(p) => p.level,
                FocusState::ExaminingZoneLevel(z) => z.level,
            }),
    {
        match self.state {
            FocusState::Normal => self.player_pos.level,
            FocusState::ExaminingPos(p) => p.level,
            FocusState::ExaminingZoneLevel(z) => z.level,
        }
    }

    /// The focused zone level.
    pub fn zone_level(&self) -> (res: ZoneLevel)
        ensures
            res == (match self.state {
                FocusState::Normal => ZoneLevel::spec_from_pos(self.player_pos),
                FocusState::ExaminingPos(p) => ZoneLevel::spec_from_pos(p),
                FocusState::ExaminingZoneLevel(z) => z,
            }),
    {
        match self.state {
            FocusState::Normal => ZoneLevel::from_pos(self.player_pos),
            FocusState::ExaminingPos(p) => ZoneLevel::from_pos(p),
            FocusState::ExaminingZoneLevel(z) => z,
        }
    }

    /// The offset from the player character to the focused position; the
    /// camera moves by it.
    pub fn offset(&self) -> (res: PosOffset)
        requires
            self.wf(),
            offset_fits(self.spec_pos(), self.player_pos),
        ensures
            self.state is Normal ==> res == (PosOffset { x: 0, level: LevelOffset { h: 0 }, z: 0 }),
            !(self.state is Normal) ==> res.x == self.spec_pos().x - self.player_pos.x
                && res.level.h == self.spec_pos().level.h - self.player_pos.level.h
                && res.z == self.spec_pos().z - self.player_pos.z,
    {
        match self.state {
            FocusState::Normal => PosOffset { x: 0, level: LevelOffset { h: 0 }, z: 0 },
            _ => self.pos().offset_from(self.player_pos),
        }
    }
}

/// The focus state that an instruction leads to, if it changes it; in the
/// normal focus state the instruction is queued for the player character.
pub open spec fn spec_next_focus(focus_state: FocusState, instruction: QueuedInstruction) -> Option<FocusState> {
    match focus_state {
        FocusState::Normal => None,
        FocusState::ExaminingPos(target) => match instruction {
            QueuedInstruction::Offset(offset) => match target.spec_raw_nbor(offset.spec_to_nbor()) {
                Some(n) => Some(FocusState::ExaminingPos(n)),
                None => None,
            },
            QueuedInstruction::CancelAction => Some(FocusState::Normal),
            _ => None,
        },
        FocusState::ExaminingZoneLevel(target) => match instruction {
            QueuedInstruction::Offset(offset) => match target.spec_nbor(offset.spec_to_nbor()) {
                Some(n) => Some(FocusState::ExaminingZoneLevel(n)),
                None => None,
            },
            QueuedInstruction::CancelAction => Some(FocusState::Normal),
            _ => None,
        },
    }
}

/// Handles an instruction of the player on the base screen: while examining,
/// movements move the examined position and a cancelation ends examining;
/// otherwise the instruction is queued. Returns the next focus state, if any.
pub fn handle_queued_instruction(
    focus_state: &FocusState,
    instruction_queue: &mut InstructionQueue,
    instruction: QueuedInstruction,
) -> (res: Option<FocusState>)
    requires
        focus_state.wf(),
    ensures
        res == spec_next_focus(*focus_state, instruction),
        res matches Some(f) ==> f.wf(),
        *focus_state is Normal ==> final(instruction_queue).pending() == queue_after_add(old(instruction_queue).pending(), instruction)
            && !final(instruction_queue).waiting() && final(instruction_queue).wf(),
        !(*focus_state is Normal) ==> *final(instruction_queue) == *old(instruction_queue),
{
    match *focus_state {
        FocusState::Normal => {
            instruction_queue.add(instruction);
            None
        },
        FocusState::ExaminingPos(target) => match instruction {
            QueuedInstruction::Offset(offset) => match target.raw_nbor(offset.to_nbor()) {
                Some(n) => Some(FocusState::ExaminingPos(n)),
                None => None,
            },
            QueuedInstruction::CancelAction => Some(FocusState::Normal),
            _ => None,
        },
        FocusState::ExaminingZoneLevel(target) => match instruction {
            QueuedInstruction::Offset(offset) => match target.nbor(offset.to_nbor()) {
                Some(n) => Some(FocusState::ExaminingZoneLevel(n)),
                None => None,
            },
            QueuedInstruction::CancelAction => Some(FocusState::Normal),
            _ => None,
        },
    }
}

/// What the escape key leads to.
#[derive(Clone, Copy, Debug, PartialEq, Eq, Structural)]
pub enum Cancelation {
    /// The menu opens.
    OpenMenu,
    /// The cancelation was handled as an instruction, with this next focus state.
    Handled(Option<FocusState>),
}

/// Handles the escape key: opens the menu, or handles a cancelation.
pub fn handle_cancelation(
    focus_state: &FocusState,
    player_action_state: &PlayerActionState,
    instruction_queue: &mut InstructionQueue,
) -> (res: Cancelation)
    requires
        focus_state.wf(),
    ensures
        focus_state.spec_cancel_handling(*player_action_state) == CancelHandling::Menu ==> res == Cancelation::OpenMenu
            && *final(instruction_queue) == *old(instruction_queue),
        focus_state.spec_cancel_handling(*player_action_state) == CancelHandling::Queued ==> res == Cancelation::Handled(
            spec_next_focus(*focus_state, QueuedInstruction::CancelAction),
        ) && (*focus_state is Normal ==> final(instruction_queue).pending() == queue_after_add(
            old(instruction_queue).pending(),
            QueuedInstruction::CancelAction,
        ) && final(instruction_queue).wf()) && (!(*focus_state is Normal) ==> *final(instruction_queue) == *old(instruction_queue)),
{
    if focus_state.cancel_handling(player_action_state) == CancelHandling::Menu {
        Cancelation::OpenMenu
    } else {
        Cancelation::Handled(handle_queued_instruction(focus_state, instruction_queue, QueuedInstruction::CancelAction))
    }
}


/// Law: escape opens the menu exactly when nothing is examined and there is no
/// action of the player character to cancel.
pub proof fn law_menu_iff_nothing_to_cancel(focus_state: FocusState, player_action_state: PlayerActionState)
    ensures
        (focus_state.spec_cancel_handling(player_action_state) == CancelHandling::Menu) <==> (focus_state is Normal
            && player_action_state.spec_cancel_context() == crate::player_action_state::CancelContext::State),
{
}

/// Law: a cancelation that escape queues for the player character can always
/// be processed: there is an action to cancel.
pub proof fn law_queued_cancelation_is_plannable(focus_state: FocusState, player_action_state: PlayerActionState)
    requires
        focus_state is Normal,
        focus_state.spec_cancel_handling(player_action_state) == CancelHandling::Queued,
    ensures
        crate::player_action_state::plannable(player_action_state, QueuedInstruction::CancelAction),
{
}

/// Law: toggling the elevation twice changes nothing.
pub proof fn law_toggle_elevation_twice(visibility: ElevationVisibility)
    ensures
        visibility.spec_toggled() != visibility,
        visibility.spec_toggled().spec_toggled() == visibility,
{
}

} // verus!
