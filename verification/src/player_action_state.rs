use vstd::prelude::*;
use crate::envir::{Envir, ExploreTarget, NborFilter, WalkingCost};
use crate::geometry::{HorizontalDirection, Nbor, PlayerDirection, Pos, ZoneLevel};
use crate::instruction::{Interruption, Message, PlannedAction, QueuedInstruction, Severity, StayDuration};
use crate::instruction_queue::InstructionQueue;
use crate::units::{EIGHT_HOURS_MS, MINUTE_MS, Milliseconds, Timestamp};

verus! {

/// What the player character is doing.
#[derive(Clone, Copy, Debug, PartialEq, Eq, Structural)]
pub enum PlayerActionState {
    Normal,
    Attacking,
    Smashing,
    Closing,
    Waiting { until: Timestamp },
    Sleeping { healing_from: Timestamp, until: Timestamp },
    ExaminingPos(Pos),
    ExaminingZoneLevel(ZoneLevel),
}

/// The outcome of processing one instruction.
#[derive(Clone, Copy, Debug, PartialEq, Eq)]
pub enum PlayerBehavior {
    Perform(PlannedAction),
    Feedback(Message),
    NoEffect,
}

/// What a cancelation of the player ends.
#[derive(Clone, Copy, Debug, PartialEq, Eq, Structural)]
pub enum CancelContext {
    State,
    Action,
}

/// The text colour that the sidebar uses for a state.
#[derive(Clone, Copy, Debug, PartialEq, Eq, Structural)]
pub enum StatusColor {
    Default,
    Warn,
}

/// Sleeping heals one point per this many milliseconds.
pub const HEALING_INTERVAL_MS: u64 = 1_000_000;

/// The latest time at which the rules can start to sleep.
pub open spec fn time_fits(now: Timestamp) -> bool {
    now.ms <= u64::MAX - EIGHT_HOURS_MS
}

impl PlayerActionState {
    /// The state is one the game can be in at `now`: sleep began before it ends
    /// and not after `now`, and what is examined lies in the world.
    pub open spec fn wf_at(self, now: Timestamp) -> bool {
        match self {
            PlayerActionState::Sleeping { healing_from, until } => healing_from.ms < until.ms && healing_from.ms <= now.ms,
            PlayerActionState::ExaminingPos(p) => p.in_world(),
            PlayerActionState::ExaminingZoneLevel(z) => z.in_world(),
            _ => true,
        }
    }

    pub open spec fn spec_start_waiting(now: Timestamp) -> PlayerActionState {
        PlayerActionState::Waiting { until: Timestamp { ms: (now.ms + MINUTE_MS) as u64 } }
    }

    pub open spec fn spec_start_sleeping(now: Timestamp) -> PlayerActionState {
        PlayerActionState::Sleeping { healing_from: now, until: Timestamp { ms: (now.ms + EIGHT_HOURS_MS) as u64 } }
    }

    /// Waiting for one minute from `now`.
    pub fn start_waiting(now: Timestamp) -> (res: PlayerActionState)
        requires
            now.ms <= u64::MAX - MINUTE_MS,
        ensures
            res == Self::spec_start_waiting(now),
    {
        PlayerActionState::Waiting { until: now.plus(Milliseconds { ms: MINUTE_MS }) }
    }

    /// Sleeping for eight hours from `now`, healing from `now` on.
    pub fn start_sleeping(now: Timestamp) -> (res: PlayerActionState)
        requires
            time_fits(now),
        ensures
            res == Self::spec_start_sleeping(now),
    {
        PlayerActionState::Sleeping { healing_from: now, until: now.plus(Milliseconds { ms: EIGHT_HOURS_MS }) }
    }

    /// The colour of the state in the sidebar: a warning colour while the
    /// player character attacks, smashes, waits or sleeps.
    pub fn color(&self) -> (res: StatusColor)
        ensures
            res == (match *self {
                PlayerActionState::Waiting { .. } | PlayerActionState::Sleeping { .. } | PlayerActionState::Smashing
                | PlayerActionState::Attacking => StatusColor::Warn,
                _ => StatusColor::Default,
            }),
    {
        match self {
            PlayerActionState::Normal | PlayerActionState::Closing | PlayerActionState::ExaminingPos(_)
            | PlayerActionState::ExaminingZoneLevel(_) => StatusColor::Default,
            PlayerActionState::Waiting { .. } | PlayerActionState::Sleeping { .. } | PlayerActionState::Smashing
            | PlayerActionState::Attacking => StatusColor::Warn,
        }
    }

    /// The text of the state in the sidebar.
    pub fn label(&self) -> (res: &'static str)
        ensures
            res == (match *self {
                PlayerActionState::Normal => "",
                PlayerActionState::Attacking => "Attacking",
                PlayerActionState::Smashing => "Smashing",
                PlayerActionState::Closing => "Closing",
                PlayerActionState::Waiting { .. } => "Waiting",
                PlayerActionState::Sleeping { .. } => "Sleeping",
                PlayerActionState::ExaminingPos(_) => "Examining",
                PlayerActionState::ExaminingZoneLevel(_) => "Examining map",
            }),
    {
        match self {
            PlayerActionState::Normal => "",
            PlayerActionState::Attacking => "Attacking",
            PlayerActionState::Smashing => "Smashing",
            PlayerActionState::Closing => "Closing",
            PlayerActionState::Waiting { .. } => "Waiting",
            PlayerActionState::Sleeping { .. } => "Sleeping",
            PlayerActionState::ExaminingPos(_) => "Examining",
            PlayerActionState::ExaminingZoneLevel(_) => "Examining map",
        }
    }

    pub open spec fn spec_cancel_context(self) -> CancelContext {
        match self {
            PlayerActionState::Normal => CancelContext::State,
            PlayerActionState::Sleeping { .. } => CancelContext::State,
            _ => CancelContext::Action,
        }
    }

    /// A cancelation in the normal state or while asleep concerns the game as a
    /// whole; in any other state it ends the current action.
    pub fn cancel_context(&self) -> (res: CancelContext)
        ensures
            res == self.spec_cancel_context(),
    {
        match self {
            PlayerActionState::Normal | PlayerActionState::Sleeping { .. } => CancelContext::State,
            _ => CancelContext::Action,
        }
    }

    /// The position that examining starts from: the examined position, the
    /// centre of the examined zone level, or the player's position.
    pub open spec fn spec_focus_pos(self, pos: Pos) -> Pos {
        match self {
            PlayerActionState::ExaminingPos(p) => p,
            PlayerActionState::ExaminingZoneLevel(z) => z.spec_center_pos(),
            _ => pos,
        }
    }

    /// The zone level that examining the map starts from.
    pub open spec fn spec_focus_zone_level(self, pos: Pos) -> ZoneLevel {
        match self {
            PlayerActionState::ExaminingPos(p) => ZoneLevel::spec_from_pos(p),
            PlayerActionState::ExaminingZoneLevel(z) => z,
            _ => ZoneLevel::spec_from_pos(pos),
        }
    }

    /// The state and behaviour after an offset towards `target` in direction `nbor`.
    pub open spec fn spec_handle_offset(self, target: Result<Pos, Message>, nbor: Nbor) -> (PlayerActionState, PlayerBehavior) {
        match self {
            PlayerActionState::ExaminingZoneLevel(current) => match current.spec_nbor(nbor) {
                Some(t) => (PlayerActionState::ExaminingZoneLevel(t), PlayerBehavior::NoEffect),
                None => (self, PlayerBehavior::Feedback(Message::spec_new(Severity::Warn, "invalid zone level to examine"))),
            },
            PlayerActionState::ExaminingPos(current) => {
                let t = match target {
                    Ok(t) => Some(t),
                    Err(_) => current.spec_raw_nbor(nbor),
                };
                match t {
                    Some(t) => (PlayerActionState::ExaminingPos(t), PlayerBehavior::NoEffect),
                    None => (self, PlayerBehavior::Feedback(Message::spec_new(Severity::Warn, "invalid position to examine"))),
                }
            },
            PlayerActionState::Waiting { .. } => (PlayerActionState::Normal, PlayerBehavior::NoEffect),
            _ => match target {
                Ok(t) => match self {
                    PlayerActionState::Normal => (self, PlayerBehavior::Perform(PlannedAction::Step { to: t })),
                    PlayerActionState::Attacking => (PlayerActionState::Normal, PlayerBehavior::Perform(PlannedAction::Attack { target: t })),
                    PlayerActionState::Smashing => (PlayerActionState::Normal, PlayerBehavior::Perform(PlannedAction::Smash { target: t })),
                    _ => (PlayerActionState::Normal, PlayerBehavior::Perform(PlannedAction::Close { target: t })),
                },
                Err(m) => (self, PlayerBehavior::Feedback(m)),
            },
        }
    }

    /// Moves the examined position or zone level, or starts the action that
    /// the state prepared, towards `target` in direction `nbor`.
    pub fn handle_offset(&mut self, target: Result<Pos, Message>, nbor: Nbor) -> (res: PlayerBehavior)
        requires
            !(*old(self) is Sleeping),
            match *old(self) {
                PlayerActionState::ExaminingPos(p) => p.in_world(),
                PlayerActionState::ExaminingZoneLevel(z) => z.in_world(),
                _ => true,
            },
        ensures
            (*final(self), res) == old(self).spec_handle_offset(target, nbor),
    {
        match *self {
            PlayerActionState::ExaminingZoneLevel(current) => match current.nbor(nbor) {
                Some(t) => {
                    *self = PlayerActionState::ExaminingZoneLevel(t);
                    PlayerBehavior::NoEffect
                },
                None => PlayerBehavior::Feedback(Message::warn("invalid zone level to examine")),
            },
            PlayerActionState::ExaminingPos(current) => {
                let t = match target {
                    Ok(t) => Some(t),
                    Err(_) => current.raw_nbor(nbor),
                };
                match t {
                    Some(t) => {
                        *self = PlayerActionState::ExaminingPos(t);
                        PlayerBehavior::NoEffect
                    },
                    None => PlayerBehavior::Feedback(Message::warn("invalid position to examine")),
                }
            },
            PlayerActionState::Waiting { .. } => {
                *self = PlayerActionState::Normal;
                PlayerBehavior::NoEffect
            },
            _ => match target {
                Ok(t) => match *self {
                    PlayerActionState::Normal => PlayerBehavior::Perform(PlannedAction::Step { to: t }),
                    PlayerActionState::Attacking => {
                        *self = PlayerActionState::Normal;
                        PlayerBehavior::Perform(PlannedAction::Attack { target: t })
                    },
                    PlayerActionState::Smashing => {
                        *self = PlayerActionState::Normal;
                        PlayerBehavior::Perform(PlannedAction::Smash { target: t })
                    },
                    _ => {
                        *self = PlayerActionState::Normal;
                        PlayerBehavior::Perform(PlannedAction::Close { target: t })
                    },
                },
                Err(m) => PlayerBehavior::Feedback(m),
            },
        }
    }
}


/// The state and behaviour after looking for something of the kind `target`
/// around `pos`: nothing found gives `none_text`, one is acted on at once, more
/// are left for the player to choose from in the state `choosing`.
pub open spec fn spec_handle_exploring(
    state: PlayerActionState,
    envir: Envir,
    pos: Pos,
    target: ExploreTarget,
    choosing: PlayerActionState,
    none_text: &'static str,
) -> (PlayerActionState, PlayerBehavior) {
    let found = envir.spec_nbors_if(pos, NborFilter::Explore { from: pos, target }, 11);
    if found.len() == 0 {
        (state, PlayerBehavior::Feedback(Message::spec_new(Severity::Warn, none_text)))
    } else if found.len() == 1 {
        (state, PlayerBehavior::Perform(match target {
            ExploreTarget::Attack => PlannedAction::Attack { target: found[0].1 },
            ExploreTarget::Smash => PlannedAction::Smash { target: found[0].1 },
            _ => PlannedAction::Close { target: found[0].1 },
        }))
    } else {
        (choosing, PlayerBehavior::NoEffect)
    }
}

impl PlayerActionState {
    fn handle_exploring(
        &mut self,
        envir: &Envir,
        pos: Pos,
        target: ExploreTarget,
        choosing: PlayerActionState,
        none_text: &'static str,
    ) -> (res: PlayerBehavior)
        requires
            envir.wf(),
            envir.costs_bounded(),
            pos.in_world(),
            target != ExploreTarget::Pulp,
        ensures
            (*final(self), res) == spec_handle_exploring(*old(self), *envir, pos, target, choosing, none_text),
    {
        let found = envir.nbors_if(pos, NborFilter::Explore { from: pos, target });
        if found.len() == 0 {
            PlayerBehavior::Feedback(Message::warn(none_text))
        } else if found.len() == 1 {
            let t = found[0].1;
            PlayerBehavior::Perform(match target {
                ExploreTarget::Attack => PlannedAction::Attack { target: t },
                ExploreTarget::Smash => PlannedAction::Smash { target: t },
                _ => PlannedAction::Close { target: t },
            })
        } else {
            *self = choosing;
            PlayerBehavior::NoEffect
        }
    }

    /// Attacks the only character around, or lets the player choose one.
    pub fn handle_attack(&mut self, envir: &Envir, pos: Pos) -> (res: PlayerBehavior)
        requires
            envir.wf(),
            envir.costs_bounded(),
            pos.in_world(),
        ensures
            (*final(self), res) == spec_handle_exploring(*old(self), *envir, pos, ExploreTarget::Attack,
                PlayerActionState::Attacking, "no targets nearby"),
    {
        self.handle_exploring(envir, pos, ExploreTarget::Attack, PlayerActionState::Attacking, "no targets nearby")
    }

    /// Smashes the only smashable thing around, or lets the player choose one.
    pub fn handle_smash(&mut self, envir: &Envir, pos: Pos) -> (res: PlayerBehavior)
        requires
            envir.wf(),
            envir.costs_bounded(),
            pos.in_world(),
        ensures
            (*final(self), res) == spec_handle_exploring(*old(self), *envir, pos, ExploreTarget::Smash,
                PlayerActionState::Smashing, "no targets nearby"),
    {
        self.handle_exploring(envir, pos, ExploreTarget::Smash, PlayerActionState::Smashing, "no targets nearby")
    }

    /// Closes the only closeable thing around, or lets the player choose one.
    pub fn handle_close(&mut self, envir: &Envir, pos: Pos) -> (res: PlayerBehavior)
        requires
            envir.wf(),
            envir.costs_bounded(),
            pos.in_world(),
        ensures
            (*final(self), res) == spec_handle_exploring(*old(self), *envir, pos, ExploreTarget::Close,
                PlayerActionState::Closing, "nothing to close nearby"),
    {
        self.handle_exploring(envir, pos, ExploreTarget::Close, PlayerActionState::Closing, "nothing to close nearby")
    }
}

/// The neighbour of `from` as `handle_offset` takes it: a failure becomes a warning.
pub open spec fn offset_target(envir: Envir, from: Pos, nbor: Nbor) -> Result<Pos, Message> {
    match envir.spec_world_nbor(from, nbor) {
        Ok(p) => Ok(p),
        Err(text) => Err(Message::spec_new(Severity::Warn, text)),
    }
}

/// The state and behaviour after one instruction of the player.
pub open spec fn spec_plan(
    state: PlayerActionState,
    envir: Envir,
    pos: Pos,
    instruction: QueuedInstruction,
    now: Timestamp,
) -> (PlayerActionState, PlayerBehavior) {
    if state is Sleeping {
        if instruction == QueuedInstruction::Interrupt(Interruption::Finished) {
            (PlayerActionState::Normal, PlayerBehavior::Feedback(Message::spec_new(Severity::Info, "You wake up")))
        } else {
            (state, PlayerBehavior::Feedback(Message::spec_new(Severity::Warn, "You are still asleep. Zzz...")))
        }
    } else if state == PlayerActionState::Normal && instruction == QueuedInstruction::Offset(PlayerDirection::Here) {
        (state, PlayerBehavior::Perform(PlannedAction::Stay { duration: StayDuration::Short }))
    } else if state == PlayerActionState::Normal && instruction == QueuedInstruction::Wait {
        (PlayerActionState::spec_start_waiting(now), PlayerBehavior::Feedback(Message::spec_new(Severity::Info, "You wait...")))
    } else if state == PlayerActionState::Normal && instruction == QueuedInstruction::Sleep {
        (PlayerActionState::spec_start_sleeping(now), PlayerBehavior::Feedback(Message::spec_new(Severity::Info, "You fall asleep... Zzz...")))
    } else if state == PlayerActionState::Attacking && instruction == QueuedInstruction::Offset(PlayerDirection::Here) {
        (state, PlayerBehavior::Feedback(Message::spec_new(Severity::Warn, "You can't attack yourself")))
    } else if state is ExaminingPos && instruction is Offset {
        let nbor = instruction->Offset_0.spec_to_nbor();
        state.spec_handle_offset(offset_target(envir, state->ExaminingPos_0, nbor), nbor)
    } else if instruction == QueuedInstruction::CancelAction || instruction == QueuedInstruction::Wait
        || instruction == QueuedInstruction::Sleep
        || (state == PlayerActionState::Attacking && instruction == QueuedInstruction::Attack)
        || (state == PlayerActionState::Smashing && instruction == QueuedInstruction::Smash)
        || (state is ExaminingPos && instruction == QueuedInstruction::ExaminePos)
        || (state is ExaminingZoneLevel && instruction == QueuedInstruction::ExamineZoneLevel) {
        (PlayerActionState::Normal, PlayerBehavior::NoEffect)
    } else {
        match instruction {
            QueuedInstruction::Offset(direction) => {
                let nbor = direction.spec_to_nbor();
                state.spec_handle_offset(offset_target(envir, pos, nbor), nbor)
            },
            QueuedInstruction::Wield(entity) => (state, PlayerBehavior::Perform(PlannedAction::Wield { entity })),
            QueuedInstruction::Unwield(entity) => (state, PlayerBehavior::Perform(PlannedAction::Unwield { entity })),
            QueuedInstruction::Pickup(entity) => (state, PlayerBehavior::Perform(PlannedAction::Pickup { entity })),
            QueuedInstruction::Dump(entity, direction) => (state, PlayerBehavior::Perform(PlannedAction::Dump { entity, direction })),
            QueuedInstruction::Attack => spec_handle_exploring(state, envir, pos, ExploreTarget::Attack,
                PlayerActionState::Attacking, "no targets nearby"),
            QueuedInstruction::Smash => spec_handle_exploring(state, envir, pos, ExploreTarget::Smash,
                PlayerActionState::Smashing, "no targets nearby"),
            QueuedInstruction::Close => spec_handle_exploring(state, envir, pos, ExploreTarget::Close,
                PlayerActionState::Closing, "nothing to close nearby"),
            QueuedInstruction::ExamineItem(entity) => (state, PlayerBehavior::Perform(PlannedAction::ExamineItem { entity })),
            QueuedInstruction::ExaminePos => (PlayerActionState::ExaminingPos(state.spec_focus_pos(pos)), PlayerBehavior::NoEffect),
            QueuedInstruction::ExamineZoneLevel => (PlayerActionState::ExaminingZoneLevel(state.spec_focus_zone_level(pos)), PlayerBehavior::NoEffect),
            QueuedInstruction::ChangePace(change) => (state, PlayerBehavior::Perform(PlannedAction::ChangePace(change))),
            QueuedInstruction::Interrupt(Interruption::Danger) => if state is Waiting {
                (PlayerActionState::Normal, PlayerBehavior::Feedback(Message::spec_new(Severity::Warn, "You spot an enemy and stop waiting")))
            } else {
                (PlayerActionState::Normal, PlayerBehavior::Feedback(Message::spec_new(Severity::Error, "Iterrupted while not waiting")))
            },
            QueuedInstruction::Interrupt(Interruption::Finished) => if state is Waiting {
                (PlayerActionState::Normal, PlayerBehavior::Feedback(Message::spec_new(Severity::Info, "Finished waiting")))
            } else {
                (PlayerActionState::Normal, PlayerBehavior::Feedback(Message::spec_new(Severity::Error, "Finished while not waiting")))
            },
            _ => (PlayerActionState::Normal, PlayerBehavior::NoEffect),
        }
    }
}

/// The instruction can be processed in the state: a cancelation needs an
/// action to cancel.
pub open spec fn plannable(state: PlayerActionState, instruction: QueuedInstruction) -> bool {
    instruction != QueuedInstruction::CancelAction || state.spec_cancel_context() == CancelContext::Action
}

impl PlayerActionState {
    fn offset_nbor(envir: &Envir, from: Pos, nbor: Nbor) -> (res: Result<Pos, Message>)
        requires
            envir.wf(),
            from.in_world(),
        ensures
            res == offset_target(*envir, from, nbor),
            res matches Ok(p) ==> p.in_world(),
    {
        match envir.world_nbor(from, nbor) {
            Ok(p) => Ok(p),
            Err(text) => Err(Message::warn(text)),
        }
    }

    /// Processes one instruction of the player: changes the state, and tells
    /// which action to perform or what to tell the player.
    pub fn plan(&mut self, envir: &Envir, pos: Pos, instruction: QueuedInstruction, now: Timestamp) -> (res: PlayerBehavior)
        requires
            envir.wf(),
            envir.costs_bounded(),
            pos.in_world(),
            old(self).wf_at(now),
            time_fits(now),
            plannable(*old(self), instruction),
        ensures
            (*final(self), res) == spec_plan(*old(self), *envir, pos, instruction, now),
            final(self).wf_at(now),
    {
        let state = *self;
        if let PlayerActionState::Sleeping { .. } = state {
            if instruction == QueuedInstruction::Interrupt(Interruption::Finished) {
                *self = PlayerActionState::Normal;
                return PlayerBehavior::Feedback(Message::info("You wake up"));
            } else {
                return PlayerBehavior::Feedback(Message::warn("You are still asleep. Zzz..."));
            }
        }
        if state == PlayerActionState::Normal && instruction == QueuedInstruction::Offset(PlayerDirection::Here) {
            return PlayerBehavior::Perform(PlannedAction::Stay { duration: StayDuration::Short });
        }
        if state == PlayerActionState::Normal && instruction == QueuedInstruction::Wait {
            *self = Self::start_waiting(now);
            return PlayerBehavior::Feedback(Message::info("You wait..."));
        }
        if state == PlayerActionState::Normal && instruction == QueuedInstruction::Sleep {
            *self = Self::start_sleeping(now);
            return PlayerBehavior::Feedback(Message::info("You fall asleep... Zzz..."));
        }
        if state == PlayerActionState::Attacking && instruction == QueuedInstruction::Offset(PlayerDirection::Here) {
            return PlayerBehavior::Feedback(Message::warn("You can't attack yourself"));
        }
        if let PlayerActionState::ExaminingPos(curr) = state {
            if let QueuedInstruction::Offset(direction) = instruction {
                let nbor = direction.to_nbor();
                let target = Self::offset_nbor(envir, curr, nbor);
                return self.handle_offset(target, nbor);
            }
        }
        let resets = match (state, instruction) {
            (_, QueuedInstruction::CancelAction) | (_, QueuedInstruction::Wait) | (_, QueuedInstruction::Sleep) => true,
            (PlayerActionState::Attacking, QueuedInstruction::Attack) => true,
            (PlayerActionState::Smashing, QueuedInstruction::Smash) => true,
            (PlayerActionState::ExaminingPos(_), QueuedInstruction::ExaminePos) => true,
            (PlayerActionState::ExaminingZoneLevel(_), QueuedInstruction::ExamineZoneLevel) => true,
            _ => false,
        };
        if resets {
            *self = PlayerActionState::Normal;
            return PlayerBehavior::NoEffect;
        }
        match instruction {
            QueuedInstruction::Offset(direction) => {
                let nbor = direction.to_nbor();
                let target = Self::offset_nbor(envir, pos, nbor);
                self.handle_offset(target, nbor)
            },
            QueuedInstruction::Wield(entity) => PlayerBehavior::Perform(PlannedAction::Wield { entity }),
            QueuedInstruction::Unwield(entity) => PlayerBehavior::Perform(PlannedAction::Unwield { entity }),
            QueuedInstruction::Pickup(entity) => PlayerBehavior::Perform(PlannedAction::Pickup { entity }),
            QueuedInstruction::Dump(entity, direction) => PlayerBehavior::Perform(PlannedAction::Dump { entity, direction }),
            QueuedInstruction::Attack => self.handle_attack(envir, pos),
            QueuedInstruction::Smash => self.handle_smash(envir, pos),
            QueuedInstruction::Close => self.handle_close(envir, pos),
            QueuedInstruction::ExamineItem(entity) => PlayerBehavior::Perform(PlannedAction::ExamineItem { entity }),
            QueuedInstruction::ExaminePos => {
                let focus_pos = match state {
                    PlayerActionState::ExaminingPos(p) => p,
                    PlayerActionState::ExaminingZoneLevel(z) => z.center_pos(),
                    _ => pos,
                };
                *self = PlayerActionState::ExaminingPos(focus_pos);
                PlayerBehavior::NoEffect
            },
            QueuedInstruction::ExamineZoneLevel => {
                let target = match state {
                    PlayerActionState::ExaminingPos(p) => ZoneLevel::from_pos(p),
                    PlayerActionState::ExaminingZoneLevel(z) => z,
                    _ => ZoneLevel::from_pos(pos),
                };
                *self = PlayerActionState::ExaminingZoneLevel(target);
                PlayerBehavior::NoEffect
            },
            QueuedInstruction::ChangePace(change) => PlayerBehavior::Perform(PlannedAction::ChangePace(change)),
            QueuedInstruction::Interrupt(Interruption::Danger) => {
                *self = PlayerActionState::Normal;
                if let PlayerActionState::Waiting { .. } = state {
                    PlayerBehavior::Feedback(Message::warn("You spot an enemy and stop waiting"))
                } else {
                    PlayerBehavior::Feedback(Message::error("Iterrupted while not waiting"))
                }
            },
            QueuedInstruction::Interrupt(Interruption::Finished) => {
                *self = PlayerActionState::Normal;
                if let PlayerActionState::Waiting { .. } = state {
                    PlayerBehavior::Feedback(Message::info("Finished waiting"))
                } else {
                    PlayerBehavior::Feedback(Message::error("Finished while not waiting"))
                }
            },
            _ => {
                *self = PlayerActionState::Normal;
                PlayerBehavior::NoEffect
            },
        }
    }
}


/// Where processing a sequence of pending instructions (oldest last) ends: the
/// state, the action to perform if one was found, the messages for the player
/// in order, and the instructions that are still pending.
pub struct PlanRun {
    pub state: PlayerActionState,
    pub action: Option<PlannedAction>,
    pub messages: Seq<Message>,
    pub pending: Seq<QueuedInstruction>,
}

/// Processes pending instructions, oldest first, until one gives an action.
pub open spec fn spec_plan_queue(
    state: PlayerActionState,
    envir: Envir,
    pos: Pos,
    pending: Seq<QueuedInstruction>,
    now: Timestamp,
) -> PlanRun
    decreases pending.len(),
{
    if pending.len() == 0 {
        PlanRun { state, action: None, messages: Seq::empty(), pending }
    } else {
        let (next, behavior) = spec_plan(state, envir, pos, pending.last(), now);
        match behavior {
            PlayerBehavior::Perform(action) => PlanRun {
                state: next,
                action: Some(action),
                messages: Seq::empty(),
                pending: pending.drop_last(),
            },
            PlayerBehavior::Feedback(m) => {
                let rest = spec_plan_queue(next, envir, pos, pending.drop_last(), now);
                PlanRun { messages: seq![m] + rest.messages, ..rest }
            },
            PlayerBehavior::NoEffect => spec_plan_queue(next, envir, pos, pending.drop_last(), now),
        }
    }
}

/// Every instruction that processing reaches can be processed.
pub open spec fn queue_plannable(
    state: PlayerActionState,
    envir: Envir,
    pos: Pos,
    pending: Seq<QueuedInstruction>,
    now: Timestamp,
) -> bool
    decreases pending.len(),
{
    if pending.len() == 0 {
        true
    } else {
        &&& plannable(state, pending.last())
        &&& {
            let (next, behavior) = spec_plan(state, envir, pos, pending.last(), now);
            behavior is Perform || queue_plannable(next, envir, pos, pending.drop_last(), now)
        }
    }
}

/// What the player character does this turn, and what comes of it.
pub struct PlanOutcome {
    /// The action to perform, if any.
    pub action: Option<PlannedAction>,
    /// Messages for the player, in order.
    pub messages: Vec<Message>,
    /// Healing of a sleeping player character.
    pub healing: Option<u16>,
}

/// When no instruction gave an action: what a waiting or sleeping player
/// character does, and which instruction it queues for the next turn.
pub struct Continuation {
    pub state: PlayerActionState,
    pub action: Option<PlannedAction>,
    pub healing: Option<u16>,
    pub queued: Option<QueuedInstruction>,
    pub waits_for_user: bool,
}

pub open spec fn spec_continue(state: PlayerActionState, enemies_present: bool, now: Timestamp) -> Continuation {
    match state {
        PlayerActionState::Waiting { until } => if enemies_present {
            Continuation { state, action: None, healing: None, queued: Some(QueuedInstruction::Interrupt(Interruption::Danger)), waits_for_user: false }
        } else if until.ms <= now.ms {
            Continuation { state, action: None, healing: None, queued: Some(QueuedInstruction::Interrupt(Interruption::Finished)), waits_for_user: false }
        } else {
            Continuation { state, action: Some(PlannedAction::Stay { duration: StayDuration::Short }), healing: None, queued: None, waits_for_user: false }
        },
        PlayerActionState::Sleeping { healing_from, until } => {
            let amount = ((now.ms - healing_from.ms) / HEALING_INTERVAL_MS as int) as u64;
            if until.ms <= now.ms {
                Continuation { state, action: None, healing: Some(amount as u16), queued: Some(QueuedInstruction::Interrupt(Interruption::Finished)), waits_for_user: false }
            } else {
                Continuation {
                    state: PlayerActionState::Sleeping {
                        healing_from: Timestamp { ms: (healing_from.ms + amount * HEALING_INTERVAL_MS) as u64 },
                        until,
                    },
                    action: Some(PlannedAction::Stay { duration: StayDuration::Long }),
                    healing: Some(amount as u16),
                    queued: None,
                    waits_for_user: false,
                }
            }
        },
        _ => Continuation { state, action: None, healing: None, queued: None, waits_for_user: true },
    }
}

impl PlayerActionState {
    /// Plans the player character's action for this turn: processes pending
    /// instructions, oldest first, until one gives an action, then lets a
    /// waiting or sleeping character go on, or starts waiting for the player.
    pub fn plan_action(
        &mut self,
        envir: &Envir,
        instruction_queue: &mut InstructionQueue,
        pos: Pos,
        now: Timestamp,
        enemies: &[Pos],
    ) -> (res: PlanOutcome)
        requires
            envir.wf(),
            envir.costs_bounded(),
            pos.in_world(),
            old(self).wf_at(now),
            time_fits(now),
            old(instruction_queue).wf(),
            !old(instruction_queue).waiting(),
            queue_plannable(*old(self), *envir, pos, old(instruction_queue).pending(), now),
        ensures
            ({
                let run = spec_plan_queue(*old(self), *envir, pos, old(instruction_queue).pending(), now);
                let cont = spec_continue(run.state, enemies@.len() > 0, now);
                &&& res.messages@ == run.messages
                &&& final(instruction_queue).wf()
                &&& if run.action is Some {
                    &&& res.action == run.action
                    &&& res.healing is None
                    &&& *final(self) == run.state
                    &&& final(instruction_queue).pending() == run.pending
                    &&& !final(instruction_queue).waiting()
                } else {
                    &&& res.action == cont.action
                    &&& res.healing == cont.healing
                    &&& *final(self) == cont.state
                    &&& final(instruction_queue).pending() == (match cont.queued {
                        Some(q) => seq![q],
                        None => Seq::<QueuedInstruction>::empty(),
                    })
                    &&& final(instruction_queue).waiting() == cont.waits_for_user
                }
            }),
            final(self).wf_at(now),
    {
        let ghost state0 = *old(self);
        let ghost pending0 = old(instruction_queue).pending();
        let ghost run = spec_plan_queue(state0, *envir, pos, pending0, now);
        let mut messages: Vec<Message> = Vec::new();
        loop
            invariant
                envir.wf(),
                envir.costs_bounded(),
                pos.in_world(),
                self.wf_at(now),
                time_fits(now),
                instruction_queue.wf(),
                !instruction_queue.waiting(),
                run == spec_plan_queue(state0, *envir, pos, pending0, now),
                state0 == *old(self),
                pending0 == old(instruction_queue).pending(),
                queue_plannable(*self, *envir, pos, instruction_queue.pending(), now),
                ({
                    let rest = spec_plan_queue(*self, *envir, pos, instruction_queue.pending(), now);
                    &&& rest.state == run.state
                    &&& rest.action == run.action
                    &&& rest.pending == run.pending
                    &&& messages@ + rest.messages == run.messages
                }),
            ensures
                run.action is None,
                *self == run.state,
                messages@ == run.messages,
                instruction_queue.pending().len() == 0,
                instruction_queue.wf(),
                !instruction_queue.waiting(),
                self.wf_at(now),
            decreases instruction_queue.pending().len(),
        {
            let ghost pending = instruction_queue.pending();
            let ghost before = *self;
            match instruction_queue.pop() {
                None => {
                    assert(messages@ + Seq::<Message>::empty() == messages@);
                    break;
                },
                Some(instruction) => {
                    match self.plan(envir, pos, instruction, now) {
                        PlayerBehavior::Perform(action) => {
                            proof {
                                let r = spec_plan_queue(before, *envir, pos, pending, now);
                                assert(pending.last() == instruction);
                                assert(r.action == Some(action));
                                assert(r.messages == Seq::<Message>::empty());
                                assert(messages@ + Seq::<Message>::empty() == messages@);
                            }
                            return PlanOutcome { action: Some(action), messages, healing: None };
                        },
                        PlayerBehavior::Feedback(message) => {
                            let ghost rest = spec_plan_queue(*self, *envir, pos, instruction_queue.pending(), now);
                            assert(messages@.push(message) + rest.messages == messages@ + (seq![message] + rest.messages));
                            messages.push(message);
                        },
                        PlayerBehavior::NoEffect => {},
                    }
                },
            }
        }
        match *self {
            PlayerActionState::Waiting { until } => {
                if enemies.len() > 0 {
                    instruction_queue.interrupt(Interruption::Danger);
                    PlanOutcome { action: None, messages, healing: None }
                } else if until.at_or_before(now) {
                    instruction_queue.interrupt(Interruption::Finished);
                    PlanOutcome { action: None, messages, healing: None }
                } else {
                    PlanOutcome { action: Some(PlannedAction::Stay { duration: StayDuration::Short }), messages, healing: None }
                }
            },
            PlayerActionState::Sleeping { healing_from, until } => {
                let sleeping_duration = now.minus(healing_from);
                let healing_amount = sleeping_duration.ms / HEALING_INTERVAL_MS;
                let healing = #[verifier::truncate] (healing_amount as u16);
                if until.at_or_before(now) {
                    instruction_queue.interrupt(Interruption::Finished);
                    PlanOutcome { action: None, messages, healing: Some(healing) }
                } else {
                    assert(healing_amount * HEALING_INTERVAL_MS <= sleeping_duration.ms) by (nonlinear_arith)
                        requires
                            healing_amount == sleeping_duration.ms / HEALING_INTERVAL_MS,
                    ;
                    let healing_duration = Milliseconds { ms: healing_amount * HEALING_INTERVAL_MS };
                    *self = PlayerActionState::Sleeping { healing_from: healing_from.plus(healing_duration), until };
                    PlanOutcome { action: Some(PlannedAction::Stay { duration: StayDuration::Long }), messages, healing: Some(healing) }
                }
            },
            _ => {
                instruction_queue.start_waiting();
                PlanOutcome { action: None, messages, healing: None }
            },
        }
    }
}


/// Law: sleep cannot be interrupted. Asleep, every instruction but the end of
/// the sleep leaves the state as it is and only earns a warning.
pub proof fn law_sleep_not_interruptible(
    state: PlayerActionState,
    envir: Envir,
    pos: Pos,
    instruction: QueuedInstruction,
    now: Timestamp,
)
    requires
        state is Sleeping,
        instruction != QueuedInstruction::Interrupt(Interruption::Finished),
    ensures
        spec_plan(state, envir, pos, instruction, now) == (state, PlayerBehavior::Feedback(
            Message::spec_new(Severity::Warn, "You are still asleep. Zzz..."),
        )),
{
}

/// Law: the end of the sleep wakes the player up.
pub proof fn law_sleep_ends_on_finish(state: PlayerActionState, envir: Envir, pos: Pos, now: Timestamp)
    requires
        state is Sleeping,
    ensures
        spec_plan(state, envir, pos, QueuedInstruction::Interrupt(Interruption::Finished), now).0 == PlayerActionState::Normal,
{
}

/// The neighbours of `pos` that hold something of the kind `target`.
pub open spec fn explored(envir: Envir, pos: Pos, target: ExploreTarget) -> Seq<(Nbor, Pos, WalkingCost)> {
    envir.spec_nbors_if(pos, NborFilter::Explore { from: pos, target }, 11)
}

/// The neighbour that a planned attack, smash or close acts on.
pub open spec fn acted_on(action: PlannedAction) -> Option<Pos> {
    match action {
        PlannedAction::Attack { target } => Some(target),
        PlannedAction::Smash { target } => Some(target),
        PlannedAction::Close { target } => Some(target),
        _ => None,
    }
}

/// Law: attacking, smashing or closing with exactly one neighbour that holds
/// something of the kind acts on that neighbour at once and leaves the state
/// as it is; only with two or more the player is asked to choose; with none
/// the player is told so. An attack is on a neighbour other than the
/// player's position that holds a character, a smash on one that holds
/// something smashable, a close on one that holds something closeable.
pub proof fn law_single_target_acted_on(
    state: PlayerActionState,
    envir: Envir,
    pos: Pos,
    target: ExploreTarget,
    choosing: PlayerActionState,
    none_text: &'static str,
)
    requires
        target != ExploreTarget::Pulp,
    ensures
        explored(envir, pos, target).len() == 1 ==> {
            let (next, behavior) = spec_handle_exploring(state, envir, pos, target, choosing, none_text);
            &&& next == state
            &&& behavior matches PlayerBehavior::Perform(action) && acted_on(action) == Some(explored(envir, pos, target)[0].1)
            &&& (behavior matches PlayerBehavior::Perform(PlannedAction::Attack { .. }) <==> target == ExploreTarget::Attack)
            &&& (behavior matches PlayerBehavior::Perform(PlannedAction::Smash { .. }) <==> target == ExploreTarget::Smash)
            &&& (behavior matches PlayerBehavior::Perform(PlannedAction::Close { .. }) <==> target == ExploreTarget::Close)
        },
        explored(envir, pos, target).len() >= 2 ==> spec_handle_exploring(state, envir, pos, target, choosing, none_text)
            == (choosing, PlayerBehavior::NoEffect),
        explored(envir, pos, target).len() == 0 ==> {
            let (next, behavior) = spec_handle_exploring(state, envir, pos, target, choosing, none_text);
            next == state && behavior is Feedback
        },
        spec_handle_exploring(state, envir, pos, target, choosing, none_text).1 matches PlayerBehavior::Perform(action) ==> {
            let t = acted_on(action)->0;
            &&& acted_on(action) is Some
            &&& action is Attack ==> t != pos && (envir.tile_at(t) matches Some(tile) && tile.character is Some)
            &&& action is Smash ==> (envir.tile_at(t) matches Some(tile) && tile.smashable is Some)
            &&& action is Close ==> (envir.tile_at(t) matches Some(tile) && tile.closeable is Some)
        },
{
    envir.lemma_nbors_if_accepted(pos, NborFilter::Explore { from: pos, target }, 11);
    if explored(envir, pos, target).len() > 0 {
        let first = explored(envir, pos, target)[0];
        assert(envir.spec_accepts(NborFilter::Explore { from: pos, target }, first.1));
    }
}

/// Law: in the normal state, an attack with exactly one character around
/// attacks it at once and the state stays normal; with two or more, the
/// player is asked for a direction.
pub proof fn law_attack_single_target(envir: Envir, pos: Pos, now: Timestamp)
    ensures
        explored(envir, pos, ExploreTarget::Attack).len() == 1 ==> spec_plan(PlayerActionState::Normal, envir, pos, QueuedInstruction::Attack, now)
            == (PlayerActionState::Normal, PlayerBehavior::Perform(PlannedAction::Attack { target: explored(envir, pos, ExploreTarget::Attack)[0].1 })),
        explored(envir, pos, ExploreTarget::Attack).len() >= 2 ==> spec_plan(PlayerActionState::Normal, envir, pos, QueuedInstruction::Attack, now)
            == (PlayerActionState::Attacking, PlayerBehavior::NoEffect),
{
    law_single_target_acted_on(PlayerActionState::Normal, envir, pos, ExploreTarget::Attack, PlayerActionState::Attacking, "no targets nearby");
}

/// Law: a cancelation ends whatever action is under way, without effect.
pub proof fn law_cancel_ends_action(state: PlayerActionState, envir: Envir, pos: Pos, now: Timestamp)
    requires
        state.spec_cancel_context() == CancelContext::Action,
    ensures
        spec_plan(state, envir, pos, QueuedInstruction::CancelAction, now) == (PlayerActionState::Normal, PlayerBehavior::NoEffect),
{
}

/// Law: processing an instruction keeps the state one the game can be in.
pub proof fn law_plan_keeps_state_valid(
    state: PlayerActionState,
    envir: Envir,
    pos: Pos,
    instruction: QueuedInstruction,
    now: Timestamp,
)
    requires
        envir.wf(),
        pos.in_world(),
        state.wf_at(now),
        time_fits(now),
    ensures
        spec_plan(state, envir, pos, instruction, now).0.wf_at(now),
{
    match state {
        PlayerActionState::ExaminingPos(p) => {
            envir.lemma_get_nbor_in_world(p, Nbor::Horizontal(HorizontalDirection::Here));
            if instruction is Offset {
                envir.lemma_get_nbor_in_world(p, instruction->Offset_0.spec_to_nbor());
            }
        },
        _ => {},
    }
    if instruction is Offset {
        envir.lemma_get_nbor_in_world(pos, instruction->Offset_0.spec_to_nbor());
    }
    crate::geometry::lemma_pos_in_world_zone_in_world(pos);
    if state is ExaminingPos {
        crate::geometry::lemma_pos_in_world_zone_in_world(state->ExaminingPos_0);
    }
    if state is ExaminingZoneLevel {
        lemma_center_in_world(state->ExaminingZoneLevel_0);
    }
}

proof fn lemma_center_in_world(z: ZoneLevel)
    requires
        z.in_world(),
    ensures
        z.spec_center_pos().in_world(),
{
}

/// Law: sleeping heals for the time slept and never moves the healing start
/// past the current time; the sleep stays one the game can be in.
pub proof fn law_sleep_heals_up_to_now(state: PlayerActionState, enemies_present: bool, now: Timestamp)
    requires
        state is Sleeping,
        state.wf_at(now),
    ensures
        ({
            let c = spec_continue(state, enemies_present, now);
            &&& c.state.wf_at(now)
            &&& c.healing == Some((((now.ms - state->healing_from.ms) / HEALING_INTERVAL_MS as int) as u64) as u16)
            &&& state->Sleeping_until.ms > now.ms ==> c.state->Sleeping_healing_from.ms + HEALING_INTERVAL_MS > now.ms
        }),
{
    let hf = state->healing_from.ms;
    let amount = (now.ms - hf) / HEALING_INTERVAL_MS as int;
    assert(amount * HEALING_INTERVAL_MS <= now.ms - hf < amount * HEALING_INTERVAL_MS + HEALING_INTERVAL_MS) by (nonlinear_arith)
        requires
            amount == (now.ms - hf) / HEALING_INTERVAL_MS as int,
            now.ms - hf >= 0,
    ;
    let c = spec_continue(state, enemies_present, now);
    assert(0 <= amount <= now.ms - hf);
    assert(amount == (amount as u64) as int);
    if !(state->Sleeping_until.ms <= now.ms) {
        assert(c.state->healing_from.ms == hf + amount * HEALING_INTERVAL_MS);
        assert(c.state.wf_at(now));
    }
}

/// Law: waiting ends with an interruption when enemies are around, and with
/// its end once its time has come; until then the player character stays.
pub proof fn law_waiting_continues(until: Timestamp, enemies_present: bool, now: Timestamp)
    ensures
        ({
            let c = spec_continue(PlayerActionState::Waiting { until }, enemies_present, now);
            &&& enemies_present ==> c.queued == Some(QueuedInstruction::Interrupt(Interruption::Danger)) && c.action is None
            &&& !enemies_present && until.ms <= now.ms ==> c.queued == Some(QueuedInstruction::Interrupt(Interruption::Finished))
                && c.action is None
            &&& !enemies_present && until.ms > now.ms ==> c.action == Some(PlannedAction::Stay { duration: StayDuration::Short })
                && c.queued is None
        }),
{
}

} // verus!
