use rustaclysm_core::controls::{
    base_instruction, drop_direction, inventory_action_instruction, selected_item_instruction, to_offset,
    zoom_direction, zoom_distance, Key, ZoomDirection, ZoomDistance,
};
use rustaclysm_core::envir::Envir;
use rustaclysm_core::focus::{
    handle_cancelation, handle_queued_instruction, CancelHandling, Cancelation, ElevationVisibility, Focus, FocusState,
};
use rustaclysm_core::geometry::{HorizontalDirection, Level, Nbor, PlayerDirection, Pos, Zone, ZoneLevel};
use rustaclysm_core::instruction::{Interruption, Message, PlannedAction, QueuedInstruction, Severity, StayDuration};
use rustaclysm_core::instruction_queue::InstructionQueue;
use rustaclysm_core::inventory::{InventoryAction, InventorySection};
use rustaclysm_core::player_action_state::{CancelContext, PlayerActionState, PlayerBehavior, StatusColor};
use rustaclysm_core::units::{EntityId, Timestamp};

fn pos(x: i32, h: i8, z: i32) -> Pos {
    Pos { x, level: Level { h }, z }
}

#[test]
fn waiting_lasts_a_minute_and_sleeping_eight_hours() {
    let now = Timestamp { ms: 10_000 };
    assert_eq!(PlayerActionState::start_waiting(now), PlayerActionState::Waiting { until: Timestamp { ms: 70_000 } });
    assert_eq!(
        PlayerActionState::start_sleeping(now),
        PlayerActionState::Sleeping { healing_from: now, until: Timestamp { ms: 10_000 + 8 * 3_600_000 } }
    );
}

#[test]
fn state_labels_and_colors() {
    assert_eq!(PlayerActionState::Normal.label(), "");
    assert_eq!(PlayerActionState::Attacking.label(), "Attacking");
    assert_eq!(PlayerActionState::ExaminingPos(pos(0, 0, 0)).label(), "Examining");
    assert_eq!(PlayerActionState::Normal.color(), StatusColor::Default);
    assert_eq!(PlayerActionState::Smashing.color(), StatusColor::Warn);
    assert_eq!(PlayerActionState::Normal.cancel_context(), CancelContext::State);
    assert_eq!(PlayerActionState::Closing.cancel_context(), CancelContext::Action);
}

#[test]
fn plan_steps_and_waits() {
    let envir = Envir::new();
    let here = pos(5, 0, 5);
    let now = Timestamp { ms: 0 };
    let mut state = PlayerActionState::Normal;
    let behavior = state.plan(&envir, here, QueuedInstruction::Offset(PlayerDirection::Away), now);
    assert_eq!(behavior, PlayerBehavior::Perform(PlannedAction::Step { to: pos(5, 0, 4) }));
    let behavior = state.plan(&envir, here, QueuedInstruction::Offset(PlayerDirection::Here), now);
    assert_eq!(behavior, PlayerBehavior::Perform(PlannedAction::Stay { duration: StayDuration::Short }));
    let behavior = state.plan(&envir, here, QueuedInstruction::Wait, now);
    assert_eq!(behavior, PlayerBehavior::Feedback(Message { severity: Severity::Info, text: "You wait..." }));
    assert_eq!(state, PlayerActionState::Waiting { until: Timestamp { ms: 60_000 } });
    let behavior = state.plan(&envir, here, QueuedInstruction::Interrupt(Interruption::Danger), now);
    assert_eq!(
        behavior,
        PlayerBehavior::Feedback(Message { severity: Severity::Warn, text: "You spot an enemy and stop waiting" })
    );
    assert_eq!(state, PlayerActionState::Normal);
}

#[test]
fn sleep_ends_only_when_finished() {
    let envir = Envir::new();
    let here = pos(0, 0, 0);
    let now = Timestamp { ms: 0 };
    let mut state = PlayerActionState::Normal;
    state.plan(&envir, here, QueuedInstruction::Sleep, now);
    let behavior = state.plan(&envir, here, QueuedInstruction::Attack, now);
    assert_eq!(behavior, PlayerBehavior::Feedback(Message { severity: Severity::Warn, text: "You are still asleep. Zzz..." }));
    assert!(matches!(state, PlayerActionState::Sleeping { .. }));
    let behavior = state.plan(&envir, here, QueuedInstruction::Interrupt(Interruption::Finished), now);
    assert_eq!(behavior, PlayerBehavior::Feedback(Message { severity: Severity::Info, text: "You wake up" }));
    assert_eq!(state, PlayerActionState::Normal);
}

#[test]
fn attacking_yourself_is_refused() {
    let envir = Envir::new();
    let mut state = PlayerActionState::Attacking;
    let behavior = state.plan(&envir, pos(0, 0, 0), QueuedInstruction::Offset(PlayerDirection::Here), Timestamp { ms: 0 });
    assert_eq!(behavior, PlayerBehavior::Feedback(Message { severity: Severity::Warn, text: "You can't attack yourself" }));
}

#[test]
fn attack_without_targets_warns() {
    let envir = Envir::new();
    let mut state = PlayerActionState::Normal;
    let behavior = state.plan(&envir, pos(0, 0, 0), QueuedInstruction::Attack, Timestamp { ms: 0 });
    assert_eq!(behavior, PlayerBehavior::Feedback(Message { severity: Severity::Warn, text: "no targets nearby" }));
    assert_eq!(state, PlayerActionState::Normal);
}

#[test]
fn examining_moves_the_examined_position() {
    let mut state = PlayerActionState::ExaminingPos(pos(1, 0, 1));
    let behavior = state.handle_offset(Err(Message { severity: Severity::Warn, text: "blocked" }), Nbor::Horizontal(HorizontalDirection::East));
    assert_eq!(behavior, PlayerBehavior::NoEffect);
    assert_eq!(state, PlayerActionState::ExaminingPos(pos(2, 0, 1)));
}

#[test]
fn going_up_without_stairs_is_refused() {
    let envir = Envir::new();
    let mut state = PlayerActionState::Normal;
    let behavior = state.plan(&envir, pos(0, 0, 0), QueuedInstruction::Offset(PlayerDirection::Above), Timestamp { ms: 0 });
    assert_eq!(behavior, PlayerBehavior::Feedback(Message { severity: Severity::Warn, text: "No stairs up" }));
}

#[test]
fn plan_action_takes_the_oldest_instruction() {
    let envir = Envir::new();
    let mut queue = InstructionQueue::new();
    queue.add(QueuedInstruction::Offset(PlayerDirection::Right));
    queue.add(QueuedInstruction::Offset(PlayerDirection::Left));
    let mut state = PlayerActionState::Normal;
    let outcome = state.plan_action(&envir, &mut queue, pos(0, 0, 0), Timestamp { ms: 0 }, &[]);
    assert_eq!(outcome.action, Some(PlannedAction::Step { to: pos(1, 0, 0) }));
    assert_eq!(queue.pop(), Some(QueuedInstruction::Offset(PlayerDirection::Left)));
}

#[test]
fn plan_action_waits_for_the_player_when_idle() {
    let envir = Envir::new();
    let mut queue = InstructionQueue::new();
    let mut state = PlayerActionState::Normal;
    let outcome = state.plan_action(&envir, &mut queue, pos(0, 0, 0), Timestamp { ms: 0 }, &[]);
    assert_eq!(outcome.action, None);
    assert!(outcome.messages.is_empty());
    assert!(queue.is_waiting());
}

#[test]
fn waiting_character_stays_until_enemies_show_up() {
    let envir = Envir::new();
    let mut queue = InstructionQueue::new();
    let mut state = PlayerActionState::Waiting { until: Timestamp { ms: 60_000 } };
    let outcome = state.plan_action(&envir, &mut queue, pos(0, 0, 0), Timestamp { ms: 1_000 }, &[]);
    assert_eq!(outcome.action, Some(PlannedAction::Stay { duration: StayDuration::Short }));
    let outcome = state.plan_action(&envir, &mut queue, pos(0, 0, 0), Timestamp { ms: 2_000 }, &[pos(3, 0, 3)]);
    assert_eq!(outcome.action, None);
    assert_eq!(queue.pop(), Some(QueuedInstruction::Interrupt(Interruption::Danger)));
}

#[test]
fn sleeping_heals_by_the_hour_of_sleep() {
    let envir = Envir::new();
    let mut queue = InstructionQueue::new();
    let mut state = PlayerActionState::start_sleeping(Timestamp { ms: 0 });
    let outcome = state.plan_action(&envir, &mut queue, pos(0, 0, 0), Timestamp { ms: 2_500_000 }, &[]);
    assert_eq!(outcome.action, Some(PlannedAction::Stay { duration: StayDuration::Long }));
    assert_eq!(outcome.healing, Some(2));
    assert_eq!(
        state,
        PlayerActionState::Sleeping { healing_from: Timestamp { ms: 2_000_000 }, until: Timestamp { ms: 8 * 3_600_000 } }
    );
}

#[test]
fn focus_moves_while_examining() {
    let mut queue = InstructionQueue::new();
    let next = handle_queued_instruction(
        &FocusState::ExaminingPos(pos(0, 0, 0)),
        &mut queue,
        QueuedInstruction::Offset(PlayerDirection::Closer),
    );
    assert_eq!(next, Some(FocusState::ExaminingPos(pos(0, 0, 1))));
    assert_eq!(queue.pop(), None);
    let next = handle_queued_instruction(&FocusState::Normal, &mut queue, QueuedInstruction::Smash);
    assert_eq!(next, None);
    assert_eq!(queue.pop(), Some(QueuedInstruction::Smash));
}

#[test]
fn escape_opens_the_menu_only_without_anything_to_cancel() {
    let mut queue = InstructionQueue::new();
    assert_eq!(FocusState::Normal.cancel_handling(&PlayerActionState::Normal), CancelHandling::Menu);
    assert_eq!(
        handle_cancelation(&FocusState::Normal, &PlayerActionState::Normal, &mut queue),
        Cancelation::OpenMenu
    );
    assert_eq!(
        handle_cancelation(&FocusState::Normal, &PlayerActionState::Attacking, &mut queue),
        Cancelation::Handled(None)
    );
    assert_eq!(queue.pop(), Some(QueuedInstruction::CancelAction));
    let examined = FocusState::ExaminingPos(pos(1, 0, 1));
    assert_eq!(
        handle_cancelation(&examined, &PlayerActionState::Normal, &mut queue),
        Cancelation::Handled(Some(FocusState::Normal))
    );
}

#[test]
fn elevation_toggles_back() {
    assert_eq!(ElevationVisibility::Shown.toggled(), ElevationVisibility::Hidden);
    assert_eq!(ElevationVisibility::Shown.toggled().toggled(), ElevationVisibility::Shown);
}

#[test]
fn focus_shows_lower_levels() {
    let focus = Focus { state: FocusState::Normal, player_pos: pos(0, 1, 0) };
    assert!(focus.is_pos_shown(pos(3, 0, 3), ElevationVisibility::Hidden));
    assert!(!focus.is_pos_shown(pos(3, 2, 3), ElevationVisibility::Hidden));
    assert!(focus.is_pos_shown(pos(3, 2, -1), ElevationVisibility::Shown));
    let zone_focus = Focus {
        state: FocusState::ExaminingZoneLevel(ZoneLevel { zone: Zone { x: 0, z: 0 }, level: Level { h: -2 } }),
        player_pos: pos(0, 0, 0),
    };
    assert!(zone_focus.is_pos_shown(pos(5, -2, 5), ElevationVisibility::Hidden));
    assert!(!zone_focus.is_pos_shown(pos(5, 0, 5), ElevationVisibility::Hidden));
    assert_eq!(zone_focus.pos(), pos(12, -2, 12));
}

#[test]
fn focus_on_zone_level_above_ground() {
    let above = Focus {
        state: FocusState::ExaminingZoneLevel(ZoneLevel { zone: Zone { x: 0, z: 0 }, level: Level { h: 1 } }),
        player_pos: pos(0, 0, 0),
    };
    assert!(above.is_pos_shown(pos(5, 5, 5), ElevationVisibility::Shown));
    assert!(!above.is_pos_shown(pos(5, 5, 5), ElevationVisibility::Hidden));
    assert!(above.is_pos_shown(pos(5, 1, 5), ElevationVisibility::Hidden));
    assert!(above.is_pos_shown(pos(5, 0, 5), ElevationVisibility::Hidden));
    assert!(!above.is_pos_shown(pos(5, -1, 5), ElevationVisibility::Shown));
    let ground = Focus {
        state: FocusState::ExaminingZoneLevel(ZoneLevel { zone: Zone { x: 0, z: 0 }, level: Level { h: 0 } }),
        player_pos: pos(0, 0, 0),
    };
    assert!(ground.is_pos_shown(pos(5, 3, 5), ElevationVisibility::Shown));
    assert!(!ground.is_pos_shown(pos(5, 3, 5), ElevationVisibility::Hidden));
    assert!(ground.is_pos_shown(pos(5, 0, 5), ElevationVisibility::Hidden));
}

#[test]
fn keys_give_instructions() {
    assert_eq!(PlayerDirection::from_key(Key::Numpad(8)), Some(PlayerDirection::Away));
    assert_eq!(PlayerDirection::from_key(Key::Character('<')), Some(PlayerDirection::Above));
    assert_eq!(PlayerDirection::from_key(Key::Tab), None);
    assert_eq!(to_offset(Key::Numpad(1)), QueuedInstruction::Offset(PlayerDirection::CloserLeft));
    assert_eq!(base_instruction('|'), Some(QueuedInstruction::Wait));
    assert_eq!(base_instruction('$'), Some(QueuedInstruction::Sleep));
    assert_eq!(base_instruction('x'), None);
    assert_eq!(zoom_distance(Key::Character('M')), Some(ZoomDistance::Far));
    assert_eq!(zoom_direction(Key::Character('z')), Some(ZoomDirection::In));
    assert_eq!(drop_direction(Key::Numpad(6)), Some(HorizontalDirection::East));
    assert_eq!(drop_direction(Key::Character('<')), None);
}

#[test]
fn inventory_keys_and_buttons() {
    let item = EntityId { bits: 4 };
    assert_eq!(
        selected_item_instruction('d', item, Some(InventorySection::Hands), HorizontalDirection::North),
        Some(QueuedInstruction::Dump(item, HorizontalDirection::North))
    );
    assert_eq!(
        selected_item_instruction('d', item, Some(InventorySection::Nbor(HorizontalDirection::North)), HorizontalDirection::North),
        None
    );
    assert_eq!(selected_item_instruction('t', item, None, HorizontalDirection::Here), Some(QueuedInstruction::Pickup(item)));
    assert_eq!(
        inventory_action_instruction(InventoryAction::Wield, item, HorizontalDirection::Here),
        QueuedInstruction::Wield(item)
    );
}
