use rustaclysm_core::base_instruction_queue;
use rustaclysm_core::geometry::{HorizontalDirection, PlayerDirection};
use rustaclysm_core::instruction::{ChangePace, InputChange, Interruption, QueuedInstruction};
use rustaclysm_core::instruction_queue::InstructionQueue;
use rustaclysm_core::timeouts::Timeouts;
use rustaclysm_core::units::{EntityId, Milliseconds, Timestamp};

#[test]
fn queue_processes_oldest_first() {
    let mut queue = InstructionQueue::new();
    queue.add(QueuedInstruction::Attack);
    queue.add(QueuedInstruction::Wait);
    assert!(queue.is_long());
    assert_eq!(queue.pop(), Some(QueuedInstruction::Attack));
    assert_eq!(queue.pop(), Some(QueuedInstruction::Wait));
    assert_eq!(queue.pop(), None);
}

#[test]
fn held_movement_is_not_queued_twice() {
    let mut queue = InstructionQueue::new();
    let step = QueuedInstruction::Offset(PlayerDirection::Away);
    queue.add(step);
    queue.add(step);
    assert!(!queue.is_long());
    assert_eq!(queue.pop(), Some(step));
    assert_eq!(queue.pop(), None);
}

#[test]
fn other_instructions_repeat() {
    let mut queue = InstructionQueue::new();
    queue.add(QueuedInstruction::Smash);
    queue.add(QueuedInstruction::Smash);
    assert!(queue.is_long());
}

#[test]
fn waiting_only_without_pending_instructions() {
    let mut queue = InstructionQueue::new();
    queue.start_waiting();
    assert!(queue.is_waiting());
    queue.add(QueuedInstruction::Sleep);
    assert!(!queue.is_waiting());
    queue.start_waiting();
    assert!(!queue.is_waiting());
    queue.stop_waiting();
    assert!(!queue.is_waiting());
}

#[test]
fn interruption_is_queued() {
    let mut queue = InstructionQueue::new();
    queue.add(QueuedInstruction::ChangePace(ChangePace::Next));
    queue.interrupt(Interruption::Danger);
    assert_eq!(queue.pop(), Some(QueuedInstruction::ChangePace(ChangePace::Next)));
    assert_eq!(queue.pop(), Some(QueuedInstruction::Interrupt(Interruption::Danger)));
}

#[test]
fn base_queue_held_key_is_dropped_while_pending() {
    let mut queue = base_instruction_queue::InstructionQueue::new();
    let step = QueuedInstruction::Offset(PlayerDirection::Left);
    queue.add(step, InputChange::JustPressed);
    queue.add(step, InputChange::Held);
    assert_eq!(queue.pop(), Some(step));
    assert_eq!(queue.pop(), None);
    queue.add_interruption();
    queue.add_finish();
    assert_eq!(queue.pop(), Some(QueuedInstruction::Interrupt(Interruption::Danger)));
    assert_eq!(queue.pop(), Some(QueuedInstruction::Interrupt(Interruption::Finished)));
}

#[test]
fn timestamps_add_and_subtract() {
    let t = Timestamp { ms: 1_000 };
    let later = t.plus(Milliseconds { ms: 500 });
    assert_eq!(later, Timestamp { ms: 1_500 });
    assert_eq!(later.minus(t), Milliseconds { ms: 500 });
    assert!(t.at_or_before(later));
    assert!(!later.at_or_before(t));
}

#[test]
fn timeouts_start_new_entities_at_the_current_time() {
    let mut timeouts = Timeouts::new(Timestamp { ms: 100 });
    assert_eq!(timeouts.time(), Timestamp { ms: 100 });
    let a = EntityId { bits: 1 };
    let b = EntityId { bits: 2 };
    assert_eq!(timeouts.next(&[b, a]), Some(a));
    timeouts.add(a, Milliseconds { ms: 50 });
    assert_eq!(timeouts.next(&[a, b]), Some(b));
    timeouts.add(b, Milliseconds { ms: 80 });
    assert_eq!(timeouts.next(&[a, b]), Some(a));
    assert_eq!(timeouts.time(), Timestamp { ms: 150 });
}

#[test]
fn timeouts_forget_gone_entities() {
    let mut timeouts = Timeouts::new(Timestamp { ms: 0 });
    let a = EntityId { bits: 7 };
    let b = EntityId { bits: 3 };
    assert_eq!(timeouts.next(&[a]), Some(a));
    timeouts.add(a, Milliseconds { ms: 1_000 });
    assert_eq!(timeouts.next(&[b]), Some(b));
    assert_eq!(timeouts.time(), Timestamp { ms: 0 });
    assert_eq!(timeouts.next(&[]), None);
}

#[test]
fn dump_direction_is_kept() {
    let mut queue = InstructionQueue::new();
    let dump = QueuedInstruction::Dump(EntityId { bits: 9 }, HorizontalDirection::East);
    queue.add(dump);
    assert_eq!(queue.pop(), Some(dump));
}
