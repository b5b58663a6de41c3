use vstd::prelude::*;
use crate::instruction::{Interruption, QueuedInstruction};

verus! {

/// Instructions of the player that wait to be processed, oldest last, and
/// whether the game waits for the player to give one.
#[derive(Debug)]
pub struct InstructionQueue {
    queue: Vec<QueuedInstruction>,
    waiting_for_user: bool,
}

/// The queue after adding `instruction`: it goes in front, unless it may
/// repeat while its key is held and it is already waiting in the queue.
pub open spec fn queue_after_add(queue: Seq<QueuedInstruction>, instruction: QueuedInstruction) -> Seq<QueuedInstruction> {
    if !instruction.spec_held_key_allowed() || !queue.contains(instruction) {
        seq![instruction] + queue
    } else {
        queue
    }
}

fn vec_contains(v: &Vec<QueuedInstruction>, x: &QueuedInstruction) -> (res: bool)
    ensures
        res == v@.contains(*x),
{
    let mut i: usize = 0;
    while i < v.len()
        invariant
            i <= v.len(),
            forall|j: int| 0 <= j < i ==> v@[j] != *x,
        decreases v.len() - i,
    {
        if v[i] == *x {
            return true;
        }
        i += 1;
    }
    false
}

impl InstructionQueue {
    /// The waiting instructions; the last one is processed first.
    pub closed spec fn pending(&self) -> Seq<QueuedInstruction> {
        self.queue@
    }

    pub closed spec fn waiting(&self) -> bool {
        self.waiting_for_user
    }

    /// The game only waits for the player when no instruction is pending.
    pub open spec fn wf(&self) -> bool {
        self.waiting() ==> self.pending().len() == 0
    }

    /// An empty queue that does not wait.
    pub fn new() -> (res: InstructionQueue)
        ensures
            res.pending() == Seq::<QueuedInstruction>::empty(),
            !res.waiting(),
            res.wf(),
    {
        InstructionQueue { queue: Vec::new(), waiting_for_user: false }
    }

    /// Queues an instruction. While a key is held down, a movement is not
    /// added again until the earlier one has been processed.
    pub fn add(&mut self, instruction: QueuedInstruction)
        ensures
            final(self).pending() == queue_after_add(old(self).pending(), instruction),
            !final(self).waiting(),
            final(self).wf(),
    {
        if !instruction.held_key_allowed() || !vec_contains(&self.queue, &instruction) {
            self.queue.insert(0, instruction);
        }
        self.waiting_for_user = false;
    }

    /// Queues an interruption of the current activity.
    pub fn interrupt(&mut self, interruption: Interruption)
        ensures
            final(self).pending() == seq![QueuedInstruction::Interrupt(interruption)] + old(self).pending(),
            !final(self).waiting(),
            final(self).wf(),
    {
        self.add(QueuedInstruction::Interrupt(interruption));
    }

    /// Takes the oldest pending instruction.
    pub fn pop(&mut self) -> (res: Option<QueuedInstruction>)
        ensures
            old(self).pending().len() == 0 ==> res is None && final(self).pending() == old(self).pending(),
            old(self).pending().len() > 0 ==> res == Some(old(self).pending().last())
                && final(self).pending() == old(self).pending().drop_last(),
            final(self).waiting() == old(self).waiting(),
            old(self).wf() ==> final(self).wf(),
    {
        self.queue.pop()
    }

    /// More than one instruction is pending, which is worth a warning.
    pub fn is_long(&self) -> (res: bool)
        ensures
            res == (1 < self.pending().len()),
    {
        1 < self.queue.len()
    }

    /// Starts waiting for the player, unless an instruction is pending.
    pub fn start_waiting(&mut self)
        requires
            old(self).pending().len() == 0 ==> !old(self).waiting(),
        ensures
            final(self).pending() == old(self).pending(),
            final(self).waiting() == (old(self).pending().len() == 0 || old(self).waiting()),
            old(self).wf() ==> final(self).wf(),
    {
        if self.queue.is_empty() {
            self.waiting_for_user = true;
        }
    }

    /// Stops waiting for the player.
    pub fn stop_waiting(&mut self)
        ensures
            final(self).pending() == old(self).pending(),
            !final(self).waiting(),
            final(self).wf(),
    {
        self.waiting_for_user = false;
    }

    /// Whether the game waits for the player.
    pub fn is_waiting(&self) -> (res: bool)
        ensures
            res == self.waiting(),
    {
        self.waiting_for_user
    }
}


/// Law: instructions are processed in the order in which they were given. A
/// new instruction is processed after every instruction that was pending.
pub proof fn law_add_keeps_order(pending: Seq<QueuedInstruction>, instruction: QueuedInstruction)
    requires
        pending.len() > 0,
    ensures
        queue_after_add(pending, instruction).last() == pending.last(),
        queue_after_add(pending, instruction).drop_last() == queue_after_add(pending.drop_last(), instruction)
            || queue_after_add(pending, instruction) == pending,
{
    if !instruction.spec_held_key_allowed() || !pending.contains(instruction) {
        let added = seq![instruction] + pending;
        assert(added.drop_last() =~= seq![instruction] + pending.drop_last());
        if instruction.spec_held_key_allowed() {
            assert forall|i: int| 0 <= i < pending.drop_last().len() implies pending.drop_last()[i] != instruction by {
                assert(pending[i] == pending.drop_last()[i]);
            }
        }
    }
}

/// Law: an instruction given to an empty queue is the next one processed.
pub proof fn law_added_is_next_when_empty(instruction: QueuedInstruction)
    ensures
        queue_after_add(Seq::empty(), instruction) == seq![instruction],
{
    assert(seq![instruction] + Seq::<QueuedInstruction>::empty() =~= seq![instruction]);
}

/// Law: holding a movement key does not queue the movement again while it is
/// still pending; any other instruction is always queued.
pub proof fn law_held_movement_not_repeated(pending: Seq<QueuedInstruction>, instruction: QueuedInstruction)
    ensures
        instruction.spec_held_key_allowed() && pending.contains(instruction) ==> queue_after_add(pending, instruction) == pending,
        !instruction.spec_held_key_allowed() ==> queue_after_add(pending, instruction) == seq![instruction] + pending,
        queue_after_add(pending, instruction).contains(instruction),
{
    if !instruction.spec_held_key_allowed() || !pending.contains(instruction) {
        assert((seq![instruction] + pending)[0] == instruction);
    }
}

} // verus!
