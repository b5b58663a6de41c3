use vstd::prelude::*;
use crate::instruction::{InputChange, Interruption, QueuedInstruction};

verus! {

/// Instructions of the player on the base screen, oldest last, and whether
/// the game waits for the player to give one.
#[derive(Debug)]
pub struct InstructionQueue {
    queue: Vec<QueuedInstruction>,
    waiting_for_user: bool,
}

/// The queue after adding `instruction`: it goes in front, unless its key is
/// held down and the same instruction is still waiting.
pub open spec fn queue_after_input(
    queue: Seq<QueuedInstruction>,
    instruction: QueuedInstruction,
    change: InputChange,
) -> Seq<QueuedInstruction> {
    if change == InputChange::JustPressed || !queue.contains(instruction) {
        seq![instruction] + queue
    } else {
        queue
    }
}

fn vec_contains(v: &Vec<QueuedInstruction>, x: &QueuedInstruction) -> (res: bool)
    ensures
        res == v@.contains(*x),
{
    let mut i: usize = 0;
    while i < v.len()
        invariant
            i <= v.len(),
            forall|j: int| 0 <= j < i ==> v@[j] != *x,
        decreases v.len() - i,
    {
        if v[i] == *x {
            return true;
        }
        i += 1;
    }
    false
}

impl InstructionQueue {
    /// The waiting instructions; the last one is processed first.
    pub closed spec fn pending(&self) -> Seq<QueuedInstruction> {
        self.queue@
    }

    pub closed spec fn waiting(&self) -> bool {
        self.waiting_for_user
    }

    /// The game only waits for the player when no instruction is pending:
    /// every operation keeps this, for every queue.
    #[verifier::type_invariant]
    closed spec fn wf(&self) -> bool {
        self.waiting() ==> self.pending().len() == 0
    }

    /// An empty queue that does not wait.
    pub fn new() -> (res: InstructionQueue)
        ensures
            res.pending() == Seq::<QueuedInstruction>::empty(),
            !res.waiting(),
    {
        InstructionQueue { queue: Vec::new(), waiting_for_user: false }
    }

    /// Queues an instruction; a held key does not add it again while it waits.
    pub fn add(&mut self, instruction: QueuedInstruction, change: InputChange)
        ensures
            final(self).pending() == queue_after_input(old(self).pending(), instruction, change),
            !final(self).waiting(),
    {
        self.waiting_for_user = false;
        if change == InputChange::JustPressed || !vec_contains(&self.queue, &instruction) {
            let mut queue = Vec::new();
            std::mem::swap(&mut queue, &mut self.queue);
            queue.insert(0, instruction);
            self.queue = queue;
        }
    }

    /// Queues an interruption by danger.
    pub fn add_interruption(&mut self)
        ensures
            final(self).pending() == seq![QueuedInstruction::Interrupt(Interruption::Danger)] + old(self).pending(),
            !final(self).waiting(),
    {
        self.add(QueuedInstruction::Interrupt(Interruption::Danger), InputChange::JustPressed);
    }

    /// Queues the end of the current activity.
    pub fn add_finish(&mut self)
        ensures
            final(self).pending() == seq![QueuedInstruction::Interrupt(Interruption::Finished)] + old(self).pending(),
            !final(self).waiting(),
    {
        self.add(QueuedInstruction::Interrupt(Interruption::Finished), InputChange::JustPressed);
    }

    /// Takes the oldest pending instruction.
    pub fn pop(&mut self) -> (res: Option<QueuedInstruction>)
        ensures
            old(self).pending().len() == 0 ==> res is None && final(self).pending() == old(self).pending(),
            old(self).pending().len() > 0 ==> res == Some(old(self).pending().last())
                && final(self).pending() == old(self).pending().drop_last(),
            final(self).waiting() == old(self).waiting(),
    {
        proof {
            use_type_invariant(&*self);
        }
        let mut queue = Vec::new();
        std::mem::swap(&mut queue, &mut self.queue);
        let res = queue.pop();
        self.queue = queue;
        res
    }

    /// More than one instruction is pending, which is worth a warning.
    pub fn is_long(&self) -> (res: bool)
        ensures
            res == (1 < self.pending().len()),
    {
        1 < self.queue.len()
    }

    /// Starts waiting for the player; nothing may be pending.
    pub fn start_waiting(&mut self)
        requires
            old(self).pending().len() == 0,
            !old(self).waiting(),
        ensures
            final(self).pending() == old(self).pending(),
            final(self).waiting(),
    {
        self.waiting_for_user = true;
    }

    /// Stops waiting for the player.
    pub fn stop_waiting(&mut self)
        ensures
            final(self).pending() == old(self).pending(),
            !final(self).waiting(),
    {
        self.waiting_for_user = false;
    }

    /// Whether the game waits for the player. Law: whatever operations made
    /// the queue, it waits only while no instruction is pending.
    pub fn is_waiting(&self) -> (res: bool)
        ensures
            res == self.waiting(),
            res ==> self.pending().len() == 0,
    {
        proof {
            use_type_invariant(self);
        }
        self.waiting_for_user
    }
}

} // verus!
