//! Walking the frame pointers of a suspended thread.
//!
//! Code that keeps frame pointers builds a linked list on the stack: the
//! word at the frame pointer is the frame pointer of the caller, and the
//! word after it is the return address. The walker decides which word to
//! read next and when to stop; reading the memory is the caller's.

use vstd::prelude::*;

verus! {

/// A thread of the profiled process and, where it was sampled, its stack.
#[derive(Clone, Debug, PartialEq, Eq)]
pub struct ThreadInfo {
    pub tid: u64,
    pub name: String,
    pub backtrace: Option<Vec<u64>>,
}

/// What the walker waits for.
#[derive(Clone, Copy, Debug, PartialEq, Eq, Structural)]
pub enum Phase {
    /// The word at the frame pointer: the frame pointer of the caller.
    FramePointer,
    /// The word after the frame pointer: the return address. `caller` is
    /// the frame pointer of the caller, which was read before.
    ReturnAddress { caller: u64 },
    /// Nothing: the walk has ended.
    Done,
}

/// A walk as a mathematical value.
pub struct Walk {
    /// The addresses found so far, the innermost frame first.
    pub frames: Seq<u64>,
    pub frame_ptr: u64,
    pub phase: Phase,
}

/// Whether a frame pointer can be followed: it is neither null nor misaligned.
pub open spec fn is_frame_pointer(frame_ptr: u64) -> bool {
    frame_ptr != 0 && frame_ptr % 8 == 0
}

/// The phase of a walk that stands at `frame_ptr`.
pub open spec fn phase_at(frame_ptr: u64) -> Phase {
    if is_frame_pointer(frame_ptr) {
        Phase::FramePointer
    } else {
        Phase::Done
    }
}

impl Walk {
    /// The walk of a thread that runs at `rip` with the frame pointer `rbp`.
    pub open spec fn start(rip: u64, rbp: u64) -> Walk {
        Walk { frames: seq![rip], frame_ptr: rbp, phase: phase_at(rbp) }
    }

    /// The address of the word that the walk needs next.
    pub open spec fn next_read(self) -> Option<u64> {
        match self.phase {
            Phase::FramePointer => Some(self.frame_ptr),
            Phase::ReturnAddress { .. } => Some((self.frame_ptr + 8) as u64),
            Phase::Done => None,
        }
    }

    /// The walk after the word it asked for was read, with the value
    /// `word`, or could not be read.
    pub open spec fn step(self, word: Option<u64>) -> Walk {
        match self.phase {
            Phase::Done => self,
            Phase::FramePointer => match word {
                None => Walk { phase: Phase::Done, ..self },
                Some(caller) => if caller <= self.frame_ptr || self.frame_ptr + 8 > u64::MAX {
                    Walk { phase: Phase::Done, ..self }
                } else {
                    Walk { phase: Phase::ReturnAddress { caller }, ..self }
                },
            },
            Phase::ReturnAddress { caller } => match word {
                None => Walk { phase: Phase::Done, ..self },
                Some(return_address) => Walk {
                    frames: self.frames.push(return_address),
                    frame_ptr: caller,
                    phase: phase_at(caller),
                },
            },
        }
    }

    /// A bound on the number of steps that the walk still takes.
    pub open spec fn steps_left(self) -> int {
        match self.phase {
            Phase::Done => 0,
            Phase::FramePointer => 2 * (u64::MAX - self.frame_ptr) + 2,
            Phase::ReturnAddress { .. } => 2 * (u64::MAX - self.frame_ptr) + 1,
        }
    }

    /// Whether the walk is one that a walker can be in.
    pub open spec fn is_valid(self) -> bool {
        match self.phase {
            Phase::Done => true,
            Phase::FramePointer => is_frame_pointer(self.frame_ptr),
            Phase::ReturnAddress { caller } => caller > self.frame_ptr && self.frame_ptr + 8
                <= u64::MAX,
        }
    }

    /// The return addresses that the walk still finds in the memory
    /// `memory`, which gives the word at each address that can be read.
    pub open spec fn remaining(self, memory: spec_fn(u64) -> Option<u64>) -> Seq<u64> {
        match self.phase {
            Phase::Done => Seq::empty(),
            Phase::FramePointer => frames_above(memory, self.frame_ptr),
            Phase::ReturnAddress { caller } => match memory((self.frame_ptr + 8) as u64) {
                None => Seq::empty(),
                Some(return_address) => seq![return_address] + frames_above(memory, caller),
            },
        }
    }
}

/// The return addresses of the frames from `frame_ptr` outwards, the
/// innermost first. The chain ends at a frame pointer that is null or
/// misaligned, at a word that cannot be read, and at a frame that does not
/// lie above the one before.
pub open spec fn frames_above(memory: spec_fn(u64) -> Option<u64>, frame_ptr: u64) -> Seq<u64>
    decreases u64::MAX - frame_ptr,
{
    if !is_frame_pointer(frame_ptr) {
        Seq::empty()
    } else {
        match memory(frame_ptr) {
            None => Seq::empty(),
            Some(caller) => if caller <= frame_ptr || frame_ptr + 8 > u64::MAX {
                Seq::empty()
            } else {
                match memory((frame_ptr + 8) as u64) {
                    None => Seq::empty(),
                    Some(return_address) => seq![return_address] + frames_above(memory, caller),
                }
            },
        }
    }
}

/// The stack of a thread that runs at `rip` with the frame pointer `rbp`,
/// the outermost frame first.
pub open spec fn backtrace(memory: spec_fn(u64) -> Option<u64>, rip: u64, rbp: u64) -> Seq<u64> {
    (seq![rip] + frames_above(memory, rbp)).reverse()
}

/// A step does not change what the walk finds in the end: the frames found
/// so far and those still to be found stay the same, as long as each word
/// is read from the same memory.
pub proof fn lemma_step_keeps_outcome(walk: Walk, memory: spec_fn(u64) -> Option<u64>)
    requires
        walk.is_valid(),
        walk.next_read() is Some,
    ensures
        walk.step(memory(walk.next_read()->0)).is_valid(),
        walk.step(memory(walk.next_read()->0)).frames + walk.step(
            memory(walk.next_read()->0),
        ).remaining(memory) == walk.frames + walk.remaining(memory),
{
    let next = walk.step(memory(walk.next_read()->0));
    assert(next.frames + next.remaining(memory) =~= walk.frames + walk.remaining(memory));
}

/// Every step brings the end of the walk nearer: a walk asks for at most
/// `steps_left` words.
pub proof fn lemma_step_makes_progress(walk: Walk, word: Option<u64>)
    requires
        walk.is_valid(),
        walk.next_read() is Some,
    ensures
        0 <= walk.step(word).steps_left() < walk.steps_left(),
{
}

/// A walk that has ended has found the whole stack.
pub proof fn lemma_done_walk_is_complete(walk: Walk, memory: spec_fn(u64) -> Option<u64>)
    requires
        walk.next_read() is None,
    ensures
        walk.remaining(memory) == Seq::<u64>::empty(),
{
}

/// The walk of a thread finds its stack: before the first step, the frames
/// found and those still to be found are the program counter and the
/// frames above the frame pointer.
pub proof fn lemma_start_finds_backtrace(memory: spec_fn(u64) -> Option<u64>, rip: u64, rbp: u64)
    ensures
        Walk::start(rip, rbp).is_valid(),
        (Walk::start(rip, rbp).frames + Walk::start(rip, rbp).remaining(memory)).reverse()
            == backtrace(memory, rip, rbp),
{
}

/// A frame-pointer walk of the stack of one thread.
pub struct StackWalker {
    frames: Vec<u64>,
    frame_ptr: u64,
    phase: Phase,
}

impl View for StackWalker {
    type V = Walk;

    closed spec fn view(&self) -> Walk {
        Walk { frames: self.frames@, frame_ptr: self.frame_ptr, phase: self.phase }
    }
}

fn first_phase(frame_ptr: u64) -> (phase: Phase)
    ensures
        phase == phase_at(frame_ptr),
{
    if frame_ptr != 0 && frame_ptr % 8 == 0 {
        Phase::FramePointer
    } else {
        Phase::Done
    }
}

impl StackWalker {
    #[verifier::type_invariant]
    spec fn is_valid(&self) -> bool {
        self@.is_valid()
    }

    /// Starts the walk of a thread that runs at `rip` with the frame
    /// pointer `rbp`.
    pub fn new(rip: u64, rbp: u64) -> (walker: Self)
        ensures
            walker@ == Walk::start(rip, rbp),
            walker@.is_valid(),
    {
        let mut frames: Vec<u64> = Vec::new();
        frames.push(rip);
        assert(frames@ =~= seq![rip]);
        StackWalker { frames, frame_ptr: rbp, phase: first_phase(rbp) }
    }

    /// The address of the word to read next and to hand to `supply`, or
    /// nothing once the walk has ended.
    pub fn next_read(&self) -> (address: Option<u64>)
        ensures
            address == self@.next_read(),
            self@.is_valid(),
    {
        proof {
            use_type_invariant(self);
        }
        match self.phase {
            Phase::FramePointer => Some(self.frame_ptr),
            Phase::ReturnAddress { .. } => Some(self.frame_ptr + 8),
            Phase::Done => None,
        }
    }

    /// Takes the word at the address that `next_read` gave, or `None` where
    /// it could not be read. Does nothing once the walk has ended.
    pub fn supply(&mut self, word: Option<u64>)
        ensures
            final(self)@ == old(self)@.step(word),
            final(self)@.is_valid(),
            old(self)@.next_read() is Some ==> final(self)@.steps_left() < old(
                self,
            )@.steps_left(),
    {
        proof {
            use_type_invariant(&*self);
        }
        match self.phase {
            Phase::Done => {},
            Phase::FramePointer => match word {
                None => {
                    self.phase = Phase::Done;
                },
                Some(caller) => {
                    // The stack grows towards lower addresses: a caller
                    // that does not lie above this frame is no caller.
                    if caller <= self.frame_ptr || self.frame_ptr > u64::MAX - 8 {
                        self.phase = Phase::Done;
                    } else {
                        self.phase = Phase::ReturnAddress { caller };
                    }
                },
            },
            Phase::ReturnAddress { caller } => match word {
                None => {
                    self.phase = Phase::Done;
                },
                Some(return_address) => {
                    let phase = first_phase(caller);
                    let mut frames: Vec<u64> = Vec::new();
                    core::mem::swap(&mut self.frames, &mut frames);
                    frames.push(return_address);
                    *self = StackWalker { frames, frame_ptr: caller, phase };
                },
            },
        }
    }

    /// Whether the walk has ended.
    pub fn is_done(&self) -> (done: bool)
        ensures
            done == (self@.next_read() is None),
    {
        match self.phase {
            Phase::Done => true,
            _ => false,
        }
    }

    /// The addresses found, the outermost frame first.
    pub fn finish(self) -> (frames: Vec<u64>)
        ensures
            frames@ == self@.frames.reverse(),
    {
        let mut reversed: Vec<u64> = Vec::new();
        let mut i: usize = self.frames.len();
        while i > 0
            invariant
                i <= self.frames@.len(),
                reversed@.len() == self.frames@.len() - i,
                forall|k: int|
                    0 <= k < reversed@.len() ==> reversed@[k] == self.frames@[self.frames@.len() - 1
                        - k],
            decreases i,
        {
            i = i - 1;
            reversed.push(self.frames[i]);
        }
        assert(reversed@ =~= self.frames@.reverse());
        reversed
    }
}

} // verus!
