//! Thread control blocks.
use crate::exception::{ExceptionContext, SPSR_EL1_INIT};
use vstd::prelude::*;

verus! {

/// Size of a thread's stack in bytes.
pub const STACK_SIZE: usize = 8192;

/// Alignment of a thread's stack in bytes.
pub const STACK_ALIGN: usize = 4096;

/// A thread control block: its identifier, its saved register frame and the
/// base of its own stack.
pub struct Thread {
    pid: u64,
    context: ExceptionContext,
    stack_base: usize,
}

/// What a thread control block holds.
pub struct ThreadView {
    pub pid: u64,
    pub context: ExceptionContext,
    pub stack_base: usize,
}

impl View for Thread {
    type V = ThreadView;

    closed spec fn view(&self) -> ThreadView {
        ThreadView { pid: self.pid, context: self.context, stack_base: self.stack_base }
    }
}

/// `c` is the frame a new thread starts from: it resumes at `entry_point`
/// with all general purpose registers zero, the top of its stack in sp_el0
/// and the initial program status.
pub open spec fn is_initial_context(c: ExceptionContext, entry_point: u64, stack_base: usize) -> bool {
    &&& forall|i: int| 0 <= i < 30 ==> #[trigger] c.gpr@[i] == 0
    &&& c.lr == entry_point
    &&& c.elr_el1 == entry_point
    &&& c.spsr_el1 == SPSR_EL1_INIT
    &&& c.esr_el1 == 0
    &&& c.sp_el0 == stack_base + STACK_SIZE
    &&& c._res_sp == 0
}

/// A stack base aligned to `STACK_ALIGN` for which the top of the stack is
/// an address.
pub open spec fn valid_stack_base(stack_base: usize) -> bool {
    &&& stack_base % STACK_ALIGN == 0
    &&& stack_base + STACK_SIZE <= u64::MAX
}

impl Thread {
    /// Builds the control block of a thread `pid` that starts at
    /// `entry_point` on the stack whose base is `stack_base`.
    pub fn new(pid: u64, entry_point: u64, stack_base: usize) -> (r: Thread)
        requires
            valid_stack_base(stack_base),
        ensures
            r@.pid == pid,
            is_initial_context(r@.context, entry_point, stack_base),
            r@.stack_base == stack_base,
    {
        Thread {
            pid,
            context: Self::make_context(entry_point, stack_base),
            stack_base: stack_base,
        }
    }

    fn make_context(entry_point: u64, stack_base: usize) -> (r: ExceptionContext)
        requires
            valid_stack_base(stack_base),
        ensures
            is_initial_context(r, entry_point, stack_base),
    {
        let sp_value: u64 = stack_base as u64 + STACK_SIZE as u64;
        ExceptionContext {
            gpr: [0u64; 30],
            lr: entry_point,
            elr_el1: entry_point,
            spsr_el1: SPSR_EL1_INIT,
            esr_el1: 0,
            sp_el0: sp_value,
            _res_sp: 0,
        }
    }

    pub fn get_pid(&self) -> (r: u64)
        ensures
            r == self@.pid,
    {
        self.pid
    }

    /// The base of the thread's stack, which is released with the thread.
    pub fn stack_base(&self) -> (r: usize)
        ensures
            r == self@.stack_base,
    {
        self.stack_base
    }

    /// The thread's saved register frame.
    pub fn get_ex_context(&mut self) -> (r: &mut ExceptionContext)
        ensures
            *r == old(self)@.context,
            final(self)@ == (ThreadView { context: *final(r), ..old(self)@ }),
    {
        &mut self.context
    }

    /// Reads the thread's saved register frame.
    pub fn ex_context(&self) -> (r: &ExceptionContext)
        ensures
            *r == self@.context,
    {
        &self.context
    }
}

/// Upper bound of the rounds a worker thread runs before it sleeps.
pub const MAX_WORKER_ROUNDS: u64 = 20;

/// The round count after which a worker thread sleeps, for the number `r`.
pub open spec fn worker_limit(r: u64) -> u64 {
    (r % MAX_WORKER_ROUNDS + 1) as u64
}

/// The decisions of a worker thread: it counts its rounds and goes to
/// sleep once it has run more rounds than a limit drawn when it started.
pub struct Worker {
    pub rounds: u64,
    pub stop_after: u64,
}

impl Worker {
    /// A worker that has run no round, with the limit drawn from `r`.
    pub fn new(r: u64) -> (w: Worker)
        ensures
            w.rounds == 0,
            w.stop_after == worker_limit(r),
            1 <= w.stop_after <= MAX_WORKER_ROUNDS,
    {
        Worker { rounds: 0, stop_after: r % MAX_WORKER_ROUNDS + 1 }
    }

    /// Counts a round; tells whether the worker must now go to sleep
    /// before it gives up the core.
    pub fn round(&mut self) -> (sleep: bool)
        ensures
            final(self).stop_after == old(self).stop_after,
            final(self).rounds == if old(self).rounds < u64::MAX {
                old(self).rounds + 1
            } else {
                u64::MAX as int
            },
            sleep == (final(self).rounds > final(self).stop_after),
    {
        if self.rounds < u64::MAX {
            self.rounds = self.rounds + 1;
        }
        self.rounds > self.stop_after
    }
}

} // verus!
