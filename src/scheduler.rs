//! Run queues, the sleep queue and the scheduling decisions taken on a
//! timer tick, on a cross-core kick and when a thread yields or sleeps.
use crate::exception::{spsr_for_switch, store_context, stored, ExceptionContext};
use crate::random::next_u64;
use crate::thread::{Thread, ThreadView};
use vstd::prelude::*;

verus! {

/// A thread with identifier `pid` is in `q`.
pub open spec fn has_pid(q: Seq<ThreadView>, pid: u64) -> bool {
    exists|i: int| 0 <= i < q.len() && #[trigger] q[i].pid == pid
}

/// No identifier occurs twice in `q`.
pub open spec fn unique_pids(q: Seq<ThreadView>) -> bool {
    forall|i: int, j: int|
        0 <= i < q.len() && 0 <= j < q.len() && #[trigger] q[i].pid == #[trigger] q[j].pid ==> i == j
}

/// The identifiers of the threads in `q`, in queue order.
pub open spec fn pids_of(q: Seq<ThreadView>) -> Seq<u64> {
    q.map_values(|t: ThreadView| t.pid)
}

/// The index `select` picks in a queue of `len` threads for the number `r`.
pub open spec fn selected_index(r: u64, len: nat) -> int {
    ((r as usize) as nat % len) as int
}

/// An ordered collection of threads; new threads join at the tail.
pub struct ThreadQueue {
    threads: Vec<Thread>,
}

impl View for ThreadQueue {
    type V = Seq<ThreadView>;

    closed spec fn view(&self) -> Seq<ThreadView> {
        self.threads@.map_values(|t: Thread| t@)
    }
}

impl ThreadQueue {
    /// An empty queue.
    pub fn new() -> (r: ThreadQueue)
        ensures
            r@ == Seq::<ThreadView>::empty(),
    {
        let r = ThreadQueue { threads: Vec::new() };
        assert(r@ =~= Seq::<ThreadView>::empty());
        r
    }

    /// Number of threads in the queue.
    pub fn len(&self) -> (r: usize)
        ensures
            r == self@.len(),
    {
        self.threads.len()
    }

    /// Appends `t` at the tail.
    pub fn add(&mut self, t: Thread)
        ensures
            final(self)@ == old(self)@.push(t@),
    {
        self.threads.push(t);
        assert(self@ =~= old(self)@.push(t@));
    }

    /// Removes the thread at the head.
    pub fn pop(&mut self) -> (r: Thread)
        requires
            old(self)@.len() > 0,
        ensures
            r@ == old(self)@[0],
            final(self)@ == old(self)@.drop_first(),
    {
        let r = self.threads.remove(0);
        assert(self@ =~= old(self)@.drop_first());
        r
    }

    /// Removes the last thread whose identifier is `pid`, if there is one.
    pub fn remove(&mut self, pid: u64) -> (r: Option<Thread>)
        ensures
            r is None <==> !has_pid(old(self)@, pid),
            r is None ==> final(self)@ == old(self)@,
            r matches Some(t) ==> exists|k: int|
                0 <= k < old(self)@.len() && old(self)@[k].pid == pid
                    && (forall|j: int| k < j < old(self)@.len() ==> old(self)@[j].pid != pid)
                    && t@ == old(self)@[k] && final(self)@ == old(self)@.remove(k),
    {
        let mut pos: Option<usize> = None;
        let mut i: usize = 0;
        while i < self.threads.len()
            invariant
                i <= self@.len(),
                self@ == old(self)@,
                pos matches Some(k) ==> k < i && self@[k as int].pid == pid
                    && forall|j: int| k < j < i ==> self@[j].pid != pid,
                pos is None ==> forall|j: int| 0 <= j < i ==> self@[j].pid != pid,
            decreases self@.len() - i,
        {
            if self.threads[i].get_pid() == pid {
                pos = Some(i);
            }
            i += 1;
        }
        match pos {
            Some(k) => {
                let t = self.threads.remove(k);
                assert(self@ =~= old(self)@.remove(k as int));
                Some(t)
            },
            None => None,
        }
    }

    /// The index of the first thread whose identifier is `pid`.
    pub fn get_by_pid(&self, pid: u64) -> (r: Option<usize>)
        ensures
            r is None <==> !has_pid(self@, pid),
            r matches Some(k) ==> k < self@.len() && self@[k as int].pid == pid
                && forall|j: int| 0 <= j < k ==> self@[j].pid != pid,
    {
        let mut i: usize = 0;
        while i < self.threads.len()
            invariant
                i <= self@.len(),
                forall|j: int| 0 <= j < i ==> self@[j].pid != pid,
            decreases self@.len() - i,
        {
            if self.threads[i].get_pid() == pid {
                assert(self@[i as int].pid == pid);
                return Some(i);
            }
            i += 1;
        }
        None
    }

    /// The thread at `i`.
    pub fn get(&self, i: usize) -> (r: &Thread)
        requires
            i < self@.len(),
        ensures
            r@ == self@[i as int],
    {
        &self.threads[i]
    }

    /// The index of the thread picked for the number `r`: `r` modulo the
    /// length, or `None` when the queue is empty.
    pub fn select(&self, r: u64) -> (i: Option<usize>)
        ensures
            self@.len() == 0 ==> i is None,
            self@.len() > 0 ==> i == Some(selected_index(r, self@.len()) as usize),
    {
        let len = self.threads.len();
        if len == 0 {
            None
        } else {
            Some((r as usize) % len)
        }
    }

    /// The index of a thread picked pseudo-randomly by a generator seeded
    /// with `seed`, or `None` when the queue is empty.
    pub fn next(&self, seed: u64) -> (i: Option<usize>)
        ensures
            i is None <==> self@.len() == 0,
            i matches Some(k) ==> k < self@.len(),
            self@.len() == 1 ==> i == Some(0usize),
    {
        self.select(next_u64(seed))
    }

    /// Saves the switched registers of `f` into the thread at `i`.
    fn save_frame(&mut self, i: usize, f: &ExceptionContext)
        requires
            i < old(self)@.len(),
        ensures
            final(self)@ == old(self)@.update(
                i as int,
                ThreadView { context: stored(*f, old(self)@[i as int].context), ..old(self)@[i as int] },
            ),
    {
        store_context(f, self.threads[i].get_ex_context());
        assert(self@ =~= old(self)@.update(
            i as int,
            ThreadView { context: stored(*f, old(self)@[i as int].context), ..old(self)@[i as int] },
        ));
    }

    /// Gives the thread at `i` the program status it keeps when it gives up
    /// the core by its own call.
    fn mark_yield(&mut self, i: usize, irq_masked: bool)
        requires
            i < old(self)@.len(),
        ensures
            final(self)@ == old(self)@.update(i as int, with_switch_status(old(self)@[i as int], irq_masked)),
    {
        let ctx = self.threads[i].get_ex_context();
        ctx.spsr_el1 = spsr_for_switch(ctx.spsr_el1, irq_masked);
        assert(self@ =~= old(self)@.update(i as int, with_switch_status(old(self)@[i as int], irq_masked)));
    }

    /// The saved frame of the thread at `i`.
    pub fn frame_at_mut(&mut self, i: usize) -> (r: &mut ExceptionContext)
        requires
            i < old(self)@.len(),
        ensures
            *r == old(self)@[i as int].context,
            final(self)@ == old(self)@.update(i as int, ThreadView { context: *final(r), ..old(self)@[i as int] }),
    {
        let r = self.threads[i].get_ex_context();
        proof {
            assert(after_borrow(*self)@ =~= old(self)@.update(i as int, ThreadView { context: *final(r), ..old(self)@[i as int] }));
        }
        r
    }

    /// The identifiers of the threads, in queue order.
    pub fn pids(&self) -> (r: Vec<u64>)
        ensures
            r@ == pids_of(self@),
    {
        let mut r: Vec<u64> = Vec::new();
        let mut i: usize = 0;
        while i < self.threads.len()
            invariant
                i <= self@.len(),
                r@ == pids_of(self@).take(i as int),
            decreases self@.len() - i,
        {
            r.push(self.threads[i].get_pid());
            i += 1;
            assert(r@ =~= pids_of(self@).take(i as int));
        }
        assert(r@ =~= pids_of(self@));
        r
    }
}


/// Number of cores; each has its own run queue.
pub const NUM_CORES: usize = 4;

/// `a` and `b` hold the same identifiers at the same places.
pub open spec fn same_pids(a: Seq<ThreadView>, b: Seq<ThreadView>) -> bool {
    &&& a.len() == b.len()
    &&& forall|i: int| 0 <= i < a.len() ==> #[trigger] a[i].pid == b[i].pid
}

/// `q` after the switched registers of frame `f` were saved into the
/// thread `pid`.
pub open spec fn saved_into(q: Seq<ThreadView>, pid: u64, f: ExceptionContext) -> Seq<ThreadView> {
    q.map_values(
        |t: ThreadView|
            if t.pid == pid {
                ThreadView { context: stored(f, t.context), ..t }
            } else {
                t
            },
    )
}

/// `t` with the program status it keeps when it gives up the core by its
/// own call.
pub open spec fn with_switch_status(t: ThreadView, irq_masked: bool) -> ThreadView {
    ThreadView {
        context: ExceptionContext {
            spsr_el1: crate::exception::switch_spsr(t.context.spsr_el1, irq_masked),
            ..t.context
        },
        ..t
    }
}

/// `q` after the thread `pid` gave up the core by its own call.
pub open spec fn yielded_in(q: Seq<ThreadView>, pid: u64, irq_masked: bool) -> Seq<ThreadView> {
    q.map_values(|t: ThreadView| if t.pid == pid { with_switch_status(t, irq_masked) } else { t })
}

/// `q` with the saved frame of the thread `pid` replaced by `c`.
pub open spec fn with_frame(q: Seq<ThreadView>, pid: u64, c: ExceptionContext) -> Seq<ThreadView> {
    q.map_values(|t: ThreadView| if t.pid == pid { ThreadView { context: c, ..t } } else { t })
}

/// The scheduling state of the whole machine.
pub struct SchedulerView {
    /// The run queue of each core.
    pub running: Seq<Seq<ThreadView>>,
    /// The threads that sleep.
    pub sleeping: Seq<ThreadView>,
    /// The identifier of the thread each core runs, once it runs one.
    pub current: Seq<Option<u64>>,
    /// The identifier the next new thread gets.
    pub next_pid: u64,
}

/// `q` names one of the queues: a core's run queue, or the sleep queue
/// (`q == NUM_CORES`).
pub open spec fn is_queue(q: int) -> bool {
    0 <= q <= NUM_CORES
}

impl SchedulerView {
    /// The run queue of core `q` for `q < NUM_CORES`, else the sleep queue.
    pub open spec fn queue(self, q: int) -> Seq<ThreadView> {
        if q < NUM_CORES {
            self.running[q]
        } else {
            self.sleeping
        }
    }

    /// This state with the saved frame of the thread `pid` in queue `q`
    /// replaced by `c`.
    pub open spec fn with_frame_in(self, q: int, pid: u64, c: ExceptionContext) -> SchedulerView {
        if q < NUM_CORES {
            SchedulerView { running: self.running.update(q, with_frame(self.running[q], pid, c)), ..self }
        } else {
            SchedulerView { sleeping: with_frame(self.sleeping, pid, c), ..self }
        }
    }

    /// Some queue holds the thread `pid`.
    pub open spec fn alive(self, pid: u64) -> bool {
        exists|q: int| is_queue(q) && #[trigger] has_pid(self.queue(q), pid)
    }

    /// Every queue holds each of its threads once and no two queues share a
    /// thread; each core that runs a thread keeps it in its run queue; every
    /// identifier in use is below the next one to be handed out.
    pub open spec fn wf(self) -> bool {
        &&& self.running.len() == NUM_CORES
        &&& self.current.len() == NUM_CORES
        &&& forall|q: int| is_queue(q) ==> unique_pids(#[trigger] self.queue(q))
        &&& forall|q1: int, q2: int, pid: u64|
            is_queue(q1) && is_queue(q2) && q1 != q2 && #[trigger] has_pid(self.queue(q1), pid)
                ==> !#[trigger] has_pid(self.queue(q2), pid)
        &&& forall|c: int|
            0 <= c < NUM_CORES && (#[trigger] self.current[c]) is Some
                ==> has_pid(self.running[c], self.current[c]->0)
        &&& forall|q: int, pid: u64| is_queue(q) && #[trigger] has_pid(self.queue(q), pid) ==> pid < self.next_pid
    }
}

proof fn lemma_same_pids(a: Seq<ThreadView>, b: Seq<ThreadView>)
    requires
        same_pids(a, b),
    ensures
        forall|pid: u64| has_pid(a, pid) == has_pid(b, pid),
        unique_pids(a) == unique_pids(b),
{
    assert forall|pid: u64| has_pid(a, pid) implies has_pid(b, pid) by {
        let i = choose|i: int| 0 <= i < a.len() && #[trigger] a[i].pid == pid;
        assert(b[i].pid == pid);
    }
    assert forall|pid: u64| has_pid(b, pid) implies has_pid(a, pid) by {
        let i = choose|i: int| 0 <= i < b.len() && #[trigger] b[i].pid == pid;
        assert(a[i].pid == pid);
    }
    if unique_pids(a) {
        assert forall|i: int, j: int|
            0 <= i < b.len() && 0 <= j < b.len() && #[trigger] b[i].pid == #[trigger] b[j].pid implies i == j by {
            assert(a[i].pid == a[j].pid);
        }
    }
    if unique_pids(b) {
        assert forall|i: int, j: int|
            0 <= i < a.len() && 0 <= j < a.len() && #[trigger] a[i].pid == #[trigger] a[j].pid implies i == j by {
            assert(b[i].pid == b[j].pid);
        }
    }
}

proof fn lemma_push(q: Seq<ThreadView>, t: ThreadView)
    ensures
        forall|pid: u64| has_pid(q.push(t), pid) <==> (has_pid(q, pid) || t.pid == pid),
        unique_pids(q) && !has_pid(q, t.pid) ==> unique_pids(q.push(t)),
{
    let p = q.push(t);
    assert forall|pid: u64| has_pid(p, pid) implies (has_pid(q, pid) || t.pid == pid) by {
        let i = choose|i: int| 0 <= i < p.len() && #[trigger] p[i].pid == pid;
        if i < q.len() {
            assert(q[i].pid == pid);
        }
    }
    assert forall|pid: u64| (has_pid(q, pid) || t.pid == pid) implies has_pid(p, pid) by {
        if has_pid(q, pid) {
            let i = choose|i: int| 0 <= i < q.len() && #[trigger] q[i].pid == pid;
            assert(p[i].pid == pid);
        } else {
            assert(p[q.len() as int].pid == pid);
        }
    }
    if unique_pids(q) && !has_pid(q, t.pid) {
        assert forall|i: int, j: int|
            0 <= i < p.len() && 0 <= j < p.len() && #[trigger] p[i].pid == #[trigger] p[j].pid implies i == j by {
            if i < q.len() && j < q.len() {
                assert(q[i].pid == q[j].pid);
            } else if i < q.len() {
                assert(q[i].pid == t.pid);
            } else if j < q.len() {
                assert(q[j].pid == t.pid);
            }
        }
    }
}

proof fn lemma_remove(q: Seq<ThreadView>, k: int)
    requires
        unique_pids(q),
        0 <= k < q.len(),
    ensures
        forall|pid: u64| has_pid(q.remove(k), pid) <==> (has_pid(q, pid) && pid != q[k].pid),
        unique_pids(q.remove(k)),
{
    let r = q.remove(k);
    assert forall|pid: u64| has_pid(r, pid) implies (has_pid(q, pid) && pid != q[k].pid) by {
        let i = choose|i: int| 0 <= i < r.len() && #[trigger] r[i].pid == pid;
        if i < k {
            assert(q[i].pid == pid);
        } else {
            assert(q[i + 1].pid == pid);
        }
    }
    assert forall|pid: u64| (has_pid(q, pid) && pid != q[k].pid) implies has_pid(r, pid) by {
        let i = choose|i: int| 0 <= i < q.len() && #[trigger] q[i].pid == pid;
        if i < k {
            assert(r[i].pid == pid);
        } else {
            assert(i != k);
            assert(r[i - 1].pid == pid);
        }
    }
    assert forall|i: int, j: int|
        0 <= i < r.len() && 0 <= j < r.len() && #[trigger] r[i].pid == #[trigger] r[j].pid implies i == j by {
        let qi = if i < k { i } else { i + 1 };
        let qj = if j < k { j } else { j + 1 };
        assert(q[qi].pid == q[qj].pid);
    }
}

/// A map over `q` that keeps identifiers and changes only the thread `pid`
/// is `q` with that one thread changed.
proof fn lemma_single_change(q: Seq<ThreadView>, m: Seq<ThreadView>, i: int, pid: u64, t: ThreadView)
    requires
        unique_pids(q),
        0 <= i < q.len(),
        q[i].pid == pid,
        m.len() == q.len(),
        m[i] == t,
        forall|j: int| 0 <= j < q.len() && q[j].pid != pid ==> #[trigger] m[j] == q[j],
    ensures
        m == q.update(i, t),
{
    assert forall|j: int| 0 <= j < q.len() && j != i implies #[trigger] m[j] == q.update(i, t)[j] by {
        assert(q[j].pid != pid);
    }
    assert(m =~= q.update(i, t));
}

/// Replacing the run queue of `core` by one with the same identifiers, and
/// letting the core run one of them, keeps a state well formed.
proof fn lemma_wf_switch(old_v: SchedulerView, new_v: SchedulerView, core: int, nq: Seq<ThreadView>, np: u64)
    requires
        old_v.wf(),
        0 <= core < NUM_CORES,
        same_pids(old_v.running[core], nq),
        has_pid(nq, np),
        new_v.running == old_v.running.update(core, nq),
        new_v.sleeping == old_v.sleeping,
        new_v.current == old_v.current.update(core, Some(np)),
        new_v.next_pid == old_v.next_pid,
    ensures
        new_v.wf(),
{
    lemma_same_pids(old_v.running[core], nq);
    assert(old_v.queue(core) == old_v.running[core]);
    assert(new_v.queue(core) == nq);
    assert forall|q: int| is_queue(q) implies unique_pids(#[trigger] new_v.queue(q)) by {
        if q != core {
            assert(new_v.queue(q) == old_v.queue(q));
        }
    }
    assert forall|q1: int, q2: int, p: u64|
        is_queue(q1) && is_queue(q2) && q1 != q2 && #[trigger] has_pid(new_v.queue(q1), p)
        implies !#[trigger] has_pid(new_v.queue(q2), p) by {
        if q1 != core {
            assert(new_v.queue(q1) == old_v.queue(q1));
        }
        if q2 != core {
            assert(new_v.queue(q2) == old_v.queue(q2));
        }
        assert(has_pid(old_v.queue(q1), p));
    }
    assert forall|q: int, p: u64| is_queue(q) && #[trigger] has_pid(new_v.queue(q), p) implies p < new_v.next_pid by {
        if q != core {
            assert(new_v.queue(q) == old_v.queue(q));
        }
        assert(has_pid(old_v.queue(q), p));
    }
    assert forall|c: int| 0 <= c < NUM_CORES && (#[trigger] new_v.current[c]) is Some
        implies has_pid(new_v.running[c], new_v.current[c]->0) by {
        if c != core {
            assert(old_v.current[c] is Some);
            assert(new_v.running[c] == old_v.running[c]);
        }
    }
}

/// Moving the thread at `k` of the run queue of `core` to the tail of the
/// sleep queue, and letting the core run a thread left in its run queue,
/// keeps a state well formed.
proof fn lemma_wf_sleep(old_v: SchedulerView, new_v: SchedulerView, core: int, k: int, t: ThreadView, np: u64)
    requires
        old_v.wf(),
        0 <= core < NUM_CORES,
        0 <= k < old_v.running[core].len(),
        t.pid == old_v.running[core][k].pid,
        new_v.running == old_v.running.update(core, old_v.running[core].remove(k)),
        new_v.sleeping == old_v.sleeping.push(t),
        new_v.current == old_v.current.update(core, Some(np)),
        has_pid(new_v.running[core], np),
        new_v.next_pid == old_v.next_pid,
    ensures
        new_v.wf(),
{
    let oq = old_v.running[core];
    let pid = t.pid;
    assert(old_v.queue(core) == oq);
    assert(unique_pids(oq));
    lemma_remove(oq, k);
    lemma_push(old_v.sleeping, t);
    assert(old_v.queue(NUM_CORES as int) == old_v.sleeping);
    assert(new_v.queue(NUM_CORES as int) == new_v.sleeping);
    assert(has_pid(oq, pid)) by {
        assert(oq[k].pid == pid);
    }
    assert(!has_pid(old_v.sleeping, pid));
    assert forall|q: int| is_queue(q) implies unique_pids(#[trigger] new_v.queue(q)) by {
        if q != core && q != NUM_CORES {
            assert(new_v.queue(q) == old_v.queue(q));
        }
    }
    assert forall|q1: int, q2: int, p: u64|
        is_queue(q1) && is_queue(q2) && q1 != q2 && #[trigger] has_pid(new_v.queue(q1), p)
        implies !#[trigger] has_pid(new_v.queue(q2), p) by {
        if q1 != core && q1 != NUM_CORES {
            assert(new_v.queue(q1) == old_v.queue(q1));
        }
        if q2 != core && q2 != NUM_CORES {
            assert(new_v.queue(q2) == old_v.queue(q2));
        }
        if p == pid {
            if q1 != core && q1 != NUM_CORES {
                assert(has_pid(old_v.queue(q1), p));
                assert(!has_pid(old_v.queue(core), p));
            }
            if q2 != core && q2 != NUM_CORES {
                assert(!has_pid(old_v.queue(q2), p));
            }
        } else {
            assert(has_pid(old_v.queue(q1), p));
            assert(!has_pid(old_v.queue(q2), p));
        }
    }
    assert forall|q: int, p: u64| is_queue(q) && #[trigger] has_pid(new_v.queue(q), p) implies p < new_v.next_pid by {
        if q != core && q != NUM_CORES {
            assert(new_v.queue(q) == old_v.queue(q));
            assert(has_pid(old_v.queue(q), p));
        } else if p == pid {
            assert(has_pid(old_v.queue(core), p));
        } else {
            assert(has_pid(old_v.queue(q), p));
        }
    }
    assert forall|c: int| 0 <= c < NUM_CORES && (#[trigger] new_v.current[c]) is Some
        implies has_pid(new_v.running[c], new_v.current[c]->0) by {
        if c != core {
            assert(old_v.current[c] is Some);
            assert(new_v.running[c] == old_v.running[c]);
        }
    }
}

/// `new`, with the live frame `g`, is `old` with the live frame `f` after
/// core `core` was preempted and picked the thread `next` for the number
/// `r`: the frame was saved into the thread the core ran, if any; the
/// picked thread is the one at `r` modulo the length of the run queue; it
/// became the core's current thread and its saved frame the live frame.
pub open spec fn rescheduled_from_context(
    old: SchedulerView,
    new: SchedulerView,
    core: int,
    f: ExceptionContext,
    g: ExceptionContext,
    r: u64,
    next: u64,
) -> bool {
    let q = old.running[core];
    let saved = match old.current[core] {
        Some(p) => saved_into(q, p, f),
        None => q,
    };
    let picked = saved[selected_index(r, q.len())];
    &&& new.running == old.running.update(core, saved)
    &&& next == picked.pid
    &&& new.current == old.current.update(core, Some(next))
    &&& g == stored(picked.context, f)
    &&& new.sleeping == old.sleeping
    &&& new.next_pid == old.next_pid
}

/// `new` is `old` after the thread `prev` that core `core` ran went to
/// sleep and the core picked `next` for the number `r`: `prev` left the run
/// queue for the tail of the sleep queue, keeping the program status of a
/// thread that gives up the core by its own call; `next` is the thread at
/// `r` modulo the length of what is left in the run queue and became the
/// core's current thread.
pub open spec fn slept(old: SchedulerView, new: SchedulerView, core: int, irq_masked: bool, r: u64, prev: u64, next: u64) -> bool {
    let q = old.running[core];
    &&& old.current[core] == Some(prev)
    &&& exists|k: int|
        0 <= k < q.len() && #[trigger] q[k].pid == prev
            && new.running == old.running.update(core, q.remove(k))
            && new.sleeping == old.sleeping.push(with_switch_status(q[k], irq_masked))
            && next == q.remove(k)[selected_index(r, (q.len() - 1) as nat)].pid
    &&& new.current == old.current.update(core, Some(next))
    &&& new.next_pid == old.next_pid
}

/// `new` is `old` after the thread `prev` that core `core` ran gave up the
/// core by its own call and the core picked `next`, the thread at `r`
/// modulo the length of its run queue, which became its current thread.
pub open spec fn yielded(old: SchedulerView, new: SchedulerView, core: int, irq_masked: bool, r: u64, prev: u64, next: u64) -> bool {
    let q = old.running[core];
    &&& old.current[core] == Some(prev)
    &&& new.running == old.running.update(core, yielded_in(q, prev, irq_masked))
    &&& next == q[selected_index(r, q.len())].pid
    &&& new.current == old.current.update(core, Some(next))
    &&& new.sleeping == old.sleeping
    &&& new.next_pid == old.next_pid
}

/// `new` is `old` after core `core` took its first thread `next`, the head
/// of its run queue.
pub open spec fn started(old: SchedulerView, new: SchedulerView, core: int, next: u64) -> bool {
    &&& next == old.running[core][0].pid
    &&& new.current == old.current.update(core, Some(next))
    &&& new.running == old.running
    &&& new.sleeping == old.sleeping
    &&& new.next_pid == old.next_pid
}

/// `new` is `old` after a thread `pid`, starting at `entry_point` on the
/// stack based at `stack_base`, joined the tail of the run queue of core
/// `core`; `pid` is the identifier the counter handed out.
pub open spec fn spawned(old: SchedulerView, new: SchedulerView, core: int, entry_point: u64, stack_base: usize, pid: u64) -> bool {
    let q = new.running[core];
    &&& pid == old.next_pid
    &&& new.next_pid == pid + 1
    &&& new.running.len() == old.running.len()
    &&& q.len() == old.running[core].len() + 1
    &&& q.drop_last() == old.running[core]
    &&& q.last().pid == pid
    &&& q.last().stack_base == stack_base
    &&& crate::thread::is_initial_context(q.last().context, entry_point, stack_base)
    &&& forall|c: int| 0 <= c < old.running.len() && c != core ==> #[trigger] new.running[c] == old.running[c]
    &&& new.sleeping == old.sleeping
    &&& new.current == old.current
}

/// Adding a thread whose identifier no queue holds, below the counter, to
/// the tail of a run queue keeps every live thread in exactly one queue:
/// the state stays well formed and the new thread is in that run queue.
pub proof fn lemma_add_keeps_one_queue(s: SchedulerView, core: int, t: ThreadView, next_pid: u64)
    requires
        s.wf(),
        0 <= core < NUM_CORES,
        forall|q: int| is_queue(q) ==> !has_pid(#[trigger] s.queue(q), t.pid),
        s.next_pid <= next_pid,
        t.pid < next_pid,
    ensures
        (SchedulerView { running: s.running.update(core, s.running[core].push(t)), next_pid, ..s }).wf(),
        has_pid(s.running[core].push(t), t.pid),
{
    let n = SchedulerView { running: s.running.update(core, s.running[core].push(t)), next_pid, ..s };
    let oq = s.running[core];
    lemma_push(oq, t);
    assert(s.queue(core) == oq);
    assert(n.queue(core) == oq.push(t));
    assert forall|q: int| is_queue(q) && q != core implies n.queue(q) == s.queue(q) by {}
    assert forall|q: int| is_queue(q) implies unique_pids(#[trigger] n.queue(q)) by {}
    assert forall|q1: int, q2: int, p: u64|
        is_queue(q1) && is_queue(q2) && q1 != q2 && #[trigger] has_pid(n.queue(q1), p)
        implies !#[trigger] has_pid(n.queue(q2), p) by {
        if q1 != core {
            assert(n.queue(q1) == s.queue(q1));
        }
        if q2 != core {
            assert(n.queue(q2) == s.queue(q2));
        }
        if p != t.pid {
            assert(has_pid(s.queue(q1), p));
            assert(!has_pid(s.queue(q2), p));
        }
    }
    assert forall|q: int, p: u64| is_queue(q) && #[trigger] has_pid(n.queue(q), p) implies p < n.next_pid by {
        if p != t.pid {
            assert(has_pid(s.queue(q), p));
        }
    }
    assert forall|c: int| 0 <= c < NUM_CORES && (#[trigger] n.current[c]) is Some
        implies has_pid(n.running[c], n.current[c]->0) by {
        assert(s.current[c] is Some);
        assert(has_pid(s.queue(c), s.current[c]->0));
        assert(s.queue(c) == s.running[c]);
    }
}

/// The thread at `j` of `q` starts at `entry_point` on the stack based at
/// `stack_base`.
pub open spec fn starts_at(q: Seq<ThreadView>, j: int, entry_point: u64, stack_base: usize) -> bool {
    &&& 0 <= j < q.len()
    &&& q[j].stack_base == stack_base
    &&& crate::thread::is_initial_context(q[j].context, entry_point, stack_base)
}

/// Index in the stack list of the `k`th worker of core `c`, with `workers`
/// workers a core: the idle threads' stacks come first, one per core.
pub open spec fn worker_stack_index(c: int, k: int, workers: int) -> int {
    NUM_CORES + c * workers + k
}

/// Run queue `q` of core `c` is its former queue `oq` followed by its idle
/// thread and its first `done` workers, out of `workers`.
pub open spec fn filled_core(
    oq: Seq<ThreadView>,
    q: Seq<ThreadView>,
    idle_entry: u64,
    worker_entry: u64,
    stacks: Seq<usize>,
    c: int,
    workers: int,
    done: int,
) -> bool {
    &&& q.len() == oq.len() + 1 + done
    &&& q.take(oq.len() as int) == oq
    &&& starts_at(q, oq.len() as int, idle_entry, stacks[c])
    &&& forall|k: int|
        0 <= k < done ==> starts_at(q, oq.len() + 1 + k, worker_entry, #[trigger] stacks[worker_stack_index(c, k, workers)])
}

proof fn lemma_worker_index_bound(c: int, k: int, workers: int)
    requires
        0 <= c < NUM_CORES,
        0 <= k < workers,
    ensures
        NUM_CORES <= worker_stack_index(c, k, workers) < NUM_CORES * (1 + workers),
        c * workers + k < NUM_CORES * workers,
{
    assert(c * workers + k < NUM_CORES * workers) by (nonlinear_arith)
        requires 0 <= c < 4, 0 <= k < workers;
    assert(0 <= c * workers) by (nonlinear_arith)
        requires 0 <= c, 0 <= workers;
}

/// The scheduling state of the machine: a run queue per core, the sleep
/// queue, the thread each core runs, and the identifier counter.
pub struct Scheduler {
    running: Vec<ThreadQueue>,
    sleeping: ThreadQueue,
    current: Vec<Option<u64>>,
    next_pid: u64,
}

impl View for Scheduler {
    type V = SchedulerView;

    closed spec fn view(&self) -> SchedulerView {
        SchedulerView {
            running: self.running@.map_values(|q: ThreadQueue| q@),
            sleeping: self.sleeping@,
            current: self.current@,
            next_pid: self.next_pid,
        }
    }
}

impl Scheduler {
    /// All queues empty, no core running a thread, identifiers from 1.
    pub fn new() -> (r: Scheduler)
        ensures
            r@.wf(),
            forall|c: int| 0 <= c < NUM_CORES ==> (#[trigger] r@.running[c]).len() == 0,
            forall|c: int| 0 <= c < NUM_CORES ==> (#[trigger] r@.current[c]) is None,
            r@.sleeping.len() == 0,
            r@.next_pid == 1,
    {
        let mut running: Vec<ThreadQueue> = Vec::new();
        let mut current: Vec<Option<u64>> = Vec::new();
        let mut c: usize = 0;
        while c < NUM_CORES
            invariant
                c <= NUM_CORES,
                running@.len() == c,
                current@.len() == c,
                forall|i: int| 0 <= i < c ==> (#[trigger] running@[i])@.len() == 0,
                forall|i: int| 0 <= i < c ==> (#[trigger] current@[i]) is None,
            decreases NUM_CORES - c,
        {
            running.push(ThreadQueue::new());
            current.push(None);
            c += 1;
        }
        let r = Scheduler { running, sleeping: ThreadQueue::new(), current, next_pid: 1 };
        assert forall|q: int, pid: u64| is_queue(q) implies !has_pid(r@.queue(q), pid) by {
            assert(r@.queue(q).len() == 0);
        }
        r
    }

    /// The identifier of the thread core `core` runs.
    pub fn current(&self, core: usize) -> (r: Option<u64>)
        requires
            self@.wf(),
            core < NUM_CORES,
        ensures
            r == self@.current[core as int],
    {
        self.current[core]
    }

    /// The run queue of core `core`.
    pub fn run_queue(&self, core: usize) -> (r: &ThreadQueue)
        requires
            self@.wf(),
            core < NUM_CORES,
        ensures
            r@ == self@.running[core as int],
    {
        &self.running[core]
    }

    /// The identifier the next new thread gets.
    pub fn next_pid(&self) -> (r: u64)
        ensures
            r == self@.next_pid,
    {
        self.next_pid
    }

    /// The sleep queue.
    pub fn sleep_queue(&self) -> (r: &ThreadQueue)
        ensures
            r@ == self@.sleeping,
    {
        &self.sleeping
    }

    /// Creates a thread that starts at `entry_point` on the stack based at
    /// `stack_base` and appends it to the run queue of core `core`. Returns
    /// its identifier, the next one of the counter; `None`, with nothing
    /// changed, once the counter has no identifier left.
    pub fn spawn(&mut self, core: usize, entry_point: u64, stack_base: usize) -> (r: Option<u64>)
        requires
            old(self)@.wf(),
            core < NUM_CORES,
            crate::thread::valid_stack_base(stack_base),
        ensures
            final(self)@.wf(),
            r is None <==> old(self)@.next_pid == u64::MAX,
            r is None ==> final(self)@ == old(self)@,
            r matches Some(pid) ==> spawned(old(self)@, final(self)@, core as int, entry_point, stack_base, pid),
    {
        if self.next_pid == u64::MAX {
            return None;
        }
        let pid = self.next_pid;
        let t = Thread::new(pid, entry_point, stack_base);
        let ghost old_v = self@;
        let ghost tv = t@;
        self.running[core].add(t);
        self.next_pid = pid + 1;
        proof {
            assert(self@.running =~= old_v.running.update(core as int, old_v.running[core as int].push(tv)));
            assert(self@ == (SchedulerView {
                running: old_v.running.update(core as int, old_v.running[core as int].push(tv)),
                next_pid: self.next_pid,
                ..old_v
            }));
            assert forall|q: int| is_queue(q) implies !has_pid(#[trigger] old_v.queue(q), pid) by {
                if has_pid(old_v.queue(q), pid) {
                    assert(pid < old_v.next_pid);
                }
            }
            lemma_add_keeps_one_queue(old_v, core as int, tv, self.next_pid);
            assert(self@.running[core as int].drop_last() =~= old_v.running[core as int]);
        }
        Some(pid)
    }

    /// Fills the run queues as the kernel does at boot: first an idle
    /// thread for each core, starting at `idle_entry` on `stacks[c]`, then
    /// `workers` threads for each core in turn, starting at `worker_entry`;
    /// worker `k` of core `c` gets `stacks[NUM_CORES + c * workers + k]`.
    pub fn fill_run_queues(&mut self, idle_entry: u64, worker_entry: u64, workers: usize, stacks: &Vec<usize>)
        requires
            old(self)@.wf(),
            stacks@.len() == NUM_CORES * (1 + workers),
            forall|i: int| 0 <= i < stacks@.len() ==> crate::thread::valid_stack_base(#[trigger] stacks@[i]),
            old(self)@.next_pid + stacks@.len() < u64::MAX,
        ensures
            final(self)@.wf(),
            final(self)@.next_pid == old(self)@.next_pid + stacks@.len(),
            final(self)@.sleeping == old(self)@.sleeping,
            final(self)@.current == old(self)@.current,
            forall|c: int| 0 <= c < NUM_CORES ==> filled_core(old(self)@.running[c], #[trigger] final(self)@.running[c],
                idle_entry, worker_entry, stacks@, c, workers as int, workers as int),
    {
        let ghost o = self@;
        let mut c: usize = 0;
        while c < NUM_CORES
            invariant
                c <= NUM_CORES,
                self@.wf(),
                stacks@.len() == NUM_CORES * (1 + workers),
                forall|i: int| 0 <= i < stacks@.len() ==> crate::thread::valid_stack_base(#[trigger] stacks@[i]),
                o.next_pid + stacks@.len() < u64::MAX,
                self@.next_pid == o.next_pid + c,
                self@.sleeping == o.sleeping,
                self@.current == o.current,
                forall|d: int|
                    0 <= d < c ==> filled_core(o.running[d], #[trigger] self@.running[d], idle_entry, worker_entry, stacks@, d, workers as int, 0),
                forall|d: int| c <= d < NUM_CORES ==> #[trigger] self@.running[d] == o.running[d],
            decreases NUM_CORES - c,
        {
            let ghost prev = self@;
            assert(NUM_CORES <= stacks@.len()) by (nonlinear_arith)
                requires stacks@.len() == 4 * (1 + workers);
            let r = self.spawn(c, idle_entry, stacks[c]);
            proof {
                let q = self@.running[c as int];
                let oq = o.running[c as int];
                assert(q.drop_last() == oq);
                assert(q.take(oq.len() as int) =~= oq);
                assert(filled_core(oq, q, idle_entry, worker_entry, stacks@, c as int, workers as int, 0));
            }
            c += 1;
        }
        let mut c: usize = 0;
        while c < NUM_CORES
            invariant
                c <= NUM_CORES,
                self@.wf(),
                stacks@.len() == NUM_CORES * (1 + workers),
                forall|i: int| 0 <= i < stacks@.len() ==> crate::thread::valid_stack_base(#[trigger] stacks@[i]),
                o.next_pid + stacks@.len() < u64::MAX,
                self@.next_pid == o.next_pid + NUM_CORES + c * workers,
                self@.sleeping == o.sleeping,
                self@.current == o.current,
                forall|d: int|
                    0 <= d < c ==> filled_core(o.running[d], #[trigger] self@.running[d], idle_entry, worker_entry, stacks@, d, workers as int, workers as int),
                forall|d: int|
                    c <= d < NUM_CORES ==> filled_core(o.running[d], #[trigger] self@.running[d], idle_entry, worker_entry, stacks@, d, workers as int, 0),
            decreases NUM_CORES - c,
        {
            let mut k: usize = 0;
            while k < workers
                invariant
                    c < NUM_CORES,
                    k <= workers,
                    self@.wf(),
                    stacks@.len() == NUM_CORES * (1 + workers),
                    forall|i: int| 0 <= i < stacks@.len() ==> crate::thread::valid_stack_base(#[trigger] stacks@[i]),
                    o.next_pid + stacks@.len() < u64::MAX,
                    self@.next_pid == o.next_pid + NUM_CORES + c * workers + k,
                    self@.sleeping == o.sleeping,
                    self@.current == o.current,
                    forall|d: int|
                        0 <= d < c ==> filled_core(o.running[d], #[trigger] self@.running[d], idle_entry, worker_entry, stacks@, d, workers as int, workers as int),
                    filled_core(o.running[c as int], self@.running[c as int], idle_entry, worker_entry, stacks@, c as int, workers as int, k as int),
                    forall|d: int|
                        c < d < NUM_CORES ==> filled_core(o.running[d], #[trigger] self@.running[d], idle_entry, worker_entry, stacks@, d, workers as int, 0),
                decreases workers - k,
            {
                proof {
                    lemma_worker_index_bound(c as int, k as int, workers as int);
                    assert(NUM_CORES * (1 + workers) == NUM_CORES + NUM_CORES * workers) by (nonlinear_arith);
                    assert(0 <= c * workers) by (nonlinear_arith);
                }
                let ghost prev = self@;
                let total = stacks.len();
                assert(NUM_CORES + c * workers + k < total);
                let i = NUM_CORES + c * workers + k;
                let r = self.spawn(c, worker_entry, stacks[i]);
                proof {
                    let cq = self@.running[c as int];
                    let pq = prev.running[c as int];
                    let oq = o.running[c as int];
                    let n = oq.len() as int;
                    assert(cq.drop_last() == pq);
                    assert forall|j: int| 0 <= j < cq.len() - 1 implies #[trigger] cq[j] == pq[j] by {
                        assert(cq.drop_last()[j] == cq[j]);
                    }
                    assert(cq.take(n) =~= oq) by {
                        assert(pq.take(n) == oq);
                    }
                    assert(starts_at(cq, n, idle_entry, stacks@[c as int]));
                    assert forall|j: int| 0 <= j < k + 1 implies starts_at(cq, n + 1 + j, worker_entry, #[trigger] stacks@[worker_stack_index(c as int, j, workers as int)]) by {
                        if j < k {
                            assert(starts_at(pq, n + 1 + j, worker_entry, stacks@[worker_stack_index(c as int, j, workers as int)]));
                        }
                    }
                    assert(filled_core(oq, cq, idle_entry, worker_entry, stacks@, c as int, workers as int, k + 1));
                }
                k += 1;
            }
            proof {
                assert((c + 1) * workers == c * workers + workers) by (nonlinear_arith);
            }
            c += 1;
        }
        assert(NUM_CORES * (1 + workers) == NUM_CORES + NUM_CORES * workers) by (nonlinear_arith);
    }

    /// Saves the live frame `ec` into the thread core `core` runs, if it
    /// runs one, picks the thread at `r` modulo the length of the core's run
    /// queue, makes it the core's current thread and copies its saved frame
    /// into `ec`. Returns the identifier of the picked thread.
    pub fn reschedule_from_context_selecting(&mut self, core: usize, ec: &mut ExceptionContext, r: u64) -> (next: u64)
        requires
            old(self)@.wf(),
            core < NUM_CORES,
            old(self)@.running[core as int].len() > 0,
        ensures
            final(self)@.wf(),
            rescheduled_from_context(old(self)@, final(self)@, core as int, *old(ec), *final(ec), r, next),
    {
        let ghost old_v = self@;
        let ghost q = self@.running[core as int];
        let ghost f = *ec;
        assert(old_v.queue(core as int) == q);
        match self.current[core] {
            Some(p) => {
                assert(has_pid(q, p));
                let found = self.running[core].get_by_pid(p);
                let i = found.unwrap();
                self.running[core].save_frame(i, ec);
                proof {
                    let t = ThreadView { context: stored(f, q[i as int].context), ..q[i as int] };
                    lemma_single_change(q, saved_into(q, p, f), i as int, p, t);
                }
            },
            None => {},
        }
        let ghost saved = self@.running[core as int];
        assert(saved.len() == q.len());
        let len = self.running[core].len();
        assert(0 <= selected_index(r, q.len()) < len);
        let n = self.running[core].select(r).unwrap();
        let next_pid = self.running[core].get(n).get_pid();
        self.current.set(core, Some(next_pid));
        store_context(self.running[core].get(n).ex_context(), ec);
        proof {
            assert(self@.running =~= old_v.running.update(core as int, saved));
            assert(self@.current =~= old_v.current.update(core as int, Some(next_pid)));
            assert(has_pid(saved, next_pid));
            lemma_wf_switch(old_v, self@, core as int, saved, next_pid);
        }
        next_pid
    }

    /// Moves the thread core `core` runs to the sleep queue and picks the
    /// thread at `r` modulo the length of what is left in the core's run
    /// queue. `irq_masked` tells whether IRQs were masked at the call.
    /// Returns the identifiers of the sleeping thread and of the picked one,
    /// between which the caller switches.
    pub fn sleep_selecting(&mut self, core: usize, irq_masked: bool, r: u64) -> (ids: (u64, u64))
        requires
            old(self)@.wf(),
            core < NUM_CORES,
            old(self)@.current[core as int] is Some,
            old(self)@.running[core as int].len() >= 2,
        ensures
            final(self)@.wf(),
            slept(old(self)@, final(self)@, core as int, irq_masked, r, ids.0, ids.1),
    {
        let ghost old_v = self@;
        let ghost q = self@.running[core as int];
        let p = self.current[core].unwrap();
        let mut t = self.running[core].remove(p).unwrap();
        let ghost k = choose|k: int|
            0 <= k < q.len() && q[k].pid == p
                && (forall|j: int| k < j < q.len() ==> q[j].pid != p)
                && t@ == q[k] && self@.running[core as int] == q.remove(k);
        let len = self.running[core].len();
        assert(0 <= selected_index(r, (q.len() - 1) as nat) < len);
        let n = self.running[core].select(r).unwrap();
        let next_pid = self.running[core].get(n).get_pid();
        let ctx = t.get_ex_context();
        ctx.spsr_el1 = spsr_for_switch(ctx.spsr_el1, irq_masked);
        assert(t@ == with_switch_status(q[k], irq_masked));
        self.sleeping.add(t);
        self.current.set(core, Some(next_pid));
        proof {
            assert(self@.running =~= old_v.running.update(core as int, q.remove(k)));
            assert(self@.current =~= old_v.current.update(core as int, Some(next_pid)));
            assert(has_pid(q.remove(k), next_pid));
            lemma_wf_sleep(old_v, self@, core as int, k, with_switch_status(q[k], irq_masked), next_pid);
        }
        (p, next_pid)
    }

    /// Picks the thread at `r` modulo the length of the run queue of core
    /// `core` (possibly the one it runs), gives the thread the core runs the
    /// program status of a thread that gives up the core by its own call,
    /// and makes the picked thread current. Returns the identifiers of the
    /// two, between which the caller switches.
    pub fn reschedule_selecting(&mut self, core: usize, irq_masked: bool, r: u64) -> (ids: (u64, u64))
        requires
            old(self)@.wf(),
            core < NUM_CORES,
            old(self)@.current[core as int] is Some,
        ensures
            final(self)@.wf(),
            yielded(old(self)@, final(self)@, core as int, irq_masked, r, ids.0, ids.1),
    {
        let ghost old_v = self@;
        let ghost q = self@.running[core as int];
        let p = self.current[core].unwrap();
        assert(old_v.queue(core as int) == q);
        assert(has_pid(q, p));
        let len = self.running[core].len();
        assert(0 <= selected_index(r, q.len()) < len);
        let n = self.running[core].select(r).unwrap();
        let next_pid = self.running[core].get(n).get_pid();
        let i = self.running[core].get_by_pid(p).unwrap();
        self.running[core].mark_yield(i, irq_masked);
        self.current.set(core, Some(next_pid));
        proof {
            lemma_single_change(q, yielded_in(q, p, irq_masked), i as int, p, with_switch_status(q[i as int], irq_masked));
            let nq = yielded_in(q, p, irq_masked);
            assert(self@.running =~= old_v.running.update(core as int, nq));
            assert(self@.current =~= old_v.current.update(core as int, Some(next_pid)));
            assert(nq[n as int].pid == next_pid);
            lemma_wf_switch(old_v, self@, core as int, nq, next_pid);
        }
        (p, next_pid)
    }

    /// Makes the head of the run queue of core `core` the core's current
    /// thread, as a core does before it runs its first thread. Returns its
    /// identifier.
    pub fn start(&mut self, core: usize) -> (next: u64)
        requires
            old(self)@.wf(),
            core < NUM_CORES,
            old(self)@.running[core as int].len() > 0,
        ensures
            final(self)@.wf(),
            started(old(self)@, final(self)@, core as int, next),
    {
        let ghost old_v = self@;
        let ghost q = self@.running[core as int];
        let next_pid = self.running[core].get(0).get_pid();
        self.current.set(core, Some(next_pid));
        proof {
            assert(self@.running =~= old_v.running.update(core as int, q));
            assert(self@.current =~= old_v.current.update(core as int, Some(next_pid)));
            assert(q[0].pid == next_pid);
            lemma_wf_switch(old_v, self@, core as int, q, next_pid);
        }
        next_pid
    }

    /// `reschedule_from_context_selecting` with a number drawn from a
    /// generator seeded with `seed`: the step taken on a timer tick or on a
    /// kick from another core.
    pub fn reschedule_from_context(&mut self, core: usize, ec: &mut ExceptionContext, seed: u64) -> (next: u64)
        requires
            old(self)@.wf(),
            core < NUM_CORES,
            old(self)@.running[core as int].len() > 0,
        ensures
            final(self)@.wf(),
            exists|r: u64| rescheduled_from_context(old(self)@, final(self)@, core as int, *old(ec), *final(ec), r, next),
    {
        let r = next_u64(seed);
        self.reschedule_from_context_selecting(core, ec, r)
    }

    /// `sleep_selecting` with a number drawn from a generator seeded with
    /// `seed`.
    pub fn sleep(&mut self, core: usize, irq_masked: bool, seed: u64) -> (ids: (u64, u64))
        requires
            old(self)@.wf(),
            core < NUM_CORES,
            old(self)@.current[core as int] is Some,
            old(self)@.running[core as int].len() >= 2,
        ensures
            final(self)@.wf(),
            exists|r: u64| slept(old(self)@, final(self)@, core as int, irq_masked, r, ids.0, ids.1),
    {
        let r = next_u64(seed);
        self.sleep_selecting(core, irq_masked, r)
    }

    /// `reschedule_selecting` with a number drawn from a generator seeded
    /// with `seed`.
    pub fn reschedule(&mut self, core: usize, irq_masked: bool, seed: u64) -> (ids: (u64, u64))
        requires
            old(self)@.wf(),
            core < NUM_CORES,
            old(self)@.current[core as int] is Some,
        ensures
            final(self)@.wf(),
            exists|r: u64| yielded(old(self)@, final(self)@, core as int, irq_masked, r, ids.0, ids.1),
    {
        let r = next_u64(seed);
        self.reschedule_selecting(core, irq_masked, r)
    }

    /// The saved frame of the thread `pid` in queue `q` (a core's run queue,
    /// or the sleep queue for `q == NUM_CORES`), for the switch primitive
    /// to save into or restore from.
    pub fn frame_mut(&mut self, q: usize, pid: u64) -> (r: &mut ExceptionContext)
        requires
            old(self)@.wf(),
            is_queue(q as int),
            has_pid(old(self)@.queue(q as int), pid),
        ensures
            exists|i: int|
                0 <= i < old(self)@.queue(q as int).len() && #[trigger] old(self)@.queue(q as int)[i].pid == pid
                    && *r == old(self)@.queue(q as int)[i].context,
            final(self)@ == old(self)@.with_frame_in(q as int, pid, *final(r)),
            final(self)@.wf(),
    {
        let ghost old_v = self@;
        let ghost oq = old_v.queue(q as int);
        assert(unique_pids(oq));
        if q < NUM_CORES {
            let i = self.running[q].get_by_pid(pid).unwrap();
            let r = self.running[q].frame_at_mut(i);
            proof {
                let c = *final(r);
                let t = ThreadView { context: c, ..oq[i as int] };
                lemma_single_change(oq, with_frame(oq, pid, c), i as int, pid, t);
                assert(after_borrow(*self).running@[q as int]@ == with_frame(oq, pid, c));
                assert(after_borrow(*self)@.running =~= old_v.running.update(q as int, with_frame(oq, pid, c)));
                assert(after_borrow(*self)@ =~= old_v.with_frame_in(q as int, pid, c));
                lemma_wf_reframe(old_v, q as int, pid, c);
            }
            r
        } else {
            let i = self.sleeping.get_by_pid(pid).unwrap();
            let r = self.sleeping.frame_at_mut(i);
            proof {
                let c = *final(r);
                let t = ThreadView { context: c, ..oq[i as int] };
                lemma_single_change(oq, with_frame(oq, pid, c), i as int, pid, t);
                assert(after_borrow(*self)@ =~= old_v.with_frame_in(q as int, pid, c));
                lemma_wf_reframe(old_v, q as int, pid, c);
            }
            r
        }
    }
}

/// Replacing a saved frame keeps a state well formed.
proof fn lemma_wf_reframe(s: SchedulerView, q: int, pid: u64, c: ExceptionContext)
    requires
        s.wf(),
        is_queue(q),
    ensures
        s.with_frame_in(q, pid, c).wf(),
{
    let n = s.with_frame_in(q, pid, c);
    let oq = s.queue(q);
    assert(same_pids(oq, with_frame(oq, pid, c)));
    lemma_same_pids(oq, with_frame(oq, pid, c));
    assert(n.queue(q) == with_frame(oq, pid, c));
    assert forall|x: int| is_queue(x) && x != q implies n.queue(x) == s.queue(x) by {}
    assert forall|x: int| is_queue(x) implies unique_pids(#[trigger] n.queue(x)) by {}
    assert forall|q1: int, q2: int, p: u64|
        is_queue(q1) && is_queue(q2) && q1 != q2 && #[trigger] has_pid(n.queue(q1), p)
        implies !#[trigger] has_pid(n.queue(q2), p) by {
        assert(has_pid(s.queue(q1), p));
    }
    assert forall|x: int, p: u64| is_queue(x) && #[trigger] has_pid(n.queue(x), p) implies p < n.next_pid by {
        assert(has_pid(s.queue(x), p));
    }
    assert forall|x: int| 0 <= x < NUM_CORES && (#[trigger] n.current[x]) is Some
        implies has_pid(n.running[x], n.current[x]->0) by {
        assert(n.queue(x) == n.running[x]);
        assert(s.queue(x) == s.running[x]);
        assert(has_pid(s.running[x], s.current[x]->0));
    }
}

/// In a well-formed state every live thread is in exactly one queue, and
/// there only once.
pub proof fn lemma_thread_in_one_queue(s: SchedulerView, pid: u64)
    requires
        s.wf(),
        s.alive(pid),
    ensures
        exists|q: int| {
            &&& is_queue(q)
            &&& has_pid(s.queue(q), pid)
            &&& unique_pids(s.queue(q))
            &&& forall|q2: int| is_queue(q2) && q2 != q ==> !#[trigger] has_pid(s.queue(q2), pid)
        },
{
    let q = choose|q: int| is_queue(q) && #[trigger] has_pid(s.queue(q), pid);
    assert forall|q2: int| is_queue(q2) && q2 != q implies !#[trigger] has_pid(s.queue(q2), pid) by {}
}

/// In a well-formed state the thread a core runs is in that core's run
/// queue.
pub proof fn lemma_current_in_run_queue(s: SchedulerView, c: int)
    requires
        s.wf(),
        0 <= c < NUM_CORES,
        s.current[c] is Some,
    ensures
        has_pid(s.running[c], s.current[c]->0),
{
}

/// A core that runs a thread has a run queue that is not empty.
pub proof fn lemma_running_core_has_threads(s: SchedulerView, c: int)
    requires
        s.wf(),
        0 <= c < NUM_CORES,
        s.current[c] is Some,
    ensures
        s.running[c].len() > 0,
{
}

/// Identifiers handed out by two spawns in a row increase, and every
/// identifier in use is below the next one handed out.
pub proof fn lemma_pids_increase(
    s0: SchedulerView,
    s1: SchedulerView,
    s2: SchedulerView,
    c1: int,
    c2: int,
    e1: u64,
    e2: u64,
    b1: usize,
    b2: usize,
    first_pid: u64,
    second_pid: u64,
)
    requires
        s0.wf(),
        spawned(s0, s1, c1, e1, b1, first_pid),
        spawned(s1, s2, c2, e2, b2, second_pid),
    ensures
        first_pid < second_pid,
        forall|pid: u64| s0.alive(pid) ==> pid < first_pid,
{
    assert forall|pid: u64| s0.alive(pid) implies pid < first_pid by {
        let q = choose|q: int| is_queue(q) && #[trigger] has_pid(s0.queue(q), pid);
    }
}

/// A sleeping thread is in no run queue, so no core picks it: not on a
/// tick, not when a thread yields or sleeps, not when a core starts.
pub proof fn lemma_sleeping_never_picked(
    s: SchedulerView,
    t: SchedulerView,
    core: int,
    irq_masked: bool,
    f: ExceptionContext,
    g: ExceptionContext,
    r: u64,
    prev: u64,
    next: u64,
    pid: u64,
)
    requires
        s.wf(),
        0 <= core < NUM_CORES,
        has_pid(s.sleeping, pid),
        s.running[core].len() > 0,
        rescheduled_from_context(s, t, core, f, g, r, next)
            || yielded(s, t, core, irq_masked, r, prev, next)
            || started(s, t, core, next)
            || (slept(s, t, core, irq_masked, r, prev, next) && s.running[core].len() >= 2),
    ensures
        next != pid,
        has_pid(t.sleeping, pid),
        forall|c: int| 0 <= c < NUM_CORES ==> !has_pid(#[trigger] s.running[c], pid),
{
    assert(s.queue(NUM_CORES as int) == s.sleeping);
    assert forall|c: int| 0 <= c < NUM_CORES implies !has_pid(#[trigger] s.running[c], pid) by {
        assert(s.queue(c) == s.running[c]);
    }
    let q = s.running[core];
    let sel = selected_index(r, q.len());
    if rescheduled_from_context(s, t, core, f, g, r, next) {
        let saved = match s.current[core] {
            Some(p) => saved_into(q, p, f),
            None => q,
        };
        assert(same_pids(q, saved));
        assert(saved[sel].pid == q[sel].pid);
        assert(has_pid(q, q[sel].pid));
    } else if yielded(s, t, core, irq_masked, r, prev, next) {
        assert(yielded_in(q, prev, irq_masked)[sel].pid == q[sel].pid);
        assert(has_pid(q, q[sel].pid));
    } else if started(s, t, core, next) {
        assert(has_pid(q, q[0].pid));
    } else {
        let k = choose|k: int|
            0 <= k < q.len() && #[trigger] q[k].pid == prev
                && t.running == s.running.update(core, q.remove(k))
                && t.sleeping == s.sleeping.push(with_switch_status(q[k], irq_masked))
                && next == q.remove(k)[selected_index(r, (q.len() - 1) as nat)].pid;
        let j = selected_index(r, (q.len() - 1) as nat);
        let qi = if j < k { j } else { j + 1 };
        assert(q.remove(k)[j] == q[qi]);
        assert(has_pid(q, q[qi].pid));
        assert(t.sleeping[s.sleeping.len() as int] == with_switch_status(q[k], irq_masked));
        let i = choose|i: int| 0 <= i < s.sleeping.len() && #[trigger] s.sleeping[i].pid == pid;
        assert(t.sleeping[i].pid == pid);
    }
}

} // verus!
