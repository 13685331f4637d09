use kernel::exception::{store_context, ExceptionContext, SPSR_EL1_INIT};
use kernel::scheduler::{Scheduler, ThreadQueue, NUM_CORES};
use kernel::thread::{Thread, STACK_SIZE};

const ENTRY: u64 = 0x8_0000;
const STACK0: usize = 0x10_0000;

fn frame_with(seed: u64) -> ExceptionContext {
    let mut f = ExceptionContext::zeroed();
    for i in 0..30 {
        f.gpr[i] = seed + i as u64;
    }
    f.lr = seed + 100;
    f.elr_el1 = seed + 200;
    f.spsr_el1 = 0x3c5;
    f.esr_el1 = seed + 300;
    f.sp_el0 = seed + 400;
    f._res_sp = 7;
    f
}

fn same_switched(a: &ExceptionContext, b: &ExceptionContext) -> bool {
    a.gpr == b.gpr
        && a.lr == b.lr
        && a.elr_el1 == b.elr_el1
        && a.spsr_el1 == b.spsr_el1
        && a.esr_el1 == b.esr_el1
        && a.sp_el0 == b.sp_el0
}

fn all_pids(s: &Scheduler) -> Vec<u64> {
    let mut v = Vec::new();
    for c in 0..NUM_CORES {
        v.extend(s.run_queue(c).pids());
    }
    v.extend(s.sleep_queue().pids());
    v
}

/// Two threads on core 0, core 0 running the first of them.
fn two_threads_on_core0() -> Scheduler {
    let mut s = Scheduler::new();
    assert_eq!(s.spawn(0, ENTRY, STACK0), Some(1));
    assert_eq!(s.spawn(0, ENTRY + 4, STACK0 + STACK_SIZE), Some(2));
    assert_eq!(s.start(0), 1);
    s
}

#[test]
fn single_core_tick() {
    let mut s = two_threads_on_core0();
    let live = frame_with(1000);
    let mut ec = live;
    let next = s.reschedule_from_context_selecting(0, &mut ec, 1);
    assert_eq!(next, 2);
    assert_eq!(s.current(0), Some(2));
    assert_eq!(s.run_queue(0).pids(), vec![1, 2]);
    // The preempted thread holds the frame of the interrupt.
    assert!(same_switched(s.frame_mut(0, 1), &live));
    // The live frame is now the frame the second thread starts from.
    assert_eq!(ec.elr_el1, ENTRY + 4);
    assert_eq!(ec.lr, ENTRY + 4);
    assert_eq!(ec.sp_el0, (STACK0 + 2 * STACK_SIZE) as u64);
    assert_eq!(ec.spsr_el1, SPSR_EL1_INIT);
    assert_eq!(ec.gpr, [0u64; 30]);
    assert_eq!(ec._res_sp, 7);
}

#[test]
fn tick_without_current_thread_picks_first() {
    let mut s = Scheduler::new();
    s.spawn(2, ENTRY, STACK0).unwrap();
    let mut ec = frame_with(5);
    assert_eq!(s.reschedule_from_context_selecting(2, &mut ec, 17), 1);
    assert_eq!(s.current(2), Some(1));
    assert_eq!(ec.elr_el1, ENTRY);
    assert_eq!(s.frame_mut(2, 1).elr_el1, ENTRY);
}

#[test]
fn sleep_then_resume() {
    let mut s = two_threads_on_core0();
    let before = s.frame_mut(0, 1).spsr_el1;
    let (prev, next) = s.sleep_selecting(0, false, 0);
    assert_eq!((prev, next), (1, 2));
    assert_eq!(s.sleep_queue().pids(), vec![1]);
    assert_eq!(s.run_queue(0).pids(), vec![2]);
    assert_eq!(s.current(0), Some(2));
    // IRQs were unmasked at the call: the saved status has the I bit set.
    assert_eq!(s.frame_mut(NUM_CORES, 1).spsr_el1, before | 0x80);
}

#[test]
fn sleep_with_irqs_masked_clears_i_bit() {
    let mut s = two_threads_on_core0();
    s.frame_mut(0, 1).spsr_el1 = 0x3e4;
    s.sleep_selecting(0, true, 0);
    assert_eq!(s.frame_mut(NUM_CORES, 1).spsr_el1, 0x364);
}

#[test]
fn reschedule_may_pick_itself() {
    let mut s = two_threads_on_core0();
    assert_eq!(s.reschedule_selecting(0, false, 2), (1, 1));
    assert_eq!(s.current(0), Some(1));
    assert_eq!(s.frame_mut(0, 1).spsr_el1, SPSR_EL1_INIT | 0x80);
    assert_eq!(s.reschedule_selecting(0, true, 3), (1, 2));
    assert_eq!(s.current(0), Some(2));
    assert_eq!(s.frame_mut(0, 1).spsr_el1, SPSR_EL1_INIT);
    assert_eq!(s.run_queue(0).pids(), vec![1, 2]);
}

#[test]
fn boot_bring_up_picks_head_of_each_queue() {
    let mut s = Scheduler::new();
    for core in 0..NUM_CORES {
        s.spawn(core, ENTRY + core as u64, STACK0 + core * 2 * STACK_SIZE).unwrap();
        s.spawn(core, ENTRY + 0x100, STACK0 + (core * 2 + 1) * STACK_SIZE).unwrap();
    }
    for core in 1..NUM_CORES {
        let first = s.start(core);
        assert_eq!(Some(first), s.run_queue(core).pids().first().copied());
        assert_eq!(s.current(core), Some(first));
        let f = *s.frame_mut(core, first);
        assert_eq!(f.elr_el1, ENTRY + core as u64);
        assert_eq!(f.sp_el0, (STACK0 + core * 2 * STACK_SIZE + STACK_SIZE) as u64);
        assert_eq!(f.spsr_el1, 0x364);
    }
}

#[test]
fn every_thread_in_exactly_one_queue() {
    let mut s = Scheduler::new();
    for i in 0..12 {
        s.spawn(i % NUM_CORES, ENTRY, STACK0 + i * STACK_SIZE).unwrap();
    }
    for core in 0..NUM_CORES {
        s.start(core);
    }
    s.sleep(1, false, 9);
    s.sleep(3, true, 11);
    let mut ec = frame_with(0);
    s.reschedule_from_context(0, &mut ec, 5);
    let mut pids = all_pids(&s);
    pids.sort();
    assert_eq!(pids, (1..=12).collect::<Vec<u64>>());
    assert_eq!(s.sleep_queue().len(), 2);
}

#[test]
fn current_thread_stays_in_its_run_queue() {
    let mut s = Scheduler::new();
    for i in 0..6 {
        s.spawn(i % 2, ENTRY, STACK0 + i * STACK_SIZE).unwrap();
    }
    s.start(0);
    s.start(1);
    let mut ec = frame_with(0);
    for seed in 0..20 {
        s.reschedule_from_context(0, &mut ec, seed);
        let cur = s.current(0).unwrap();
        assert!(s.run_queue(0).pids().contains(&cur));
        assert!(!s.run_queue(0).pids().is_empty());
    }
    let (_, next) = s.sleep(1, false, 4);
    assert_eq!(s.current(1), Some(next));
    assert!(s.run_queue(1).pids().contains(&next));
    assert_eq!(s.run_queue(1).len(), 2);
}

#[test]
fn pids_increase() {
    let mut s = Scheduler::new();
    let a = s.spawn(0, ENTRY, STACK0).unwrap();
    let b = s.spawn(3, ENTRY, STACK0).unwrap();
    let c = s.spawn(1, ENTRY, STACK0).unwrap();
    assert_eq!((a, b, c), (1, 2, 3));
    assert!(a < b && b < c);
}

#[test]
fn sleeping_thread_never_picked() {
    let mut s = Scheduler::new();
    for i in 0..3 {
        s.spawn(0, ENTRY, STACK0 + i * STACK_SIZE).unwrap();
    }
    s.start(0);
    let (slept, _) = s.sleep_selecting(0, false, 0);
    assert_eq!(slept, 1);
    let mut ec = frame_with(0);
    for r in 0..50 {
        let next = s.reschedule_from_context_selecting(0, &mut ec, r);
        assert_ne!(next, slept);
        let (_, n) = s.reschedule_selecting(0, false, r * 7 + 3);
        assert_ne!(n, slept);
    }
    assert_eq!(s.sleep_queue().pids(), vec![slept]);
}

#[test]
fn next_with_one_element_returns_it() {
    let mut q = ThreadQueue::new();
    assert_eq!(q.next(3), None);
    q.add(Thread::new(7, ENTRY, STACK0));
    for seed in [0u64, 1, 2, 99, u64::MAX] {
        assert_eq!(q.next(seed), Some(0));
    }
}

#[test]
fn select_is_number_modulo_length() {
    let mut q = ThreadQueue::new();
    assert_eq!(q.select(5), None);
    for pid in [4u64, 5, 6] {
        q.add(Thread::new(pid, ENTRY, STACK0));
    }
    assert_eq!(q.select(0), Some(0));
    assert_eq!(q.select(4), Some(1));
    assert_eq!(q.select(8), Some(2));
    for seed in 0..30 {
        assert!(q.next(seed).unwrap() < 3);
    }
}

#[test]
fn queue_add_pop_remove_get() {
    let mut q = ThreadQueue::new();
    for pid in [10u64, 11, 12] {
        q.add(Thread::new(pid, ENTRY, STACK0));
    }
    assert_eq!(q.pids(), vec![10, 11, 12]);
    assert_eq!(q.get_by_pid(12), Some(2));
    assert_eq!(q.get_by_pid(13), None);
    assert_eq!(q.get(1).get_pid(), 11);
    let t = q.remove(11).unwrap();
    assert_eq!(t.get_pid(), 11);
    assert!(q.remove(11).is_none());
    assert_eq!(q.pids(), vec![10, 12]);
    assert_eq!(q.pop().get_pid(), 10);
    assert_eq!(q.pids(), vec![12]);
}

#[test]
fn thread_new_builds_initial_frame() {
    let mut t = Thread::new(3, 0x1234, 0x4000);
    assert_eq!(t.get_pid(), 3);
    assert_eq!(t.stack_base(), 0x4000);
    let f = *t.ex_context();
    assert_eq!(f.gpr, [0u64; 30]);
    assert_eq!(f.lr, 0x1234);
    assert_eq!(f.elr_el1, 0x1234);
    assert_eq!(f.spsr_el1, 0x364);
    assert_eq!(f.esr_el1, 0);
    assert_eq!(f.sp_el0, 0x4000 + 8192);
    t.get_ex_context().lr = 5;
    assert_eq!(t.ex_context().lr, 5);
}

#[test]
fn store_then_restore_round_trip() {
    let live = frame_with(77);
    let mut t = Thread::new(1, ENTRY, STACK0);
    store_context(&live, t.get_ex_context());
    let mut other = frame_with(5000);
    other._res_sp = 99;
    store_context(t.ex_context(), &mut other);
    assert!(same_switched(&other, &live));
    assert_eq!(other._res_sp, 99);
    assert_eq!(t.ex_context()._res_sp, 0);
}

#[test]
fn spawn_hands_out_consecutive_pids() {
    let mut s = Scheduler::new();
    for i in 0..100 {
        assert_eq!(s.spawn(i % NUM_CORES, ENTRY, STACK0), Some(i as u64 + 1));
    }
    assert_eq!(s.run_queue(0).len(), 25);
}

#[test]
fn start_takes_head_even_after_later_spawns() {
    let mut s = Scheduler::new();
    s.spawn(2, ENTRY + 8, STACK0).unwrap();
    s.spawn(2, ENTRY, STACK0 + STACK_SIZE).unwrap();
    s.spawn(2, ENTRY, STACK0 + 2 * STACK_SIZE).unwrap();
    assert_eq!(s.start(2), 1);
    assert_eq!(s.current(2), Some(1));
    assert_eq!(s.run_queue(2).pids(), vec![1, 2, 3]);
}

#[test]
fn fill_run_queues_idle_first_then_workers() {
    let mut s = Scheduler::new();
    let workers = 2;
    let stacks: Vec<usize> = (0..NUM_CORES * (1 + workers)).map(|i| STACK0 + i * STACK_SIZE).collect();
    s.fill_run_queues(0x1000, 0x2000, workers, &stacks);
    // Idle threads get pids 1..=4, then core 0's workers 5, 6, core 1's 7, 8, ...
    assert_eq!(s.run_queue(0).pids(), vec![1, 5, 6]);
    assert_eq!(s.run_queue(1).pids(), vec![2, 7, 8]);
    assert_eq!(s.run_queue(3).pids(), vec![4, 11, 12]);
    assert_eq!(s.frame_mut(0, 1).elr_el1, 0x1000);
    assert_eq!(s.frame_mut(0, 1).sp_el0, (STACK0 + STACK_SIZE) as u64);
    assert_eq!(s.frame_mut(1, 8).elr_el1, 0x2000);
    // Worker 1 of core 1 has stack index NUM_CORES + 1 * workers + 1 = 7.
    assert_eq!(s.frame_mut(1, 8).sp_el0, (STACK0 + 8 * STACK_SIZE) as u64);
    assert_eq!(s.spawn(0, ENTRY, STACK0), Some(13));
}
