//! The futex call: the engine, run against a host and a table.

use vstd::prelude::*;
use crate::engine::{begin, key_type_of, rank, start, step, Action, Event};
use crate::error::{status_code, status_of};
use crate::run::{after, answers, law_shared_key_fails, outcome_after};
use crate::wake_op::WakeOp;
use crate::futex::FutexQ;
use crate::queue::FutexQueues;

verus! {

/// What the engine needs from the kernel around it. A kernel implements this
/// once; the engine makes no assumption about what the calls return.
pub trait Host {
    /// The handle by which the host knows a task.
    type Task;

    /// The kernel address behind a user address of the calling process;
    /// `None` if the address is not mapped.
    fn translate_address(&self, uaddr: usize) -> Option<usize>;

    /// The 32-bit word at a translated address, read atomically.
    fn load_word(&self, addr: usize) -> u32;

    /// Replaces the word at a translated address by `op.apply` of it, in one
    /// atomic step.
    fn update_word(&self, addr: usize, op: WakeOp);

    /// The calling process; `None` outside any task.
    fn current_process_id(&self) -> Option<usize>;

    /// The calling task; `None` outside any task.
    fn current_task(&self) -> Option<Self::Task>;

    /// Suspends the calling task until a wake makes it runnable again. A
    /// task that was made runnable before it got here returns at once.
    fn yield_current_task(&self);

    /// Makes the task of a waiter runnable. Does not block.
    fn wake_task(&self, waiter: &FutexQ<Self::Task>);
}

/// Does what the engine asked for and reports what came of it.
pub fn perform<H: Host>(host: &H, queues: &FutexQueues<H::Task>, action: Action<H::Task>) -> (event:
    Event<H::Task>)
    requires
        !(action is Done),
    ensures
        answers(action, event),
{
    match action {
        Action::Translate { uaddr } => Event::Translated(host.translate_address(uaddr)),
        Action::Load { addr } => Event::Loaded(host.load_word(addr)),
        Action::CurrentProcess => Event::Process(host.current_process_id()),
        Action::CurrentTask => Event::Task(host.current_task()),
        Action::Enqueue { waiter } => {
            queues.push(waiter);
            Event::Enqueued
        },
        Action::Suspend => {
            host.yield_current_task();
            Event::Resumed
        },
        Action::Take { key, bitset, limit } => Event::Taken(queues.wake_some(&key, bitset, limit)),
        Action::Wake { waiters } => {
            let mut i: usize = 0;
            while i < waiters.len()
                invariant
                    i <= waiters.len(),
                decreases waiters.len() - i,
            {
                host.wake_task(&waiters[i]);
                i += 1;
            }
            Event::Woken
        },
        Action::Move { from, to } => {
            queues.requeue(&from, &to);
            Event::Moved
        },
        Action::Update { addr, op } => {
            host.update_word(addr, op);
            Event::Updated
        },
        Action::Done { .. } => Event::Resumed,
    }
}

/// The futex call. Runs the engine from `start` to its end: each action is
/// performed on the host or the table, and its result handed back. Returns
/// zero for success and a negative status for an error.
///
/// The status is that of the outcome of a run of the engine: of `begin` on
/// the arguments, followed by one `next` for each result that the host and
/// the table gave. Where the engine needs no answer to decide (a zero bitset
/// on a wait, the retired descriptor operation, an unknown operation), the
/// status is the one that `begin` gives. A call on a shared key fails.
pub fn sys_futex<H: Host>(
    host: &H,
    queues: &FutexQueues<H::Task>,
    uaddr: usize,
    futex_op: i32,
    val: u32,
    timeout: usize,
    uaddr2: usize,
    val3: u32,
) -> (status: i32)
    ensures
        exists|events: Seq<Event<H::Task>>|
            (#[trigger] outcome_after(
                begin::<H::Task>(uaddr, futex_op, val, timeout, uaddr2, val3),
                events,
            )) matches Some(outcome) && status == status_of(outcome),
        begin::<H::Task>(uaddr, futex_op, val, timeout, uaddr2, val3).1 matches Action::Done {
            outcome,
        } ==> status == status_of(outcome),
        key_type_of(futex_op) is Shared ==> status < 0,
{
    let first = start::<H::Task>(uaddr, futex_op, val, timeout, uaddr2, val3);
    let ghost opening = first;
    let ghost mut log: Seq<Event<H::Task>> = Seq::empty();
    let mut engine = first.0;
    let mut action = first.1;
    loop
        invariant
            opening == begin::<H::Task>(uaddr, futex_op, val, timeout, uaddr2, val3),
            after(opening, log) == Some((engine, action)),
            log.len() == 0 ==> action == opening.1,
            opening.1 is Done ==> log.len() == 0,
            action is Done <==> engine.stage is Finished,
        decreases rank(engine.stage),
    {
        match action {
            Action::Done { outcome } => {
                proof {
                    assert(outcome_after(opening, log) == Some(outcome));
                    if key_type_of(futex_op) is Shared {
                        law_shared_key_fails::<H::Task>(
                            uaddr,
                            futex_op,
                            val,
                            timeout,
                            uaddr2,
                            val3,
                            log,
                        );
                    }
                }
                return status_code(outcome);
            },
            pending => {
                let event = perform(host, queues, pending);
                let next = step(engine, event);
                proof {
                    assert(log.push(event).drop_last() =~= log);
                    log = log.push(event);
                }
                engine = next.0;
                action = next.1;
            },
        }
    }
}

} // verus!
