//! Whole calls: what the engine does over a sequence of answers, and what
//! holds of every such sequence.

use vstd::prelude::*;
use crate::engine::{
    begin, bitset_of, command_of, key_type_of, low_word, next, private_key, runs, Action, Engine,
    Event, Stage,
};
use crate::error::FutexError;
use crate::flags::FUTEX_BITSET_MATCH_ANY;
use crate::futex::{FutexKey, FutexQ};
use crate::model::{kept, law_round_trip, reached, taken};
use crate::wake_op::WakeOp;

verus! {

/// `event` is a result that `action` can have. Of the waiters that come
/// back from the table this asks what every scan guarantees: no more than
/// the limit, and only waiters that the wake reaches.
pub open spec fn answers<T>(action: Action<T>, event: Event<T>) -> bool {
    match action {
        Action::Translate { .. } => event is Translated,
        Action::Load { .. } => event is Loaded,
        Action::CurrentProcess => event is Process,
        Action::CurrentTask => event is Task,
        Action::Enqueue { .. } => event is Enqueued,
        Action::Suspend => event is Resumed,
        Action::Take { key, bitset, limit } => event matches Event::Taken(waiters)
            && waiters.len() <= limit && forall|i: int|
            0 <= i < waiters.len() ==> reached(#[trigger] waiters[i], key, bitset),
        Action::Wake { .. } => event is Woken,
        Action::Move { .. } => event is Moved,
        Action::Update { .. } => event is Updated,
        Action::Done { .. } => false,
    }
}

/// Where a call stands after `events` have come in, one for each action in
/// turn, starting from `first`; `None` if one of them is no answer to the
/// action it came in for, or comes in when the call is over.
pub open spec fn after<T>(first: (Engine, Action<T>), events: Seq<Event<T>>) -> Option<
    (Engine, Action<T>),
>
    decreases events.len(),
{
    if events.len() == 0 {
        Some(first)
    } else {
        match after(first, events.drop_last()) {
            Some((engine, action)) => if answers(action, events.last()) {
                Some(next(engine, events.last()))
            } else {
                None
            },
            None => None,
        }
    }
}

/// How a call ends that goes through `events`, if it ends with them.
pub open spec fn outcome_after<T>(first: (Engine, Action<T>), events: Seq<Event<T>>) -> Option<
    Result<(), FutexError>,
> {
    match after(first, events) {
        Some((_, Action::Done { outcome })) => Some(outcome),
        _ => None,
    }
}

/// The engine has a key only for a private futex: from the moment it asks
/// who calls, the key type is private, and so it is when a call succeeds.
pub open spec fn keyed_private<T>(engine: Engine, action: Action<T>) -> bool {
    &&& !(engine.stage is Translate1 || engine.stage is Load || engine.stage is Translate2
        || engine.stage is Finished) ==> engine.typ is Private
    &&& action == (Action::<T>::Done { outcome: Ok(()) }) ==> engine.typ is Private
}

/// A step keeps `keyed_private`.
pub proof fn lemma_step_keyed_private<T>(engine: Engine, action: Action<T>, event: Event<T>)
    requires
        keyed_private(engine, action),
    ensures
        keyed_private(next(engine, event).0, next(engine, event).1),
        next(engine, event).0.typ == engine.typ,
{
}

/// Every state of a call keeps `keyed_private` and the key type it began with.
pub proof fn lemma_run_keyed_private<T>(
    uaddr: usize,
    futex_op: i32,
    val: u32,
    timeout: usize,
    uaddr2: usize,
    val3: u32,
    events: Seq<Event<T>>,
)
    ensures
        after(begin::<T>(uaddr, futex_op, val, timeout, uaddr2, val3), events) matches Some(
            (engine, action),
        ) ==> keyed_private(engine, action) && engine.typ == key_type_of(futex_op),
    decreases events.len(),
{
    let first = begin::<T>(uaddr, futex_op, val, timeout, uaddr2, val3);
    if events.len() > 0 {
        lemma_run_keyed_private::<T>(
            uaddr,
            futex_op,
            val,
            timeout,
            uaddr2,
            val3,
            events.drop_last(),
        );
        match after(first, events.drop_last()) {
            Some((engine, action)) => {
                lemma_step_keyed_private(engine, action, events.last());
            },
            None => {},
        }
    }
}

/// A call on a shared key never succeeds, whatever the host answers.
pub proof fn law_shared_key_fails<T>(
    uaddr: usize,
    futex_op: i32,
    val: u32,
    timeout: usize,
    uaddr2: usize,
    val3: u32,
    events: Seq<Event<T>>,
)
    requires
        key_type_of(futex_op) is Shared,
    ensures
        outcome_after(begin::<T>(uaddr, futex_op, val, timeout, uaddr2, val3), events) matches Some(
            outcome,
        ) ==> outcome is Err,
{
    lemma_run_keyed_private::<T>(uaddr, futex_op, val, timeout, uaddr2, val3, events);
}

/// A wait with a zero bitset is an invalid argument and nothing else: the
/// call ends before the engine asks for anything, so no waiter is queued.
pub proof fn law_zero_bitset_rejected<T>(
    uaddr: usize,
    futex_op: i32,
    val: u32,
    timeout: usize,
    uaddr2: usize,
    val3: u32,
    events: Seq<Event<T>>,
)
    requires
        command_of(futex_op) is Wait,
        bitset_of(futex_op, val3) == 0,
    ensures
        begin::<T>(uaddr, futex_op, val, timeout, uaddr2, val3).1 == (Action::<T>::Done {
            outcome: Err(FutexError::InvalidArgument),
        }),
        after(begin::<T>(uaddr, futex_op, val, timeout, uaddr2, val3), events) is Some
            ==> events.len() == 0,
    decreases events.len(),
{
    let first = begin::<T>(uaddr, futex_op, val, timeout, uaddr2, val3);
    if events.len() > 0 {
        law_zero_bitset_rejected::<T>(
            uaddr,
            futex_op,
            val,
            timeout,
            uaddr2,
            val3,
            events.drop_last(),
        );
        if events.len() == 1 {
            assert(after(first, events.drop_last()) == Some(first));
        }
    }
}

/// No step of any call queues a waiter with a zero bitset: the waiter that
/// the engine asks to be queued has the key of the first address in the
/// calling process, the bitset of the call, which is not zero, and the task
/// that the host named.
pub proof fn law_queued_waiter<T>(engine: Engine, task: Option<T>)
    ensures
        next(engine, Event::Task(task)).1 matches Action::Enqueue { waiter } ==> {
            &&& waiter.bitset() != 0
            &&& waiter.bitset() == engine.bitset
            &&& Ok::<FutexKey, FutexError>(waiter.key()) == engine.key1()
            &&& Some(waiter.task()) == task
        },
{
    if next(engine, Event::Task(task)).1 is Enqueue {
        FutexQ::new_fields(engine.key1()->Ok_0, engine.bitset, task->Some_0);
    }
}

/// A compare-and-requeue whose futex word does not hold the expected value
/// ends as a value mismatch, and has until then asked only for the
/// translation of the first address and for the word: it has not touched the
/// table.
pub proof fn law_compare_requeue_mismatch<T>(
    uaddr: usize,
    futex_op: i32,
    val: u32,
    timeout: usize,
    uaddr2: usize,
    val3: u32,
    addr: usize,
    word: u32,
)
    requires
        command_of(futex_op) is CompareRequeue,
        word != val3,
    ensures
        ({
            let first = begin::<T>(uaddr, futex_op, val, timeout, uaddr2, val3);
            let second = next::<T>(first.0, Event::Translated(Some(addr)));
            let third = next::<T>(second.0, Event::Loaded(word));
            &&& first.1 == Action::<T>::Translate { uaddr }
            &&& second.1 == Action::<T>::Load { addr }
            &&& third.1 == Action::<T>::Done { outcome: Err(FutexError::ValueMismatch) }
            &&& outcome_after(first, seq![Event::Translated(Some(addr)), Event::Loaded(word)])
                == Some(Err::<(), FutexError>(FutexError::ValueMismatch))
        }),
{
    let first = begin::<T>(uaddr, futex_op, val, timeout, uaddr2, val3);
    let e1 = Event::<T>::Translated(Some(addr));
    let e2 = Event::<T>::Loaded(word);
    let events = seq![e1, e2];
    assert(events.drop_last() =~= seq![e1]);
    assert(seq![e1].drop_last() =~= Seq::<Event<T>>::empty());
    assert(after(first, Seq::<Event<T>>::empty()) == Some(first));
    assert(after(first, seq![e1]) == Some(next(first.0, e1)));
}

/// A wake-op updates the word at the second address whoever was woken: once
/// the waiters are taken, the engine hands them to the host and then asks
/// for the update that the code and the operand name, and neither its state
/// nor that update depends on which waiters, or how many, were taken.
pub proof fn law_wake_op_updates<T>(
    engine: Engine,
    some: Vec<FutexQ<T>>,
    others: Vec<FutexQ<T>>,
)
    requires
        engine.cmd is WakeOp,
        engine.stage is Take,
    ensures
        next(engine, Event::Taken(some)) == engine.ask(Stage::Wake, Action::Wake { waiters: some }),
        next(engine, Event::Taken(some)).0 == next(engine, Event::Taken(others)).0,
        WakeOp::decode(engine.opcode, engine.val3) matches Ok(op) ==> next::<T>(
            next(engine, Event::Taken(some)).0,
            Event::Woken,
        ).1 == (Action::<T>::Update { addr: engine.addr2, op }),
        WakeOp::decode(engine.opcode, engine.val3) is Err ==> next::<T>(
            next(engine, Event::Taken(some)).0,
            Event::Woken,
        ).1 == (Action::<T>::Done { outcome: Err(FutexError::InvalidArgument) }),
{
}

/// A wait followed by a wake on the same address of the same process wakes
/// that waiter: the wait queues its task under the key that the wake then
/// scans for, and a wake with all bits set and a count of at least one takes
/// exactly that waiter out of a bucket that held no other waiter of the key,
/// and leaves the bucket as it was before the wait.
pub proof fn law_wait_then_wake<T>(
    wait: Engine,
    wake: Engine,
    task: T,
    pid: usize,
    bucket: Seq<FutexQ<T>>,
)
    requires
        wait.cmd is Wait && wait.stage is Task && wait.typ is Private && wait.bitset != 0,
        wake.cmd is Wake && wake.stage is Process && wake.typ is Private,
        wake.bitset == FUTEX_BITSET_MATCH_ANY && wake.val >= 1,
        wake.addr == wait.addr && pid == wait.pid,
        forall|i: int|
            0 <= i < bucket.len() ==> (#[trigger] bucket[i]).key() != private_key(
                wait.addr,
                wait.pid,
            ),
    ensures
        ({
            let queued = next(wait, Event::Task(Some(task))).1;
            let scan = next::<T>(wake, Event::Process(Some(pid))).1;
            &&& queued matches Action::Enqueue { waiter }
            &&& scan matches Action::Take { key, bitset, limit }
            &&& waiter.task() == task
            &&& taken(bucket.push(waiter), key, bitset, limit as nat) == seq![waiter]
            &&& kept(bucket.push(waiter), key, bitset, limit as nat) == bucket
        }),
{
    let key = private_key(wait.addr, wait.pid);
    let waiter = FutexQ::new(key, wait.bitset, task);
    FutexQ::new_fields(key, wait.bitset, task);
    law_round_trip(bucket, waiter, wake.val as nat);
}

/// A requeue moves every waiter of the first key to the second key however
/// many it was asked to wake first: it asks the table for up to `val`
/// waiters of the first key, which is none when `val` is zero, hands what
/// it got to the host, and then asks for the move.
pub proof fn law_requeue_moves<T>(engine: Engine, pid: usize, woken: Vec<FutexQ<T>>)
    requires
        engine.cmd is Requeue || engine.cmd is CompareRequeue,
        engine.stage is Process,
        engine.typ is Private,
    ensures
        ({
            let scan = next::<T>(engine, Event::Process(Some(pid)));
            let wake = next(scan.0, Event::Taken(woken));
            let shift = next::<T>(wake.0, Event::Woken);
            &&& scan.1 == Action::<T>::Take {
                key: private_key(engine.addr, pid as u64),
                bitset: engine.bitset,
                limit: engine.val as usize,
            }
            &&& wake.1 == Action::Wake { waiters: woken }
            &&& shift.1 == Action::<T>::Move {
                from: private_key(engine.addr, pid as u64),
                to: private_key(engine.addr2, pid as u64),
            }
            &&& next::<T>(shift.0, Event::Moved).1 == Action::<T>::Done { outcome: Ok(()) }
        }),
{
}

/// `action` is what the engine asks for when it enters `stage`.
pub open spec fn posed<T>(stage: Stage, action: Action<T>) -> bool {
    match stage {
        Stage::Translate1 => action is Translate,
        Stage::Translate2 => action is Translate,
        Stage::Load => action is Load,
        Stage::Process => action is CurrentProcess,
        Stage::Task => action is CurrentTask,
        Stage::Enqueue => action is Enqueue,
        Stage::Suspend => action is Suspend,
        Stage::Take => action is Take,
        Stage::Wake => action is Wake,
        Stage::Move => action is Move,
        Stage::Update => action is Update,
        Stage::Finished => action is Done,
    }
}

/// What holds of every state of a call whose events answer its actions: the
/// engine is in a stage of its operation or finished, asks what that stage
/// asks, waits only with a nonzero bitset, and has reported an invalid
/// argument only for a zero bitset on a wait or an unknown wake-op code, and
/// a retired operation only for the descriptor operation.
pub open spec fn orderly<T>(engine: Engine, action: Action<T>) -> bool {
    &&& runs(engine.cmd, engine.stage) || engine.stage is Finished
    &&& posed(engine.stage, action)
    &&& engine.cmd is Wait && !(engine.stage is Finished) ==> engine.bitset != 0
    &&& action == (Action::<T>::Done { outcome: Err(FutexError::InvalidArgument) }) ==> {
        ||| engine.cmd is Wait && engine.bitset == 0
        ||| engine.cmd is WakeOp && WakeOp::decode(engine.opcode, engine.val3) is Err
    }
    &&& action == (Action::<T>::Done { outcome: Err(FutexError::Disabled) }) ==> engine.cmd is Fd
}

/// A step on an answer keeps `orderly`, and changes nothing of what the
/// call was begun with.
pub proof fn lemma_step_orderly<T>(engine: Engine, action: Action<T>, event: Event<T>)
    requires
        orderly(engine, action),
        answers(action, event),
    ensures
        orderly(next(engine, event).0, next(engine, event).1),
        next(engine, event).0.cmd == engine.cmd,
        next(engine, event).0.bitset == engine.bitset,
        next(engine, event).0.opcode == engine.opcode,
        next(engine, event).0.val3 == engine.val3,
{
}

/// Every state of a call is `orderly`.
pub proof fn lemma_run_orderly<T>(
    uaddr: usize,
    futex_op: i32,
    val: u32,
    timeout: usize,
    uaddr2: usize,
    val3: u32,
    events: Seq<Event<T>>,
)
    ensures
        after(begin::<T>(uaddr, futex_op, val, timeout, uaddr2, val3), events) matches Some(
            (engine, action),
        ) ==> {
            &&& orderly(engine, action)
            &&& engine.cmd == command_of(futex_op)
            &&& engine.bitset == bitset_of(futex_op, val3)
            &&& engine.opcode == low_word(timeout)
            &&& engine.val3 == val3
        },
    decreases events.len(),
{
    let first = begin::<T>(uaddr, futex_op, val, timeout, uaddr2, val3);
    if events.len() > 0 {
        lemma_run_orderly::<T>(uaddr, futex_op, val, timeout, uaddr2, val3, events.drop_last());
        match after(first, events.drop_last()) {
            Some((engine, action)) => {
                if answers(action, events.last()) {
                    lemma_step_orderly(engine, action, events.last());
                }
            },
            None => {},
        }
    }
}

/// Where the errors that need no answer come from: a call ends as an
/// invalid argument only if it is a wait with a zero bitset or a wake-op
/// with an unknown code, and as a retired operation only if it is the
/// descriptor operation. An event that answers the action before it never
/// ends a call as an invalid argument otherwise.
pub proof fn law_error_origins<T>(
    uaddr: usize,
    futex_op: i32,
    val: u32,
    timeout: usize,
    uaddr2: usize,
    val3: u32,
    events: Seq<Event<T>>,
)
    ensures
        outcome_after(begin::<T>(uaddr, futex_op, val, timeout, uaddr2, val3), events) == Some(
            Err::<(), FutexError>(FutexError::InvalidArgument),
        ) ==> {
            ||| command_of(futex_op) is Wait && bitset_of(futex_op, val3) == 0
            ||| command_of(futex_op) is WakeOp && WakeOp::decode(low_word(timeout), val3) is Err
        },
        outcome_after(begin::<T>(uaddr, futex_op, val, timeout, uaddr2, val3), events) == Some(
            Err::<(), FutexError>(FutexError::Disabled),
        ) ==> command_of(futex_op) is Fd,
{
    lemma_run_orderly::<T>(uaddr, futex_op, val, timeout, uaddr2, val3, events);
}

/// The waiter is in the table before its task is suspended: the engine asks
/// for the suspension only as its answer to the news that the waiter has
/// been queued, and for nothing else then.
pub proof fn law_publish_then_suspend<T>(engine: Engine, event: Event<T>)
    ensures
        next(engine, event).1 is Suspend ==> engine.cmd is Wait && engine.stage is Enqueue
            && event is Enqueued,
        engine.cmd is Wait && engine.stage is Enqueue && event is Enqueued ==> next(
            engine,
            event,
        ).1 is Suspend,
        next(engine, event).1 is Enqueue ==> engine.cmd is Wait && engine.stage is Task,
{
}

/// `action` changes something outside the engine: the table, the word at
/// the second address, or whether a task runs.
pub open spec fn has_effect<T>(action: Action<T>) -> bool {
    action is Enqueue || action is Suspend || action is Take || action is Wake || action is Move
        || action is Update
}

/// No action of the call, up to and including the one it stands at after
/// `events`, has an effect.
pub open spec fn quiet<T>(first: (Engine, Action<T>), events: Seq<Event<T>>) -> bool
    decreases events.len(),
{
    &&& events.len() > 0 ==> quiet(first, events.drop_last())
    &&& after(first, events) matches Some((_, action)) ==> !has_effect(action)
}

/// The engine is in a stage that it enters by asking for an effect, or
/// follows one.
pub open spec fn effects_begun(stage: Stage) -> bool {
    stage is Enqueue || stage is Suspend || stage is Take || stage is Wake || stage is Move
        || stage is Update
}

/// A call stays quiet until it enters a stage with an effect, and from
/// there on ends in success or, for a wake-op with an unknown code, as an
/// invalid argument.
proof fn lemma_run_quiet<T>(
    uaddr: usize,
    futex_op: i32,
    val: u32,
    timeout: usize,
    uaddr2: usize,
    val3: u32,
    events: Seq<Event<T>>,
)
    ensures
        after(begin::<T>(uaddr, futex_op, val, timeout, uaddr2, val3), events) matches Some(
            (engine, action),
        ) ==> {
            ||| quiet(begin::<T>(uaddr, futex_op, val, timeout, uaddr2, val3), events)
                && !effects_begun(engine.stage)
            ||| effects_begun(engine.stage)
            ||| action == Action::<T>::Done { outcome: Ok(()) }
            ||| action == Action::<T>::Done { outcome: Err(FutexError::InvalidArgument) }
        },
    decreases events.len(),
{
    let first = begin::<T>(uaddr, futex_op, val, timeout, uaddr2, val3);
    if events.len() > 0 {
        let before = events.drop_last();
        lemma_run_quiet::<T>(uaddr, futex_op, val, timeout, uaddr2, val3, before);
        lemma_run_orderly::<T>(uaddr, futex_op, val, timeout, uaddr2, val3, before);
        lemma_run_keyed_private::<T>(uaddr, futex_op, val, timeout, uaddr2, val3, before);
    }
}

/// An error comes before any effect: a call that ends as an address error,
/// a value mismatch, an unsupported or a retired operation has asked for
/// nothing that changes the table, a futex word or the state of a task. Only
/// a wake-op with an unknown code fails after it has woken.
pub proof fn law_errors_come_before_effects<T>(
    uaddr: usize,
    futex_op: i32,
    val: u32,
    timeout: usize,
    uaddr2: usize,
    val3: u32,
    events: Seq<Event<T>>,
)
    ensures
        outcome_after(begin::<T>(uaddr, futex_op, val, timeout, uaddr2, val3), events) matches Some(
            Err(e),
        ) ==> {
            ||| quiet(begin::<T>(uaddr, futex_op, val, timeout, uaddr2, val3), events)
            ||| e == FutexError::InvalidArgument && command_of(futex_op) is WakeOp
        },
{
    lemma_run_quiet::<T>(uaddr, futex_op, val, timeout, uaddr2, val3, events);
    lemma_run_orderly::<T>(uaddr, futex_op, val, timeout, uaddr2, val3, events);
    if command_of(futex_op) is Wait && bitset_of(futex_op, val3) == 0 {
        law_zero_bitset_rejected::<T>(uaddr, futex_op, val, timeout, uaddr2, val3, events);
    }
}

/// A private key names one futex: two addresses in two processes have the
/// same key only if they are the same address in the same process.
pub proof fn law_private_key_identifies(addr1: usize, pid1: u64, addr2: usize, pid2: u64)
    ensures
        private_key(addr1, pid1) == private_key(addr2, pid2) <==> addr1 == addr2 && pid1 == pid2,
        private_key(addr1, pid1).page_aligned(),
{
}

} // verus!
