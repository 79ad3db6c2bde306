//! The operation engine as a state machine.
//!
//! A futex call alternates between decisions and work that only the host or
//! the table can do: translating an address, reading the futex word, finding
//! out who calls, queueing, suspending, waking. The engine makes the
//! decisions. It hands out one [`Action`] at a time and takes the result back
//! as an [`Event`]; it touches neither memory nor the table itself. What it
//! asks for, and in which order, is therefore a matter of record: `start`
//! and `step` return exactly what `begin` and `next` say.

use vstd::prelude::*;
use crate::error::FutexError;
use crate::flags::{
    FUTEX_BITSET_MATCH_ANY, FUTEX_CMP_REQUEUE, FUTEX_FD, FUTEX_PRIVATE_FLAG, FUTEX_REQUEUE,
    FUTEX_WAIT, FUTEX_WAIT_BITSET, FUTEX_WAKE, FUTEX_WAKE_BITSET, FUTEX_WAKE_OP,
};
use crate::futex::{FutexKey, FutexQ, PrivateKey};
use crate::wake_op::WakeOp;

verus! {

/// Which kind of key a call works with.
#[derive(Clone, Copy, PartialEq, Eq, Debug, Structural)]
pub enum KeyType {
    Private,
    Shared,
}

/// The key of the futex at `addr` in the address space of process `pid`: the
/// address rounded down to its page, and what is left of it.
pub open spec fn private_key(addr: usize, pid: u64) -> FutexKey {
    FutexKey::Private(
        PrivateKey { pid, aligned: (addr - addr % 4096) as u64, offset: (addr % 4096) as u64 },
    )
}

/// The key of the futex at `addr`. A private key belongs to the calling
/// process; shared keys are not supported.
pub open spec fn spec_get_futex_key(addr: usize, typ: KeyType, pid: u64) -> Result<
    FutexKey,
    FutexError,
> {
    match typ {
        KeyType::Private => Ok(private_key(addr, pid)),
        KeyType::Shared => Err(FutexError::Unsupported),
    }
}

#[verifier::when_used_as_spec(spec_get_futex_key)]
pub fn get_futex_key(addr: usize, typ: KeyType, pid: u64) -> (key: Result<FutexKey, FutexError>)
    ensures
        key == get_futex_key(addr, typ, pid),
        key matches Ok(k) ==> k.page_aligned(),
{
    let aligned = (addr / 4096 * 4096) as u64;
    let offset = addr as u64 - aligned;
    match typ {
        KeyType::Private => Ok(FutexKey::Private(PrivateKey::new(pid, aligned, offset))),
        KeyType::Shared => Err(FutexError::Unsupported),
    }
}

/// The operation a call asks for.
#[derive(Clone, Copy, PartialEq, Eq, Debug, Structural)]
pub enum Command {
    Wait,
    Wake,
    Requeue,
    CompareRequeue,
    WakeOp,
    /// The retired descriptor operation.
    Fd,
    /// A code that names no operation of this engine.
    Unknown,
}

/// What the engine is waiting for.
#[derive(Clone, Copy, PartialEq, Eq, Debug, Structural)]
pub enum Stage {
    /// The translation of the first address.
    Translate1,
    /// The word at the first address.
    Load,
    /// The translation of the second address.
    Translate2,
    /// The calling process.
    Process,
    /// The calling task.
    Task,
    /// The waiter to be in its bucket.
    Enqueue,
    /// The calling task to be resumed.
    Suspend,
    /// The waiters taken out of the first key's bucket.
    Take,
    /// The taken waiters to be handed to the host.
    Wake,
    /// The remaining waiters to be moved to the second key.
    Move,
    /// The word at the second address to be updated.
    Update,
    /// Nothing: the call is over.
    Finished,
}

/// A call in progress.
#[derive(Clone, Copy, PartialEq, Eq, Debug, Structural)]
pub struct Engine {
    pub cmd: Command,
    pub typ: KeyType,
    pub stage: Stage,
    /// The value argument: the expected word of a wait, else the number of
    /// waiters to wake.
    pub val: u32,
    /// The third value argument: the expected word of a compare-and-requeue,
    /// the operand of a wake-op.
    pub val3: u32,
    /// The wake-op code, taken from the low half of the timeout argument.
    pub opcode: u32,
    /// The second address as the caller gave it.
    pub uaddr2: usize,
    /// The bits a waiter answers to (wait), or a wake must intersect.
    pub bitset: u32,
    /// The first address, translated.
    pub addr: usize,
    /// The second address, translated.
    pub addr2: usize,
    /// The calling process.
    pub pid: u64,
}

/// What the engine asks for next.
pub enum Action<T> {
    /// Translate a user address.
    Translate { uaddr: usize },
    /// Read the futex word at a translated address, atomically.
    Load { addr: usize },
    /// Name the calling process.
    CurrentProcess,
    /// Hand out the calling task.
    CurrentTask,
    /// Put the waiter into the table.
    Enqueue { waiter: FutexQ<T> },
    /// Suspend the calling task until it is woken.
    Suspend,
    /// Take up to `limit` waiters that match out of the table.
    Take { key: FutexKey, bitset: u32, limit: usize },
    /// Hand each waiter to the host to be made runnable.
    Wake { waiters: Vec<FutexQ<T>> },
    /// Move every waiter of `from` to `to`.
    Move { from: FutexKey, to: FutexKey },
    /// Update the word at a translated address, atomically.
    Update { addr: usize, op: WakeOp },
    /// Return to the caller.
    Done { outcome: Result<(), FutexError> },
}

/// What came of the last action.
pub enum Event<T> {
    Translated(Option<usize>),
    Loaded(u32),
    Process(Option<usize>),
    Task(Option<T>),
    Enqueued,
    Resumed,
    Taken(Vec<FutexQ<T>>),
    Woken,
    Moved,
    Updated,
}

/// The key type that the operation word selects.
pub open spec fn key_type_of(futex_op: i32) -> KeyType {
    if futex_op & FUTEX_PRIVATE_FLAG != 0 {
        KeyType::Private
    } else {
        KeyType::Shared
    }
}

/// The operation that the operation word names, the private flag aside.
pub open spec fn command_of(futex_op: i32) -> Command {
    let code = futex_op & !FUTEX_PRIVATE_FLAG;
    if code == FUTEX_WAIT || code == FUTEX_WAIT_BITSET {
        Command::Wait
    } else if code == FUTEX_WAKE || code == FUTEX_WAKE_BITSET {
        Command::Wake
    } else if code == FUTEX_REQUEUE {
        Command::Requeue
    } else if code == FUTEX_CMP_REQUEUE {
        Command::CompareRequeue
    } else if code == FUTEX_WAKE_OP {
        Command::WakeOp
    } else if code == FUTEX_FD {
        Command::Fd
    } else {
        Command::Unknown
    }
}

/// The bitset a call works with: the third value argument where the
/// operation takes one from the caller, else all bits.
pub open spec fn bitset_of(futex_op: i32, val3: u32) -> u32 {
    let code = futex_op & !FUTEX_PRIVATE_FLAG;
    if code == FUTEX_WAIT_BITSET || code == FUTEX_WAKE_BITSET {
        val3
    } else {
        FUTEX_BITSET_MATCH_ANY
    }
}

/// The low 32 bits of the timeout argument, which a wake-op reads as its code.
pub open spec fn spec_low_word(timeout: usize) -> u32 {
    timeout as u32
}

#[verifier::when_used_as_spec(spec_low_word)]
pub fn low_word(timeout: usize) -> (word: u32)
    ensures
        word == low_word(timeout),
{
    #[verifier::truncate]
    (timeout as u32)
}

/// The stages an operation goes through.
pub open spec fn runs(cmd: Command, stage: Stage) -> bool {
    match cmd {
        Command::Wait => stage is Translate1 || stage is Load || stage is Process || stage is Task
            || stage is Enqueue || stage is Suspend,
        Command::Wake => stage is Translate1 || stage is Process || stage is Take || stage is Wake,
        Command::Requeue => stage is Translate1 || stage is Translate2 || stage is Process
            || stage is Take || stage is Wake || stage is Move,
        Command::CompareRequeue => stage is Translate1 || stage is Load || stage is Translate2
            || stage is Process || stage is Take || stage is Wake || stage is Move,
        Command::WakeOp => stage is Translate1 || stage is Translate2 || stage is Process
            || stage is Take || stage is Wake || stage is Update,
        Command::Fd => false,
        Command::Unknown => false,
    }
}

/// How many answers the engine may still need, at most.
pub open spec fn rank(stage: Stage) -> nat {
    match stage {
        Stage::Translate1 => 7,
        Stage::Load => 6,
        Stage::Translate2 => 5,
        Stage::Process => 4,
        Stage::Task => 3,
        Stage::Take => 3,
        Stage::Enqueue => 2,
        Stage::Wake => 2,
        Stage::Suspend => 1,
        Stage::Move => 1,
        Stage::Update => 1,
        Stage::Finished => 0,
    }
}

impl Engine {
    /// The call ends with `outcome`.
    pub open spec fn halt<T>(self, outcome: Result<(), FutexError>) -> (Engine, Action<T>) {
        (Engine { stage: Stage::Finished, ..self }, Action::Done { outcome })
    }

    /// The call goes on to `stage` and asks for `action`.
    pub open spec fn ask<T>(self, stage: Stage, action: Action<T>) -> (Engine, Action<T>) {
        (Engine { stage, ..self }, action)
    }

    /// The call needs a key: it asks who calls, unless the key is shared.
    pub open spec fn want_key<T>(self) -> (Engine, Action<T>) {
        match self.typ {
            KeyType::Private => self.ask(Stage::Process, Action::CurrentProcess),
            KeyType::Shared => self.halt(Err(FutexError::Unsupported)),
        }
    }

    /// The word that the futex must hold for the call to go on.
    pub open spec fn expected(self) -> u32 {
        if self.cmd is Wait {
            self.val
        } else {
            self.val3
        }
    }

    /// The key of the first address.
    pub open spec fn key1(self) -> Result<FutexKey, FutexError> {
        get_futex_key(self.addr, self.typ, self.pid)
    }

    /// The key of the second address.
    pub open spec fn key2(self) -> Result<FutexKey, FutexError> {
        get_futex_key(self.addr2, self.typ, self.pid)
    }
}

/// The first step of a call: the engine's state and what it asks for first.
pub open spec fn begin<T>(
    uaddr: usize,
    futex_op: i32,
    val: u32,
    timeout: usize,
    uaddr2: usize,
    val3: u32,
) -> (Engine, Action<T>) {
    let engine = Engine {
        cmd: command_of(futex_op),
        typ: key_type_of(futex_op),
        stage: Stage::Translate1,
        val,
        val3,
        opcode: low_word(timeout),
        uaddr2,
        bitset: bitset_of(futex_op, val3),
        addr: 0,
        addr2: 0,
        pid: 0,
    };
    match engine.cmd {
        Command::Fd => engine.halt(Err(FutexError::Disabled)),
        Command::Unknown => engine.halt(Err(FutexError::Unsupported)),
        Command::Wait => if engine.bitset == 0 {
            engine.halt(Err(FutexError::InvalidArgument))
        } else {
            engine.ask(Stage::Translate1, Action::Translate { uaddr })
        },
        _ => engine.ask(Stage::Translate1, Action::Translate { uaddr }),
    }
}

/// The step the engine takes when `event` comes in: its next state and what
/// it asks for next. An event that does not answer what the engine asked
/// ends the call as an invalid argument.
pub open spec fn next<T>(engine: Engine, event: Event<T>) -> (Engine, Action<T>) {
    if !runs(engine.cmd, engine.stage) {
        engine.halt(Err(FutexError::InvalidArgument))
    } else {
        match (engine.stage, event) {
            (Stage::Translate1, Event::Translated(None)) => engine.halt(
                Err(FutexError::AddressError),
            ),
            (Stage::Translate1, Event::Translated(Some(addr))) => {
                let engine = Engine { addr, ..engine };
                match engine.cmd {
                    Command::Wait => engine.ask(Stage::Load, Action::Load { addr }),
                    Command::CompareRequeue => engine.ask(Stage::Load, Action::Load { addr }),
                    Command::Wake => engine.want_key(),
                    _ => engine.ask(Stage::Translate2, Action::Translate { uaddr: engine.uaddr2 }),
                }
            },
            (Stage::Load, Event::Loaded(word)) => {
                if word != engine.expected() {
                    engine.halt(Err(FutexError::ValueMismatch))
                } else if engine.cmd is Wait {
                    engine.want_key()
                } else {
                    engine.ask(Stage::Translate2, Action::Translate { uaddr: engine.uaddr2 })
                }
            },
            (Stage::Translate2, Event::Translated(None)) => engine.halt(
                Err(FutexError::AddressError),
            ),
            (Stage::Translate2, Event::Translated(Some(addr2))) => (Engine {
                addr2,
                ..engine
            }).want_key(),
            (Stage::Process, Event::Process(None)) => engine.halt(Err(FutexError::Unsupported)),
            (Stage::Process, Event::Process(Some(pid))) => {
                let engine = Engine { pid: pid as u64, ..engine };
                if engine.cmd is Wait {
                    engine.ask(Stage::Task, Action::CurrentTask)
                } else {
                    match engine.key1() {
                        Ok(key) => engine.ask(
                            Stage::Take,
                            Action::Take { key, bitset: engine.bitset, limit: engine.val as usize },
                        ),
                        Err(e) => engine.halt(Err(e)),
                    }
                }
            },
            (Stage::Task, Event::Task(None)) => engine.halt(Err(FutexError::Unsupported)),
            (Stage::Task, Event::Task(Some(task))) => {
                match engine.key1() {
                    Ok(key) => if engine.bitset == 0 {
                        engine.halt(Err(FutexError::InvalidArgument))
                    } else {
                        engine.ask(
                            Stage::Enqueue,
                            Action::Enqueue { waiter: FutexQ::new(key, engine.bitset, task) },
                        )
                    },
                    Err(e) => engine.halt(Err(e)),
                }
            },
            (Stage::Enqueue, Event::Enqueued) => engine.ask(Stage::Suspend, Action::Suspend),
            (Stage::Suspend, Event::Resumed) => engine.halt(Ok(())),
            (Stage::Take, Event::Taken(waiters)) => engine.ask(
                Stage::Wake,
                Action::Wake { waiters },
            ),
            (Stage::Wake, Event::Woken) => {
                match engine.cmd {
                    Command::Wake => engine.halt(Ok(())),
                    Command::WakeOp => match WakeOp::decode(engine.opcode, engine.val3) {
                        Ok(op) => engine.ask(
                            Stage::Update,
                            Action::Update { addr: engine.addr2, op },
                        ),
                        Err(e) => engine.halt(Err(e)),
                    },
                    _ => match (engine.key1(), engine.key2()) {
                        (Ok(from), Ok(to)) => engine.ask(Stage::Move, Action::Move { from, to }),
                        (Err(e), _) => engine.halt(Err(e)),
                        (_, Err(e)) => engine.halt(Err(e)),
                    },
                }
            },
            (Stage::Move, Event::Moved) => engine.halt(Ok(())),
            (Stage::Update, Event::Updated) => engine.halt(Ok(())),
            _ => engine.halt(Err(FutexError::InvalidArgument)),
        }
    }
}

impl Engine {
    fn finish<T>(self, outcome: Result<(), FutexError>) -> (step: (Engine, Action<T>))
        ensures
            step == self.halt::<T>(outcome),
    {
        (Engine { stage: Stage::Finished, ..self }, Action::Done { outcome })
    }

    fn resolve_key<T>(self) -> (step: (Engine, Action<T>))
        ensures
            step == self.want_key::<T>(),
    {
        match self.typ {
            KeyType::Private => (Engine { stage: Stage::Process, ..self }, Action::CurrentProcess),
            KeyType::Shared => self.finish(Err(FutexError::Unsupported)),
        }
    }

    fn second_address<T>(self) -> (step: (Engine, Action<T>))
        ensures
            step == self.ask::<T>(Stage::Translate2, Action::Translate { uaddr: self.uaddr2 }),
    {
        (Engine { stage: Stage::Translate2, ..self }, Action::Translate { uaddr: self.uaddr2 })
    }

    fn take_waiters<T>(self) -> (step: (Engine, Action<T>))
        ensures
            step == match self.key1() {
                Ok(key) => self.ask::<T>(
                    Stage::Take,
                    Action::Take { key, bitset: self.bitset, limit: self.val as usize },
                ),
                Err(e) => self.halt::<T>(Err(e)),
            },
    {
        match get_futex_key(self.addr, self.typ, self.pid) {
            Ok(key) => (
                Engine { stage: Stage::Take, ..self },
                Action::Take { key, bitset: self.bitset, limit: self.val as usize },
            ),
            Err(e) => self.finish(Err(e)),
        }
    }
}

/// Begins a call: decodes the operation word and says what to do first.
pub fn start<T>(uaddr: usize, futex_op: i32, val: u32, timeout: usize, uaddr2: usize, val3: u32) -> (first:
    (Engine, Action<T>))
    ensures
        first == begin::<T>(uaddr, futex_op, val, timeout, uaddr2, val3),
        first.1 is Done <==> first.0.stage is Finished,
{
    let typ = if futex_op & FUTEX_PRIVATE_FLAG != 0 {
        KeyType::Private
    } else {
        KeyType::Shared
    };
    let code = futex_op & !FUTEX_PRIVATE_FLAG;
    let (cmd, bitset) = if code == FUTEX_WAIT {
        (Command::Wait, FUTEX_BITSET_MATCH_ANY)
    } else if code == FUTEX_WAIT_BITSET {
        (Command::Wait, val3)
    } else if code == FUTEX_WAKE {
        (Command::Wake, FUTEX_BITSET_MATCH_ANY)
    } else if code == FUTEX_WAKE_BITSET {
        (Command::Wake, val3)
    } else if code == FUTEX_REQUEUE {
        (Command::Requeue, FUTEX_BITSET_MATCH_ANY)
    } else if code == FUTEX_CMP_REQUEUE {
        (Command::CompareRequeue, FUTEX_BITSET_MATCH_ANY)
    } else if code == FUTEX_WAKE_OP {
        (Command::WakeOp, FUTEX_BITSET_MATCH_ANY)
    } else if code == FUTEX_FD {
        (Command::Fd, FUTEX_BITSET_MATCH_ANY)
    } else {
        (Command::Unknown, FUTEX_BITSET_MATCH_ANY)
    };
    let engine = Engine {
        cmd,
        typ,
        stage: Stage::Translate1,
        val,
        val3,
        opcode: low_word(timeout),
        uaddr2,
        bitset,
        addr: 0,
        addr2: 0,
        pid: 0,
    };
    match cmd {
        Command::Fd => engine.finish(Err(FutexError::Disabled)),
        Command::Unknown => engine.finish(Err(FutexError::Unsupported)),
        Command::Wait => {
            if bitset == 0 {
                engine.finish(Err(FutexError::InvalidArgument))
            } else {
                (engine, Action::Translate { uaddr })
            }
        },
        _ => (engine, Action::Translate { uaddr }),
    }
}

/// Takes the answer to the engine's last action and says what to do next.
pub fn step<T>(engine: Engine, event: Event<T>) -> (step: (Engine, Action<T>))
    ensures
        step == next(engine, event),
        step.1 is Done <==> step.0.stage is Finished,
        rank(step.0.stage) < rank(engine.stage) || engine.stage is Finished,
{
    match engine.cmd {
        Command::Wait => futex_wait(engine, event),
        Command::Wake => futex_wake(engine, event),
        Command::Requeue => futex_requeue(engine, event),
        Command::CompareRequeue => futex_cmp_requeue(engine, event),
        Command::WakeOp => futex_wake_op(engine, event),
        _ => engine.finish(Err(FutexError::InvalidArgument)),
    }
}

/// A wait: checks the futex word against the expected value and, if it still
/// holds it, queues the calling task and then suspends it.
pub fn futex_wait<T>(engine: Engine, event: Event<T>) -> (step: (Engine, Action<T>))
    requires
        engine.cmd is Wait,
    ensures
        step == next(engine, event),
{
    match (engine.stage, event) {
        (Stage::Translate1, Event::Translated(Some(addr))) => (
            Engine { addr, stage: Stage::Load, ..engine },
            Action::Load { addr },
        ),
        (Stage::Translate1, Event::Translated(None)) => engine.finish(
            Err(FutexError::AddressError),
        ),
        (Stage::Load, Event::Loaded(word)) => {
            if word != engine.val {
                engine.finish(Err(FutexError::ValueMismatch))
            } else {
                engine.resolve_key()
            }
        },
        (Stage::Process, Event::Process(Some(pid))) => (
            Engine { pid: pid as u64, stage: Stage::Task, ..engine },
            Action::CurrentTask,
        ),
        (Stage::Process, Event::Process(None)) => engine.finish(Err(FutexError::Unsupported)),
        (Stage::Task, Event::Task(Some(task))) => {
            match get_futex_key(engine.addr, engine.typ, engine.pid) {
                Ok(key) => {
                    if engine.bitset == 0 {
                        engine.finish(Err(FutexError::InvalidArgument))
                    } else {
                        let waiter = FutexQ::new(key, engine.bitset, task);
                        (Engine { stage: Stage::Enqueue, ..engine }, Action::Enqueue { waiter })
                    }
                },
                Err(e) => engine.finish(Err(e)),
            }
        },
        (Stage::Task, Event::Task(None)) => engine.finish(Err(FutexError::Unsupported)),
        (Stage::Enqueue, Event::Enqueued) => (
            Engine { stage: Stage::Suspend, ..engine },
            Action::Suspend,
        ),
        (Stage::Suspend, Event::Resumed) => engine.finish(Ok(())),
        _ => engine.finish(Err(FutexError::InvalidArgument)),
    }
}

/// A wake: takes up to `val` waiters that the bitset reaches and hands them
/// to the host.
pub fn futex_wake<T>(engine: Engine, event: Event<T>) -> (step: (Engine, Action<T>))
    requires
        engine.cmd is Wake,
    ensures
        step == next(engine, event),
{
    match (engine.stage, event) {
        (Stage::Translate1, Event::Translated(Some(addr))) => (Engine {
            addr,
            ..engine
        }).resolve_key(),
        (Stage::Translate1, Event::Translated(None)) => engine.finish(
            Err(FutexError::AddressError),
        ),
        (Stage::Process, Event::Process(Some(pid))) => (Engine {
            pid: pid as u64,
            ..engine
        }).take_waiters(),
        (Stage::Process, Event::Process(None)) => engine.finish(Err(FutexError::Unsupported)),
        (Stage::Take, Event::Taken(waiters)) => (
            Engine { stage: Stage::Wake, ..engine },
            Action::Wake { waiters },
        ),
        (Stage::Wake, Event::Woken) => engine.finish(Ok(())),
        _ => engine.finish(Err(FutexError::InvalidArgument)),
    }
}

/// A requeue: translates both addresses, then wakes and moves.
pub fn futex_requeue<T>(engine: Engine, event: Event<T>) -> (step: (Engine, Action<T>))
    requires
        engine.cmd is Requeue,
    ensures
        step == next(engine, event),
{
    match (engine.stage, event) {
        (Stage::Translate1, Event::Translated(Some(addr))) => (Engine {
            addr,
            ..engine
        }).second_address(),
        (Stage::Translate1, Event::Translated(None)) => engine.finish(
            Err(FutexError::AddressError),
        ),
        (Stage::Translate1, _) => engine.finish(Err(FutexError::InvalidArgument)),
        (Stage::Load, _) => engine.finish(Err(FutexError::InvalidArgument)),
        (_, event) => requeue(engine, event),
    }
}

/// A compare-and-requeue: a requeue that goes ahead only if the word at the
/// first address holds `val3`; the check comes before anything else is done.
pub fn futex_cmp_requeue<T>(engine: Engine, event: Event<T>) -> (step: (Engine, Action<T>))
    requires
        engine.cmd is CompareRequeue,
    ensures
        step == next(engine, event),
{
    match (engine.stage, event) {
        (Stage::Translate1, Event::Translated(Some(addr))) => (
            Engine { addr, stage: Stage::Load, ..engine },
            Action::Load { addr },
        ),
        (Stage::Translate1, Event::Translated(None)) => engine.finish(
            Err(FutexError::AddressError),
        ),
        (Stage::Load, Event::Loaded(word)) => {
            if word != engine.val3 {
                engine.finish(Err(FutexError::ValueMismatch))
            } else {
                engine.second_address()
            }
        },
        (Stage::Translate1, _) => engine.finish(Err(FutexError::InvalidArgument)),
        (Stage::Load, _) => engine.finish(Err(FutexError::InvalidArgument)),
        (_, event) => requeue(engine, event),
    }
}

/// The part that both requeues share, from the second address on: wakes up
/// to `val` waiters of the first key, then moves the rest to the second key.
pub fn requeue<T>(engine: Engine, event: Event<T>) -> (step: (Engine, Action<T>))
    requires
        engine.cmd is Requeue || engine.cmd is CompareRequeue,
        !(engine.stage is Translate1),
        !(engine.stage is Load),
    ensures
        step == next(engine, event),
{
    match (engine.stage, event) {
        (Stage::Translate2, Event::Translated(Some(addr2))) => (Engine {
            addr2,
            ..engine
        }).resolve_key(),
        (Stage::Translate2, Event::Translated(None)) => engine.finish(
            Err(FutexError::AddressError),
        ),
        (Stage::Process, Event::Process(Some(pid))) => (Engine {
            pid: pid as u64,
            ..engine
        }).take_waiters(),
        (Stage::Process, Event::Process(None)) => engine.finish(Err(FutexError::Unsupported)),
        (Stage::Take, Event::Taken(waiters)) => (
            Engine { stage: Stage::Wake, ..engine },
            Action::Wake { waiters },
        ),
        (Stage::Wake, Event::Woken) => {
            match get_futex_key(engine.addr, engine.typ, engine.pid) {
                Ok(from) => match get_futex_key(engine.addr2, engine.typ, engine.pid) {
                    Ok(to) => (Engine { stage: Stage::Move, ..engine }, Action::Move { from, to }),
                    Err(e) => engine.finish(Err(e)),
                },
                Err(e) => engine.finish(Err(e)),
            }
        },
        (Stage::Move, Event::Moved) => engine.finish(Ok(())),
        _ => engine.finish(Err(FutexError::InvalidArgument)),
    }
}

/// A wake-op: wakes up to `val` waiters of the first key, then updates the
/// word at the second address, whether or not anyone was woken.
pub fn futex_wake_op<T>(engine: Engine, event: Event<T>) -> (step: (Engine, Action<T>))
    requires
        engine.cmd is WakeOp,
    ensures
        step == next(engine, event),
{
    match (engine.stage, event) {
        (Stage::Translate1, Event::Translated(Some(addr))) => (Engine {
            addr,
            ..engine
        }).second_address(),
        (Stage::Translate1, Event::Translated(None)) => engine.finish(
            Err(FutexError::AddressError),
        ),
        (Stage::Translate2, Event::Translated(Some(addr2))) => (Engine {
            addr2,
            ..engine
        }).resolve_key(),
        (Stage::Translate2, Event::Translated(None)) => engine.finish(
            Err(FutexError::AddressError),
        ),
        (Stage::Process, Event::Process(Some(pid))) => (Engine {
            pid: pid as u64,
            ..engine
        }).take_waiters(),
        (Stage::Process, Event::Process(None)) => engine.finish(Err(FutexError::Unsupported)),
        (Stage::Take, Event::Taken(waiters)) => (
            Engine { stage: Stage::Wake, ..engine },
            Action::Wake { waiters },
        ),
        (Stage::Wake, Event::Woken) => {
            match WakeOp::decode(engine.opcode, engine.val3) {
                Ok(op) => (
                    Engine { stage: Stage::Update, ..engine },
                    Action::Update { addr: engine.addr2, op },
                ),
                Err(e) => engine.finish(Err(e)),
            }
        },
        (Stage::Update, Event::Updated) => engine.finish(Ok(())),
        _ => engine.finish(Err(FutexError::InvalidArgument)),
    }
}

} // verus!
