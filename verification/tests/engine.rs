use futex::engine::{
    futex_cmp_requeue, futex_requeue, futex_wait, futex_wake, futex_wake_op, get_futex_key,
    low_word, requeue, start, step, Action, Command, Engine, Event, KeyType, Stage,
};
use futex::error::{status_code, FutexError};
use futex::wake_op::WakeOp;
use futex::flags::{
    FUTEX_BITSET_MATCH_ANY, FUTEX_CLOCK_REALTIME, FUTEX_CMP_REQUEUE, FUTEX_FD, FUTEX_LOCK_PI,
    FUTEX_OP_ADD, FUTEX_OP_ANDN, FUTEX_OP_OR, FUTEX_OP_SET, FUTEX_OP_XOR, FUTEX_PRIVATE_FLAG,
    FUTEX_REQUEUE, FUTEX_WAIT, FUTEX_WAIT_BITSET, FUTEX_WAKE, FUTEX_WAKE_BITSET, FUTEX_WAKE_OP,
};
use futex::futex::{FutexKey, FutexQ, PrivateKey};

fn private_key(addr: u64, pid: u64) -> FutexKey {
    FutexKey::Private(PrivateKey::new(pid, addr / 4096 * 4096, addr % 4096))
}

fn done<T>(action: &Action<T>) -> Option<Result<(), FutexError>> {
    match action {
        Action::Done { outcome } => Some(*outcome),
        _ => None,
    }
}

fn engine_at(cmd: Command, stage: Stage) -> Engine {
    Engine {
        cmd,
        typ: KeyType::Private,
        stage,
        val: 2,
        val3: 3,
        opcode: FUTEX_OP_ADD,
        uaddr2: 0x6000,
        bitset: FUTEX_BITSET_MATCH_ANY,
        addr: 0x1_5008,
        addr2: 0x1_6010,
        pid: 9,
    }
}

#[test]
fn error_codes() {
    assert_eq!(FutexError::AddressError.code(), -13);
    assert_eq!(FutexError::ValueMismatch.code(), -11);
    assert_eq!(FutexError::InvalidArgument.code(), -22);
    assert_eq!(FutexError::Unsupported.code(), -38);
    assert_eq!(FutexError::Disabled.code(), -11);
}

#[test]
fn status_code_is_zero_for_success_and_negative_for_errors() {
    assert_eq!(status_code(Ok(())), 0);
    assert_eq!(status_code(Err(FutexError::AddressError)), -13);
    assert_eq!(status_code(Err(FutexError::ValueMismatch)), -11);
    assert_eq!(status_code(Err(FutexError::InvalidArgument)), -22);
    assert_eq!(status_code(Err(FutexError::Unsupported)), -38);
    assert_eq!(status_code(Err(FutexError::Disabled)), -11);
}

#[test]
fn wake_op_add_of_three_to_five_is_eight() {
    assert_eq!(WakeOp::Add(3).apply(5), 8);
}

#[test]
fn wake_op_add_wraps() {
    assert_eq!(WakeOp::Add(2).apply(u32::MAX), 1);
    assert_eq!(WakeOp::Add(u32::MAX).apply(u32::MAX), u32::MAX - 1);
}

#[test]
fn wake_op_assign_or_andnot_xor() {
    assert_eq!(WakeOp::Assign(9).apply(5), 9);
    assert_eq!(WakeOp::Or(0b1010).apply(0b0110), 0b1110);
    assert_eq!(WakeOp::AndNot(0b1010).apply(0b0110), 0b0100);
    assert_eq!(WakeOp::Xor(0b1010).apply(0b0110), 0b1100);
}

#[test]
fn wake_op_decode_knows_five_codes() {
    assert_eq!(WakeOp::decode(FUTEX_OP_SET, 7), Ok(WakeOp::Assign(7)));
    assert_eq!(WakeOp::decode(FUTEX_OP_ADD, 7), Ok(WakeOp::Add(7)));
    assert_eq!(WakeOp::decode(FUTEX_OP_OR, 7), Ok(WakeOp::Or(7)));
    assert_eq!(WakeOp::decode(FUTEX_OP_ANDN, 7), Ok(WakeOp::AndNot(7)));
    assert_eq!(WakeOp::decode(FUTEX_OP_XOR, 7), Ok(WakeOp::Xor(7)));
}

#[test]
fn wake_op_decode_rejects_other_codes() {
    assert_eq!(WakeOp::decode(5, 7), Err(FutexError::InvalidArgument));
    assert_eq!(WakeOp::decode(u32::MAX, 7), Err(FutexError::InvalidArgument));
    assert_eq!(WakeOp::decode(0x8000_0001, 7), Err(FutexError::InvalidArgument));
}

#[test]
fn private_key_splits_the_address_at_the_page() {
    assert_eq!(
        get_futex_key(0x1_5008, KeyType::Private, 9),
        Ok(FutexKey::Private(PrivateKey::new(9, 0x1_5000, 8)))
    );
    assert_eq!(
        get_futex_key(4095, KeyType::Private, 1),
        Ok(FutexKey::Private(PrivateKey::new(1, 0, 4095)))
    );
    assert_eq!(
        get_futex_key(4096, KeyType::Private, 1),
        Ok(FutexKey::Private(PrivateKey::new(1, 4096, 0)))
    );
    assert_eq!(
        get_futex_key(0, KeyType::Private, 0),
        Ok(FutexKey::Private(PrivateKey::new(0, 0, 0)))
    );
    assert_eq!(
        get_futex_key(usize::MAX, KeyType::Private, 1),
        Ok(FutexKey::Private(PrivateKey::new(1, usize::MAX as u64 - 4095, 4095)))
    );
}

#[test]
fn shared_keys_are_unsupported() {
    assert_eq!(get_futex_key(0x1_5008, KeyType::Shared, 9), Err(FutexError::Unsupported));
}

#[test]
fn low_word_truncates() {
    assert_eq!(low_word(1), 1);
    assert_eq!(low_word(0xffff_ffff), 0xffff_ffff);
    assert_eq!(low_word(usize::MAX), u32::MAX);
    assert_eq!(low_word(0x1_0000_0004usize), 4);
}

#[test]
fn start_decodes_the_operation_word() {
    let (e, a) = start::<u32>(0x5008, FUTEX_WAIT | FUTEX_PRIVATE_FLAG, 7, 0, 0x6000, 0);
    assert_eq!(e.cmd, Command::Wait);
    assert_eq!(e.typ, KeyType::Private);
    assert_eq!(e.stage, Stage::Translate1);
    assert_eq!(e.bitset, FUTEX_BITSET_MATCH_ANY);
    assert_eq!(e.val, 7);
    assert_eq!(e.uaddr2, 0x6000);
    assert!(matches!(a, Action::Translate { uaddr: 0x5008 }));

    let (e, _) = start::<u32>(0x5008, FUTEX_WAKE, 7, 0, 0, 0);
    assert_eq!((e.cmd, e.typ), (Command::Wake, KeyType::Shared));
    let (e, _) = start::<u32>(0x5008, FUTEX_WAKE_BITSET | FUTEX_PRIVATE_FLAG, 7, 0, 0, 0b110);
    assert_eq!((e.cmd, e.bitset), (Command::Wake, 0b110));
    let (e, _) = start::<u32>(0x5008, FUTEX_WAIT_BITSET | FUTEX_PRIVATE_FLAG, 7, 0, 0, 0b110);
    assert_eq!((e.cmd, e.bitset), (Command::Wait, 0b110));
    let (e, _) = start::<u32>(0x5008, FUTEX_REQUEUE | FUTEX_PRIVATE_FLAG, 7, 0, 0, 5);
    assert_eq!((e.cmd, e.bitset), (Command::Requeue, FUTEX_BITSET_MATCH_ANY));
    let (e, _) = start::<u32>(0x5008, FUTEX_CMP_REQUEUE | FUTEX_PRIVATE_FLAG, 7, 0, 0, 5);
    assert_eq!((e.cmd, e.val3), (Command::CompareRequeue, 5));
    let (e, _) = start::<u32>(0x5008, FUTEX_WAKE_OP | FUTEX_PRIVATE_FLAG, 7, FUTEX_OP_XOR as usize, 0, 5);
    assert_eq!((e.cmd, e.opcode, e.val3), (Command::WakeOp, FUTEX_OP_XOR, 5));
}

#[test]
fn start_rejects_a_wait_with_a_zero_bitset() {
    let (e, a) = start::<u32>(0x5008, FUTEX_WAIT_BITSET | FUTEX_PRIVATE_FLAG, 7, 0, 0, 0);
    assert_eq!(e.stage, Stage::Finished);
    assert_eq!(done(&a), Some(Err(FutexError::InvalidArgument)));
    let (_, a) = start::<u32>(0x5008, FUTEX_WAIT_BITSET, 7, 0, 0, 0);
    assert_eq!(done(&a), Some(Err(FutexError::InvalidArgument)));
}

#[test]
fn start_lets_a_wake_with_a_zero_bitset_go_on() {
    let (e, a) = start::<u32>(0x5008, FUTEX_WAKE_BITSET | FUTEX_PRIVATE_FLAG, 7, 0, 0, 0);
    assert_eq!(e.stage, Stage::Translate1);
    assert!(matches!(a, Action::Translate { uaddr: 0x5008 }));
}

#[test]
fn start_reports_the_descriptor_operation_as_try_again() {
    let (e, a) = start::<u32>(0x5008, FUTEX_FD, 7, 0, 0, 0);
    assert_eq!(e.stage, Stage::Finished);
    assert_eq!(done(&a), Some(Err(FutexError::Disabled)));
    let (_, a) = start::<u32>(0x5008, FUTEX_FD | FUTEX_PRIVATE_FLAG, 7, 0, 0, 0);
    assert_eq!(done(&a), Some(Err(FutexError::Disabled)));
}

#[test]
fn start_reports_unknown_operations_as_unsupported() {
    for op in [FUTEX_LOCK_PI, 14, 100, -1, i32::MIN, FUTEX_WAIT | FUTEX_CLOCK_REALTIME] {
        let (e, a) = start::<u32>(0x5008, op, 7, 0, 0, 0);
        assert_eq!(e.stage, Stage::Finished);
        assert_eq!(done(&a), Some(Err(FutexError::Unsupported)));
    }
}

#[test]
fn wait_goes_through_its_stages_in_order() {
    let (e, a) = start::<u32>(0x5008, FUTEX_WAIT_BITSET | FUTEX_PRIVATE_FLAG, 7, 0, 0, 0b101);
    assert!(matches!(a, Action::Translate { uaddr: 0x5008 }));
    let (e, a) = step::<u32>(e, Event::Translated(Some(0x1_5008)));
    assert!(matches!(a, Action::Load { addr: 0x1_5008 }));
    assert_eq!(e.stage, Stage::Load);
    let (e, a) = step::<u32>(e, Event::Loaded(7));
    assert!(matches!(a, Action::CurrentProcess));
    let (e, a) = step::<u32>(e, Event::Process(Some(9)));
    assert!(matches!(a, Action::CurrentTask));
    let (e, a) = step::<u32>(e, Event::Task(Some(42u32)));
    match a {
        Action::Enqueue { waiter } => {
            assert_eq!(waiter.key(), private_key(0x1_5008, 9));
            assert_eq!(waiter.bitset(), 0b101);
            assert_eq!(*waiter.get_task(), 42);
        },
        _ => panic!("expected the waiter to be queued"),
    }
    assert_eq!(e.stage, Stage::Enqueue);
    let (e, a) = step::<u32>(e, Event::Enqueued);
    assert!(matches!(a, Action::Suspend));
    let (e, a) = step::<u32>(e, Event::Resumed);
    assert_eq!(done(&a), Some(Ok(())));
    assert_eq!(e.stage, Stage::Finished);
}

#[test]
fn wait_fails_on_an_untranslatable_address() {
    let (e, _) = start::<u32>(0x5008, FUTEX_WAIT | FUTEX_PRIVATE_FLAG, 7, 0, 0, 0);
    let (e, a) = step::<u32>(e, Event::Translated(None));
    assert_eq!(done(&a), Some(Err(FutexError::AddressError)));
    assert_eq!(e.stage, Stage::Finished);
}

#[test]
fn wait_fails_when_the_word_has_changed() {
    let (e, _) = start::<u32>(0x5008, FUTEX_WAIT | FUTEX_PRIVATE_FLAG, 7, 0, 0, 0);
    let (e, _) = step::<u32>(e, Event::Translated(Some(0x1_5008)));
    let (_, a) = step::<u32>(e, Event::Loaded(8));
    assert_eq!(done(&a), Some(Err(FutexError::ValueMismatch)));
}

#[test]
fn wait_on_a_shared_key_is_unsupported() {
    let (e, _) = start::<u32>(0x5008, FUTEX_WAIT, 7, 0, 0, 0);
    let (e, _) = step::<u32>(e, Event::Translated(Some(0x1_5008)));
    let (_, a) = step::<u32>(e, Event::Loaded(7));
    assert_eq!(done(&a), Some(Err(FutexError::Unsupported)));
}

#[test]
fn wait_outside_a_task_is_unsupported() {
    let (e, _) = start::<u32>(0x5008, FUTEX_WAIT | FUTEX_PRIVATE_FLAG, 7, 0, 0, 0);
    let (e, _) = step::<u32>(e, Event::Translated(Some(0x1_5008)));
    let (e, _) = step::<u32>(e, Event::Loaded(7));
    let (_, a) = step::<u32>(e, Event::Process(None));
    assert_eq!(done(&a), Some(Err(FutexError::Unsupported)));
    let (_, a) = step::<u32>(engine_at(Command::Wait, Stage::Task), Event::Task(None::<u32>));
    assert_eq!(done(&a), Some(Err(FutexError::Unsupported)));
}

#[test]
fn wake_takes_then_hands_over() {
    let (e, a) = start::<u32>(0x5008, FUTEX_WAKE_BITSET | FUTEX_PRIVATE_FLAG, 3, 0, 0, 0b10);
    assert!(matches!(a, Action::Translate { uaddr: 0x5008 }));
    let (e, a) = step::<u32>(e, Event::Translated(Some(0x1_5008)));
    assert!(matches!(a, Action::CurrentProcess));
    let (e, a) = step::<u32>(e, Event::Process(Some(9)));
    match a {
        Action::Take { key, bitset, limit } => {
            assert_eq!(key, private_key(0x1_5008, 9));
            assert_eq!(bitset, 0b10);
            assert_eq!(limit, 3);
        },
        _ => panic!("expected a scan of the table"),
    }
    let found = vec![FutexQ::new(private_key(0x1_5008, 9), 0b10, 1u32)];
    let (e, a) = step::<u32>(e, Event::Taken(found));
    match a {
        Action::Wake { waiters } => {
            assert_eq!(waiters.len(), 1);
            assert_eq!(*waiters[0].get_task(), 1);
        },
        _ => panic!("expected the waiters to be handed over"),
    }
    let (e, a) = step::<u32>(e, Event::Woken);
    assert_eq!(done(&a), Some(Ok(())));
    assert_eq!(e.stage, Stage::Finished);
}

#[test]
fn wake_fails_on_an_untranslatable_address() {
    let (e, _) = start::<u32>(0x5008, FUTEX_WAKE | FUTEX_PRIVATE_FLAG, 3, 0, 0, 0);
    let (_, a) = step::<u32>(e, Event::Translated(None));
    assert_eq!(done(&a), Some(Err(FutexError::AddressError)));
}

#[test]
fn requeue_translates_both_addresses_then_wakes_then_moves() {
    let (e, a) = start::<u32>(0x5008, FUTEX_REQUEUE | FUTEX_PRIVATE_FLAG, 0, 0, 0x6010, 0);
    assert!(matches!(a, Action::Translate { uaddr: 0x5008 }));
    let (e, a) = step::<u32>(e, Event::Translated(Some(0x1_5008)));
    assert!(matches!(a, Action::Translate { uaddr: 0x6010 }));
    let (e, a) = step::<u32>(e, Event::Translated(Some(0x1_6010)));
    assert!(matches!(a, Action::CurrentProcess));
    let (e, a) = step::<u32>(e, Event::Process(Some(9)));
    match a {
        Action::Take { key, bitset, limit } => {
            assert_eq!(key, private_key(0x1_5008, 9));
            assert_eq!(bitset, FUTEX_BITSET_MATCH_ANY);
            assert_eq!(limit, 0);
        },
        _ => panic!("expected a scan of the table"),
    }
    let (e, a) = step::<u32>(e, Event::Taken(Vec::new()));
    assert!(matches!(a, Action::Wake { .. }));
    let (e, a) = step::<u32>(e, Event::Woken);
    match a {
        Action::Move { from, to } => {
            assert_eq!(from, private_key(0x1_5008, 9));
            assert_eq!(to, private_key(0x1_6010, 9));
        },
        _ => panic!("expected the move"),
    }
    let (_, a) = step::<u32>(e, Event::Moved);
    assert_eq!(done(&a), Some(Ok(())));
}

#[test]
fn requeue_fails_on_either_untranslatable_address() {
    let (e, _) = start::<u32>(0x5008, FUTEX_REQUEUE | FUTEX_PRIVATE_FLAG, 0, 0, 0x6010, 0);
    let (_, a) = step::<u32>(e, Event::Translated(None));
    assert_eq!(done(&a), Some(Err(FutexError::AddressError)));
    let (e, _) = step::<u32>(e, Event::Translated(Some(0x1_5008)));
    let (_, a) = step::<u32>(e, Event::Translated(None::<usize>));
    assert_eq!(done::<u32>(&a), Some(Err(FutexError::AddressError)));
}

#[test]
fn compare_requeue_checks_the_word_before_anything_else() {
    let (e, _) = start::<u32>(0x5008, FUTEX_CMP_REQUEUE | FUTEX_PRIVATE_FLAG, 1, 0, 0x6010, 5);
    let (e, a) = step::<u32>(e, Event::Translated(Some(0x1_5008)));
    assert!(matches!(a, Action::Load { addr: 0x1_5008 }));
    let (_, a) = step::<u32>(e, Event::Loaded(6));
    assert_eq!(done::<u32>(&a), Some(Err(FutexError::ValueMismatch)));
    let (e, a) = step::<u32>(e, Event::Loaded(5));
    assert!(matches!(a, Action::<u32>::Translate { uaddr: 0x6010 }));
    let (e, a) = step::<u32>(e, Event::Translated(Some(0x1_6010)));
    assert!(matches!(a, Action::<u32>::CurrentProcess));
    let (e, a) = step::<u32>(e, Event::Process(Some(9)));
    assert!(matches!(a, Action::<u32>::Take { limit: 1, .. }));
    let (e, _) = step::<u32>(e, Event::Taken(Vec::<FutexQ<u32>>::new()));
    let (_, a) = step::<u32>(e, Event::Woken);
    assert!(matches!(a, Action::<u32>::Move { .. }));
}

#[test]
fn wake_op_updates_whoever_was_woken() {
    let run = |found: Vec<FutexQ<u32>>| {
        let (e, _) = start::<u32>(0x5008, FUTEX_WAKE_OP | FUTEX_PRIVATE_FLAG, 4, FUTEX_OP_ADD as usize, 0x6010, 3);
        let (e, _) = step::<u32>(e, Event::Translated(Some(0x1_5008)));
        let (e, _) = step::<u32>(e, Event::Translated(Some(0x1_6010)));
        let (e, _) = step::<u32>(e, Event::Process(Some(9)));
        let (e, _) = step::<u32>(e, Event::Taken(found));
        let (e, a) = step::<u32>(e, Event::Woken);
        match a {
            Action::Update { addr, op } => {
                assert_eq!(addr, 0x1_6010);
                assert_eq!(op, WakeOp::Add(3));
            },
            _ => panic!("expected the update"),
        }
        let (_, a) = step::<u32>(e, Event::Updated);
        assert_eq!(done::<u32>(&a), Some(Ok(())));
    };
    run(Vec::new());
    run(vec![FutexQ::new(private_key(0x1_5008, 9), 1, 1), FutexQ::new(private_key(0x1_5008, 9), 1, 2)]);
}

#[test]
fn wake_op_with_an_unknown_code_is_invalid_after_the_wake() {
    let (e, _) = start::<u32>(0x5008, FUTEX_WAKE_OP | FUTEX_PRIVATE_FLAG, 4, 9, 0x6010, 3);
    let (e, _) = step::<u32>(e, Event::Translated(Some(0x1_5008)));
    let (e, _) = step::<u32>(e, Event::Translated(Some(0x1_6010)));
    let (e, a) = step::<u32>(e, Event::Process(Some(9)));
    assert!(matches!(a, Action::Take { limit: 4, .. }));
    let (e, a) = step::<u32>(e, Event::Taken(Vec::new()));
    assert!(matches!(a, Action::Wake { .. }));
    let (_, a) = step::<u32>(e, Event::Woken);
    assert_eq!(done(&a), Some(Err(FutexError::InvalidArgument)));
}

#[test]
fn an_event_that_answers_nothing_ends_the_call() {
    let (e, _) = start::<u32>(0x5008, FUTEX_WAIT | FUTEX_PRIVATE_FLAG, 7, 0, 0, 0);
    let (e, a) = step::<u32>(e, Event::Loaded(7));
    assert_eq!(done(&a), Some(Err(FutexError::InvalidArgument)));
    assert_eq!(e.stage, Stage::Finished);
    let (e, a) = step::<u32>(e, Event::Translated(Some(1)));
    assert_eq!(done::<u32>(&a), Some(Err(FutexError::InvalidArgument)));
    assert_eq!(e.stage, Stage::Finished);
}

#[test]
fn each_operation_refuses_stages_that_are_not_its_own() {
    let (_, a) = futex_wait::<u32>(engine_at(Command::Wait, Stage::Take), Event::Taken(Vec::<FutexQ<u32>>::new()));
    assert_eq!(done(&a), Some(Err(FutexError::InvalidArgument)));
    let (_, a) = futex_wake::<u32>(engine_at(Command::Wake, Stage::Load), Event::<u32>::Loaded(2));
    assert_eq!(done(&a), Some(Err(FutexError::InvalidArgument)));
    let (_, a) = futex_requeue::<u32>(engine_at(Command::Requeue, Stage::Load), Event::<u32>::Loaded(3));
    assert_eq!(done(&a), Some(Err(FutexError::InvalidArgument)));
    let (_, a) = futex_cmp_requeue::<u32>(engine_at(Command::CompareRequeue, Stage::Update), Event::<u32>::Updated);
    assert_eq!(done(&a), Some(Err(FutexError::InvalidArgument)));
    let (_, a) = futex_wake_op::<u32>(engine_at(Command::WakeOp, Stage::Move), Event::<u32>::Moved);
    assert_eq!(done(&a), Some(Err(FutexError::InvalidArgument)));
    let (_, a) = requeue::<u32>(engine_at(Command::Requeue, Stage::Update), Event::<u32>::Updated);
    assert_eq!(done(&a), Some(Err(FutexError::InvalidArgument)));
}

#[test]
fn the_shared_part_of_the_requeues_moves_from_the_first_key_to_the_second() {
    let (e, a) = requeue::<u32>(engine_at(Command::CompareRequeue, Stage::Wake), Event::<u32>::Woken);
    assert_eq!(e.stage, Stage::Move);
    match a {
        Action::Move { from, to } => {
            assert_eq!(from, private_key(0x1_5008, 9));
            assert_eq!(to, private_key(0x1_6010, 9));
        },
        _ => panic!("expected the move"),
    }
}
