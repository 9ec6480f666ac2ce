use notification::error::{NotifyError, Op, Violation};
use notification::handle::{backend_of, decode, encode, Backend, SIGNAL_TAG};
use notification::interface::{Delivery, Notification, NotificationIf, Route};
use notification::signal::{Kill, SignalNotification};

fn drain(pool: &mut SignalNotification) -> Vec<u64> {
    let mut ids = Vec::new();
    while let Some(id) = pool.new_id() {
        ids.push(id);
    }
    ids
}

#[test]
fn three_slot_scenario() {
    let mut pool = SignalNotification::from_range(34, 36);
    assert_eq!(pool.size(), 3);
    let a = pool.new_id().unwrap();
    let b = pool.new_id().unwrap();
    let c = pool.new_id().unwrap();
    let mut got = vec![a, b, c];
    got.sort();
    assert_eq!(got, vec![34, 35, 36]);
    assert_eq!(pool.new_id(), None);
    pool.release_id(35);
    assert_eq!(pool.new_id(), Some(35));
    assert_eq!(pool.new_id(), None);
}

#[test]
fn exhaustion_of_linux_range() {
    let mut pool = SignalNotification::from_range(34, 64);
    let mut ids = drain(&mut pool);
    assert_eq!(ids.len(), 29);
    ids.sort();
    let expected: Vec<u64> = (34..=62).collect();
    assert_eq!(ids, expected);
    assert_eq!(pool.new_id(), None);
}

#[test]
fn undeliverable_and_nonpositive_numbers_are_left_out() {
    let mut pool = SignalNotification::from_range(-2, 3);
    let mut ids = drain(&mut pool);
    ids.sort();
    assert_eq!(ids, vec![1, 2, 3]);

    let mut pool = SignalNotification::from_range(60, 66);
    let mut ids = drain(&mut pool);
    ids.sort();
    assert_eq!(ids, vec![60, 61, 62, 65, 66]);
}

#[test]
fn empty_pool_allocates_nothing() {
    let mut pool = SignalNotification::from_range(40, 39);
    assert_eq!(pool.size(), 0);
    assert_eq!(pool.new_id(), None);
    let mut pool = SignalNotification::from_range(63, 64);
    assert_eq!(pool.new_id(), None);
}

#[test]
fn released_slot_is_reissued_within_one_sweep() {
    let mut pool = SignalNotification::from_range(34, 40);
    let ids = drain(&mut pool);
    assert_eq!(ids.len(), 7);
    for &h in &ids {
        pool.release_id(h);
        assert_eq!(pool.new_id(), Some(h));
    }
    pool.release_id(37);
    pool.release_id(34);
    let mut again = vec![pool.new_id().unwrap(), pool.new_id().unwrap()];
    again.sort();
    assert_eq!(again, vec![34, 37]);
}

#[test]
fn allocations_are_distinct() {
    let mut pool = SignalNotification::from_range(34, 50);
    let ids = drain(&mut pool);
    for i in 0..ids.len() {
        for j in i + 1..ids.len() {
            assert_ne!(ids[i], ids[j]);
        }
    }
}

#[test]
fn double_release_is_reported() {
    let mut pool = SignalNotification::from_range(34, 36);
    let id = pool.new_id().unwrap();
    assert_eq!(pool.check_release(id), Ok(()));
    pool.release_id(id);
    assert_eq!(
        pool.check_release(id),
        Err(NotifyError { kind: Violation::DoubleRelease, op: Op::Release, id })
    );
}

#[test]
fn unknown_signal_is_reported() {
    let mut pool = SignalNotification::from_range(34, 36);
    assert_eq!(
        pool.check_release(40),
        Err(NotifyError { kind: Violation::UnknownId, op: Op::Release, id: 40 })
    );
    assert_eq!(
        pool.check_id(Op::Wait, 33),
        Err(NotifyError { kind: Violation::UnknownId, op: Op::Wait, id: 33 })
    );
    assert_eq!(
        pool.check_id(Op::Notify, 63),
        Err(NotifyError { kind: Violation::UnknownId, op: Op::Notify, id: 63 })
    );
    assert_eq!(pool.check_id(Op::Wait, 35), Ok(35));
    assert_eq!(pool.wait_on(35), 35);
    assert_eq!(pool.notify(4242, 36), Kill { pid: 4242, signal: 36 });
}

#[test]
fn handle_codec_exact_values() {
    assert_eq!(encode(1, 34), 0x0100_0000_0000_0022);
    assert_eq!(encode(2, 0x1234), 0x0200_0000_0000_1234);
    assert_eq!(encode(1, 0xFF00_0000_0000_0001), 0x0100_0000_0000_0001);
    assert_eq!(decode(0x0100_0000_0000_0022), (1, 34));
    assert_eq!(decode(0xAB12_3456_789A_BCDE), (0xAB, 0x0012_3456_789A_BCDE));
    assert_eq!(decode(encode(SIGNAL_TAG, 0x00FF_FFFF_FFFF_FFFF)), (1, 0x00FF_FFFF_FFFF_FFFF));
    assert_eq!(backend_of(0x0100_0000_0000_0022), Some(Backend::Signal));
    assert_eq!(backend_of(0x0200_0000_0000_0005), Some(Backend::Interrupt));
    assert_eq!(backend_of(0x0300_0000_0000_0022), None);
    assert_eq!(backend_of(34), None);
}

#[test]
fn dispatcher_tags_signal_handles() {
    let mut n = Notification::with_signals(SignalNotification::from_range(34, 36));
    assert_eq!(n.new_id(), None);
    let mut handles = Vec::new();
    while let Some(h) = n.new_id_signal() {
        handles.push(h);
    }
    handles.sort();
    assert_eq!(
        handles,
        vec![0x0100_0000_0000_0022, 0x0100_0000_0000_0023, 0x0100_0000_0000_0024]
    );
    assert_eq!(n.route(Op::Wait, 0x0100_0000_0000_0022), Ok(Route::Signal(34)));
    assert_eq!(n.wait_on(0x0100_0000_0000_0022), Route::Signal(34));
    assert_eq!(
        n.notify(99, 0x0100_0000_0000_0022),
        Delivery::Signal(Kill { pid: 99, signal: 34 })
    );
    assert_eq!(n.check_release(0x0100_0000_0000_0023), Ok(Route::Signal(35)));
    assert_eq!(n.release_id(0x0100_0000_0000_0023), Route::Signal(35));
    assert_eq!(
        n.check_release(0x0100_0000_0000_0023),
        Err(NotifyError { kind: Violation::DoubleRelease, op: Op::Release, id: 0x0100_0000_0000_0023 })
    );
    assert_eq!(n.new_id_signal(), Some(0x0100_0000_0000_0023));
}

#[test]
fn dispatcher_rejects_unknown_tags() {
    let mut n = Notification::with_signals(SignalNotification::from_range(34, 36));
    let bad: u64 = 0x0300_0000_0000_0022;
    assert_eq!(n.route(Op::Wait, bad), Err(NotifyError { kind: Violation::UnknownTag, op: Op::Wait, id: bad }));
    assert_eq!(
        n.check_release(bad),
        Err(NotifyError { kind: Violation::UnknownTag, op: Op::Release, id: bad })
    );
    assert_eq!(
        n.route(Op::Notify, bad),
        Err(NotifyError { kind: Violation::UnknownTag, op: Op::Notify, id: bad })
    );
    assert_eq!(n.route(Op::Wait, 34), Err(NotifyError { kind: Violation::UnknownTag, op: Op::Wait, id: 34 }));
    let unknown_signal: u64 = 0x0100_0000_0000_0030;
    assert_eq!(
        n.route(Op::Wait, unknown_signal),
        Err(NotifyError { kind: Violation::UnknownId, op: Op::Wait, id: unknown_signal })
    );
}

#[test]
fn dispatcher_routes_interrupt_handles() {
    let mut n = Notification::with_signals(SignalNotification::from_range(34, 36));
    let h: u64 = 0x0200_0000_0000_0007;
    assert_eq!(n.route(Op::Wait, h), Ok(Route::Interrupt(7)));
    assert_eq!(n.wait_on(h), Route::Interrupt(7));
    assert_eq!(n.check_release(h), Ok(Route::Interrupt(7)));
    assert_eq!(n.release_id(h), Route::Interrupt(7));
    assert_eq!(n.notify(12, h), Delivery::Interrupt { process: 12, id: 7 });
}

#[test]
fn platform_pool_has_no_undeliverable_signal() {
    let mut pool = SignalNotification::new();
    let ids = drain(&mut pool);
    assert_eq!(ids.len(), pool.size());
    for id in ids {
        assert!(id >= 1 && id != 63 && id != 64);
    }
}

#[test]
fn allocation_follows_the_cursor() {
    let mut pool = SignalNotification::from_range(34, 36);
    assert_eq!(pool.new_id(), Some(34));
    assert_eq!(pool.new_id(), Some(35));
    assert_eq!(pool.new_id(), Some(36));
    assert_eq!(pool.new_id(), None);
    pool.release_id(35);
    assert_eq!(pool.new_id(), Some(35));
    pool.release_id(34);
    pool.release_id(36);
    assert_eq!(pool.new_id(), Some(36));
    assert_eq!(pool.new_id(), Some(34));
    assert_eq!(pool.new_id(), None);
}

#[test]
fn signal_backend_through_the_backend_trait() {
    let mut pool = SignalNotification::from_range(34, 35);
    assert_eq!(<SignalNotification as NotificationIf>::new_id(&mut pool), Some(34));
    assert_eq!(<SignalNotification as NotificationIf>::new_id(&mut pool), Some(35));
    assert_eq!(<SignalNotification as NotificationIf>::new_id(&mut pool), None);
    <SignalNotification as NotificationIf>::release_id(&mut pool, 34);
    assert_eq!(
        <SignalNotification as NotificationIf>::check_release(&pool, 34),
        Err(NotifyError { kind: Violation::DoubleRelease, op: Op::Release, id: 34 })
    );
    assert_eq!(
        <SignalNotification as NotificationIf>::check_release(&pool, 36),
        Err(NotifyError { kind: Violation::UnknownId, op: Op::Release, id: 36 })
    );
    assert_eq!(<SignalNotification as NotificationIf>::check_id(&pool, Op::Wait, 35), Ok(()));
    assert_eq!(
        <SignalNotification as NotificationIf>::check_id(&pool, Op::Notify, 33),
        Err(NotifyError { kind: Violation::UnknownId, op: Op::Notify, id: 33 })
    );
}
