use usb_core::irq::{IrqDispatch, IrqTable, IRQHandle};
use usb_core::sched::{msleep, null_waker, EventChannel, SimpleWaiter, WakerToken};

#[test]
fn event_channel_posts_coalesce_and_sleep_consumes() {
    let mut ec = EventChannel::new();
    ec.post();
    ec.post();
    ec.sleep();
    ec.post();
    ec.sleep();
}

#[test]
fn waker_refcount_balances_clones_and_drops() {
    let mut w = SimpleWaiter::new(7);
    let h1 = w.raw_waker();
    assert_eq!(h1, WakerToken::Simple(7));
    let h2 = w.raw_waker();
    let h3 = w.raw_waker();
    // count-at-construction (0) + 3 clones - 1 drop = 2.
    w.drop_waker(h3);
    w.wake_by_ref(&h1);
    w.sleep();
    // wake = wake-by-ref + drop.
    w.wake(h2);
    w.sleep();
    w.drop_waker(h1);
    // The final drop observes zero and destruction is legal.
    w.finish();
}

#[test]
fn null_waker_compares_only_to_itself() {
    let n = null_waker();
    assert_eq!(n, WakerToken::Null);
    assert!(n.will_wake(&WakerToken::Null));
    assert!(!n.will_wake(&WakerToken::Simple(0)));
    assert!(WakerToken::Simple(3).will_wake(&WakerToken::Simple(3)));
    assert!(!WakerToken::Simple(3).will_wake(&WakerToken::Simple(4)));
}

#[test]
fn msleep_becomes_ready_at_its_deadline() {
    let s = msleep(100, 50);
    assert!(!s.poll(100));
    assert!(!s.poll(149));
    assert!(s.poll(150));
    assert!(s.poll(151));
}

#[test]
fn bind_gsi_rejects_out_of_range_and_double_binds() {
    let mut t = IrqTable::new(4);
    assert!(t.bind_gsi(4, 0x10, 0x20).is_err());
    let h = t.bind_gsi(2, 0x10, 0x20).expect("slot 2 is free");
    assert_eq!(h.gsi(), 2);
    assert!(t.bind_gsi(2, 0x30, 0x40).is_err());
    assert!(t.bind_gsi(3, 0x30, 0x40).is_ok());
}

#[test]
fn default_handle_is_the_sentinel() {
    let h = IRQHandle::default();
    assert_eq!(h.gsi(), u32::MAX);
}

#[test]
fn interrupt_dispatch_invokes_bound_handler() {
    let mut t = IrqTable::new(2);
    t.bind_gsi(1, 0xAA, 0xBB).unwrap();
    match t.interrupt_entry(1, 0) {
        IrqDispatch::Invoke(b) => {
            assert_eq!(b.handler, 0xAA);
            assert_eq!(b.info, 0xBB);
        }
        other => panic!("expected Invoke, got {:?}", other),
    }
    t.interrupt_exit(1, 0);
}

#[test]
fn unknown_and_unbound_interrupts_are_dropped_silently() {
    let mut t = IrqTable::new(2);
    assert_eq!(t.interrupt_entry(5, 0), IrqDispatch::OutOfRange);
    assert_eq!(t.interrupt_entry(0, 0), IrqDispatch::NoBinding);
}

#[test]
fn reentrant_delivery_on_the_same_cpu_is_dropped() {
    let mut t = IrqTable::new(1);
    t.bind_gsi(0, 0x1, 0x2).unwrap();
    // First delivery on CPU A runs the handler with the slot lock held.
    assert!(matches!(t.interrupt_entry(0, 0), IrqDispatch::Invoke(_)));
    // The controller re-asserts before the handler returns: the second
    // entry on the same CPU finds the lock held and drops the IRQ.
    assert_eq!(t.interrupt_entry(0, 0), IrqDispatch::Dropped);
    t.interrupt_exit(0, 0);
    // After the handler returned, delivery works again.
    assert!(matches!(t.interrupt_entry(0, 0), IrqDispatch::Invoke(_)));
    t.interrupt_exit(0, 0);
}
