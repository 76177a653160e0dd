use usb_core::ohci::{Endpoint, GeneralTD, Hcca, Regs};
use usb_core::ohci::{HCCMDSTATUS_BLF, HCCMDSTATUS_CLF, HCCMDSTATUS_HCR, HCCMDSTATUS_OCR};
use usb_core::sched::{null_waker, WakerToken};

#[test]
fn td_allocation_is_exclusive() {
    let mut td = GeneralTD::new();
    assert!(td.maybe_alloc());
    // The 0 -> ALLOCATED transition can be observed only once.
    assert!(!td.maybe_alloc());
    assert!(!td.maybe_alloc());
}

#[test]
fn td_autofree_lifecycle_returns_to_pool() {
    let mut td = GeneralTD::new();
    assert!(td.maybe_alloc());
    td.init(GeneralTD::FLAG_AUTOFREE, 0x1000, 0x13FF, 0, null_waker());
    // Hardware consumed the buffer and the IRQ path marks completion.
    td.hw_writeback(0);
    assert!(td.mark_complete(), "prior flags carried AUTOFREE");
    td.mark_free();
    // Back in the pool: the descriptor can be claimed again.
    assert!(td.maybe_alloc());
}

#[test]
fn td_without_autofree_stays_claimed() {
    let mut td = GeneralTD::new();
    assert!(td.maybe_alloc());
    td.init(0, 0x2000, 0x20FF, 0x3000, null_waker());
    assert_eq!(td.get_next(), 0x3000);
    assert!(!td.mark_complete());
    assert!(!td.maybe_alloc());
}

#[test]
fn is_complete_reports_unused_bytes() {
    // In flight: no completion yet.
    let mut td = GeneralTD::new();
    assert!(td.maybe_alloc());
    td.init(0, 0x1000, 0x1FFF, 0, null_waker());
    assert_eq!(td.is_complete(), None);

    // Fully consumed: the controller wrote zero to the pointer.
    td.hw_writeback(0);
    td.mark_complete();
    assert_eq!(td.is_complete(), Some(0));

    // Same page: plain difference plus one.
    let mut td2 = GeneralTD::new();
    assert!(td2.maybe_alloc());
    td2.init(0, 0x1100, 0x1FFF, 0, null_waker());
    td2.mark_complete();
    assert_eq!(td2.is_complete(), Some(0xF00));

    // Two-page span: remainder of the first page plus the offset into
    // the last page, plus one.
    let mut td3 = GeneralTD::new();
    assert!(td3.maybe_alloc());
    td3.init(0, 0x1F00, 0x20FF, 0, null_waker());
    td3.mark_complete();
    assert_eq!(td3.is_complete(), Some(0x100 + 0xFF + 1));
}

#[test]
fn unused_bytes_never_exceed_the_original_span() {
    let mut td = GeneralTD::new();
    assert!(td.maybe_alloc());
    td.init(0, 0x1100, 0x1FFF, 0, null_waker());
    let span = 0x1FFF - 0x1100 + 1;
    // The pointer only moves forward, so the report can only shrink.
    td.hw_writeback(0x1800);
    td.mark_complete();
    let unused = td.is_complete().unwrap();
    assert!(unused <= span);
    assert_eq!(unused, 0x1FFF - 0x1800 + 1);
}

#[test]
fn waker_slot_swaps_without_tearing() {
    let mut td = GeneralTD::new();
    assert!(td.maybe_alloc());
    let w1 = WakerToken::Simple(1);
    let w2 = WakerToken::Simple(2);
    td.init(0, 0, 0, 0, w1);
    // The IRQ path takes the stored waker and leaves the null waker.
    assert_eq!(td.take_waker(), w1);
    assert_eq!(td.take_waker(), WakerToken::Null);
    // A later poll installs a new waker; only W1 and W2 are ever seen.
    td.update_waker(&w2);
    assert_eq!(td.take_waker(), w2);
}

#[test]
fn update_waker_keeps_an_equal_waker() {
    let mut td = GeneralTD::new();
    let w = WakerToken::Simple(9);
    td.update_waker(&w);
    td.update_waker(&w);
    assert_eq!(td.take_waker(), w);
}

#[test]
fn command_status_bits_are_distinct_powers_of_two() {
    assert_eq!(HCCMDSTATUS_HCR, 1);
    assert_eq!(HCCMDSTATUS_CLF, 2);
    assert_eq!(HCCMDSTATUS_BLF, 4);
    assert_eq!(HCCMDSTATUS_OCR, 8);
}

#[test]
fn register_indices_follow_the_bank_order() {
    assert_eq!(Regs::HcRevision.index(), 0);
    assert_eq!(Regs::HcCommandStatus.index(), 2);
    assert_eq!(Regs::HcDoneHead.index(), 12);
    assert_eq!(Regs::HcRhDescriptorA.index(), 18);
    assert_eq!(Regs::HcRhPortStatus0.index(), 21);
    assert_eq!(Regs::HcRhPortStatus15.index(), 36);
}

#[test]
fn hcca_starts_zeroed() {
    let h = Hcca::new();
    assert_eq!(h.frame_number, 0);
    assert_eq!(h.done_head, 0);
    assert!(h.interrupt_table.iter().all(|&w| w == 0));
}

#[test]
fn endpoint_descriptor_alloc_and_lock_bits() {
    let mut ed = Endpoint { flags: 0, tail_ptr: 1, head_ptr: 2, next_ed: 3 };
    assert!(ed.try_alloc());
    assert!(!ed.try_alloc());
    assert_eq!(ed.flags, Endpoint::FLAG_ALLOC);
    assert!(ed.try_lock());
    assert!(!ed.try_lock());
    ed.unlock();
    assert!(ed.try_lock());
    // The hardware-visible words are untouched throughout.
    assert_eq!((ed.tail_ptr, ed.head_ptr, ed.next_ed), (1, 2, 3));
}
