//! OHCI hardware structures: register indices, the communication area,
//! endpoint descriptors and general transfer descriptors.
//!
//! A transfer descriptor's `flags` word is control word and lock at
//! once: software-only bits in positions the hardware ignores carry the
//! allocation lifecycle `0 -> ALLOCATED -> ALLOCATED|INIT -> ... -> 0`,
//! the completion mark, and the waker-slot lock. The model keeps the
//! word as a plain integer and states every transition exactly; the
//! atomicity of the real accesses is the embedder's concern.

use vstd::prelude::*;
use crate::sched::WakerToken;
use crate::sched::null_waker;

verus! {

/// The OHCI operational registers, in bank order starting at
/// `HcRevision`.
#[derive(Clone, Copy, Debug, PartialEq, Eq, Structural)]
#[allow(missing_docs)]
pub enum Regs {
    HcRevision,
    HcControl,
    HcCommandStatus,
    HcInterruptStatus,
    HcInterruptEnable,
    HcInterruptDisable,
    HcHCCA,
    HcPeriodCurrentED,
    HcControlHeadED,
    HcControlCurrentED,
    HcBulkHeadED,
    HcBulkCurrentED,
    HcDoneHead,
    HcFmInterval,
    HcFmRemaining,
    HcFmNumber,
    HcPeriodicStart,
    HcLSThreshold,
    HcRhDescriptorA,
    HcRhDescriptorB,
    HcRhStatus,
    HcRhPortStatus0,
    HcRhPortStatus1,
    HcRhPortStatus2,
    HcRhPortStatus3,
    HcRhPortStatus4,
    HcRhPortStatus5,
    HcRhPortStatus6,
    HcRhPortStatus7,
    HcRhPortStatus8,
    HcRhPortStatus9,
    HcRhPortStatus10,
    HcRhPortStatus11,
    HcRhPortStatus12,
    HcRhPortStatus13,
    HcRhPortStatus14,
    HcRhPortStatus15,
}

/// Index of a register in the 32-bit register bank.
pub open spec fn spec_reg_index(r: Regs) -> int {
    match r {
        Regs::HcRevision => 0,
        Regs::HcControl => 1,
        Regs::HcCommandStatus => 2,
        Regs::HcInterruptStatus => 3,
        Regs::HcInterruptEnable => 4,
        Regs::HcInterruptDisable => 5,
        Regs::HcHCCA => 6,
        Regs::HcPeriodCurrentED => 7,
        Regs::HcControlHeadED => 8,
        Regs::HcControlCurrentED => 9,
        Regs::HcBulkHeadED => 10,
        Regs::HcBulkCurrentED => 11,
        Regs::HcDoneHead => 12,
        Regs::HcFmInterval => 13,
        Regs::HcFmRemaining => 14,
        Regs::HcFmNumber => 15,
        Regs::HcPeriodicStart => 16,
        Regs::HcLSThreshold => 17,
        Regs::HcRhDescriptorA => 18,
        Regs::HcRhDescriptorB => 19,
        Regs::HcRhStatus => 20,
        Regs::HcRhPortStatus0 => 21,
        Regs::HcRhPortStatus1 => 22,
        Regs::HcRhPortStatus2 => 23,
        Regs::HcRhPortStatus3 => 24,
        Regs::HcRhPortStatus4 => 25,
        Regs::HcRhPortStatus5 => 26,
        Regs::HcRhPortStatus6 => 27,
        Regs::HcRhPortStatus7 => 28,
        Regs::HcRhPortStatus8 => 29,
        Regs::HcRhPortStatus9 => 30,
        Regs::HcRhPortStatus10 => 31,
        Regs::HcRhPortStatus11 => 32,
        Regs::HcRhPortStatus12 => 33,
        Regs::HcRhPortStatus13 => 34,
        Regs::HcRhPortStatus14 => 35,
        Regs::HcRhPortStatus15 => 36,
    }
}

impl Regs {
    /// Index of this register in the 32-bit register bank.
    pub fn index(&self) -> (r: usize)
        ensures
            r == spec_reg_index(*self),
    {
        match *self {
            Regs::HcRevision => 0,
            Regs::HcControl => 1,
            Regs::HcCommandStatus => 2,
            Regs::HcInterruptStatus => 3,
            Regs::HcInterruptEnable => 4,
            Regs::HcInterruptDisable => 5,
            Regs::HcHCCA => 6,
            Regs::HcPeriodCurrentED => 7,
            Regs::HcControlHeadED => 8,
            Regs::HcControlCurrentED => 9,
            Regs::HcBulkHeadED => 10,
            Regs::HcBulkCurrentED => 11,
            Regs::HcDoneHead => 12,
            Regs::HcFmInterval => 13,
            Regs::HcFmRemaining => 14,
            Regs::HcFmNumber => 15,
            Regs::HcPeriodicStart => 16,
            Regs::HcLSThreshold => 17,
            Regs::HcRhDescriptorA => 18,
            Regs::HcRhDescriptorB => 19,
            Regs::HcRhStatus => 20,
            Regs::HcRhPortStatus0 => 21,
            Regs::HcRhPortStatus1 => 22,
            Regs::HcRhPortStatus2 => 23,
            Regs::HcRhPortStatus3 => 24,
            Regs::HcRhPortStatus4 => 25,
            Regs::HcRhPortStatus5 => 26,
            Regs::HcRhPortStatus6 => 27,
            Regs::HcRhPortStatus7 => 28,
            Regs::HcRhPortStatus8 => 29,
            Regs::HcRhPortStatus9 => 30,
            Regs::HcRhPortStatus10 => 31,
            Regs::HcRhPortStatus11 => 32,
            Regs::HcRhPortStatus12 => 33,
            Regs::HcRhPortStatus13 => 34,
            Regs::HcRhPortStatus14 => 35,
            Regs::HcRhPortStatus15 => 36,
        }
    }
}

/// `HcCommandStatus` bit: host controller reset.
pub const HCCMDSTATUS_HCR: u32 = 1;

/// `HcCommandStatus` bit: control list filled.
pub const HCCMDSTATUS_CLF: u32 = 2;

/// `HcCommandStatus` bit: bulk list filled.
pub const HCCMDSTATUS_BLF: u32 = 4;

/// `HcCommandStatus` bit: ownership change request.
pub const HCCMDSTATUS_OCR: u32 = 8;

/// Host Controller Communication Area: the 256-byte DMA block the
/// controller writes status into. 32 interrupt-table entries, the frame
/// number, the done-head pointer, and reserved space.
pub struct Hcca {
    pub interrupt_table: [u32; 32],
    pub frame_number: u16,
    pub pad1: u16,
    pub done_head: u32,
    pub reserved: [u32; 29],
}

impl Hcca {
    /// A zeroed communication area, as handed to the controller at
    /// bring-up.
    pub fn new() -> (r: Hcca)
        ensures
            forall|i: int| 0 <= i < 32 ==> r.interrupt_table@[i] == 0,
            r.frame_number == 0,
            r.done_head == 0,
    {
        Hcca {
            interrupt_table: [0u32; 32],
            frame_number: 0,
            pad1: 0,
            done_head: 0,
            reserved: [0u32; 29],
        }
    }
}

/// An OHCI endpoint descriptor: the 16-byte record the controller walks.
/// Bits 30 and 31 of `flags` are ignored by the hardware and are used by
/// software as the allocation and lock bits of the ED pool.
#[derive(Clone, Copy, Debug, PartialEq, Eq, Structural)]
pub struct Endpoint {
    pub flags: u32,
    pub tail_ptr: u32,
    pub head_ptr: u32,
    pub next_ed: u32,
}

impl Endpoint {
    /// Software lock bit (hardware-ignored position).
    pub const FLAG_LOCKED: u32 = 0x8000_0000;

    /// Software allocation bit (hardware-ignored position).
    pub const FLAG_ALLOC: u32 = 0x4000_0000;

    /// Claim this descriptor from the ED pool: succeeds exactly when the
    /// allocation bit was clear, and touches nothing but that bit.
    pub fn try_alloc(&mut self) -> (r: bool)
        ensures
            r == (old(self).flags & Self::FLAG_ALLOC == 0),
            r ==> final(self).flags == old(self).flags | Self::FLAG_ALLOC,
            !r ==> *final(self) == *old(self),
            final(self).tail_ptr == old(self).tail_ptr,
            final(self).head_ptr == old(self).head_ptr,
            final(self).next_ed == old(self).next_ed,
    {
        if self.flags & Self::FLAG_ALLOC == 0 {
            self.flags = self.flags | Self::FLAG_ALLOC;
            true
        } else {
            false
        }
    }

    /// Take the link-editing lock: succeeds exactly when the lock bit
    /// was clear, and touches nothing but that bit.
    pub fn try_lock(&mut self) -> (r: bool)
        ensures
            r == (old(self).flags & Self::FLAG_LOCKED == 0),
            r ==> final(self).flags == old(self).flags | Self::FLAG_LOCKED,
            !r ==> *final(self) == *old(self),
            final(self).tail_ptr == old(self).tail_ptr,
            final(self).head_ptr == old(self).head_ptr,
            final(self).next_ed == old(self).next_ed,
    {
        if self.flags & Self::FLAG_LOCKED == 0 {
            self.flags = self.flags | Self::FLAG_LOCKED;
            true
        } else {
            false
        }
    }

    /// Release the link-editing lock.
    pub fn unlock(&mut self)
        requires
            old(self).flags & Self::FLAG_LOCKED != 0,
        ensures
            final(self).flags == old(self).flags & !Self::FLAG_LOCKED,
            final(self).tail_ptr == old(self).tail_ptr,
            final(self).head_ptr == old(self).head_ptr,
            final(self).next_ed == old(self).next_ed,
    {
        self.flags = self.flags & !Self::FLAG_LOCKED;
    }
}

/// Software layout suggestion for the interrupt-polling lists that hang
/// off the communication area's interrupt table: one chain head per
/// polling period, all ending at a stop descriptor.
pub struct IntLists {
    /// 16 ms polling period heads.
    pub int_16ms: [Endpoint; 16],
    pub int_8ms: [Endpoint; 8],
    pub int_4ms: [Endpoint; 4],
    pub int_2ms: [Endpoint; 2],
    pub int_1ms: [Endpoint; 1],
    /// The end of any list.
    pub stop_endpoint: Endpoint,
}


/// Whether two buffer addresses lie in the same 4 KiB page.
pub open spec fn same_page(a: u32, b: u32) -> bool {
    a & 0xFFFF_F000 == b & 0xFFFF_F000
}

/// Bytes of a transfer buffer not yet consumed, as OHCI defines it from
/// the current buffer pointer and the buffer-end address: zero once the
/// controller wrote zero to the pointer, a plain difference within one
/// page, and the two page remainders across a page boundary.
pub open spec fn td_bytes_remaining(cbp: u32, end: u32) -> int {
    if cbp == 0 {
        0
    } else if same_page(cbp, end) {
        end - cbp + 1
    } else {
        (0x1000 - (cbp & 0xFFF)) + (end & 0xFFF) + 1
    }
}

/// A buffer pointer pair the formula above is meaningful for: the
/// pointer is finished, or it has not run past the end address within
/// its page.
pub open spec fn valid_buffer_pair(cbp: u32, end: u32) -> bool {
    cbp == 0 || !same_page(cbp, end) || cbp <= end
}

/// One step of the pool-allocation word: the compare-and-swap from 0 to
/// `ALLOCATED` succeeds exactly when the word was 0, and changes nothing
/// otherwise.
pub open spec fn alloc_step(pre: u32, post: u32, r: bool) -> bool {
    &&& r == (pre == 0)
    &&& post == if pre == 0 {
        GeneralTD::FLAG_ALLOCATED
    } else {
        pre
    }
}

/// A general (non-isochronous) transfer descriptor with its software
/// metadata: the atomic flags word, the current buffer pointer, the
/// next-descriptor link, the buffer-end address, and the waker slot.
pub struct GeneralTD {
    flags: u32,
    cbp: u32,
    next_td: u32,
    buffer_end: u32,
    meta_async_waker: WakerToken,
    orig_cbp: Ghost<u32>,
}

impl GeneralTD {
    /// Flags bit: claimed from the pool.
    pub const FLAG_ALLOCATED: u32 = 1;

    /// Flags bit: initialised and possibly owned by hardware.
    pub const FLAG_INIT: u32 = 2;

    /// Flags bit: return to the pool when completion is processed.
    pub const FLAG_AUTOFREE: u32 = 4;

    /// Flags bit: the transfer has completed.
    pub const FLAG_COMPLETE: u32 = 8;

    /// Flags bit: the waker slot is being swapped.
    pub const FLAG_LOCKED: u32 = 16;

    /// The flags word.
    pub closed spec fn spec_flags(self) -> u32 {
        self.flags
    }

    /// The current buffer pointer.
    pub closed spec fn spec_cbp(self) -> u32 {
        self.cbp
    }

    /// The next-descriptor link.
    pub closed spec fn spec_next_td(self) -> u32 {
        self.next_td
    }

    /// The buffer-end address.
    pub closed spec fn spec_buffer_end(self) -> u32 {
        self.buffer_end
    }

    /// The stored waker.
    pub closed spec fn spec_waker(self) -> WakerToken {
        self.meta_async_waker
    }

    /// The buffer pointer as it was at initialisation: the full span.
    pub closed spec fn spec_orig_cbp(self) -> u32 {
        self.orig_cbp@
    }

    /// Lifecycle invariant: `INIT` is only ever set together with
    /// `ALLOCATED`, and while initialised the buffer pointer never
    /// describes more remaining bytes than the original span.
    pub open spec fn wf(self) -> bool {
        &&& self.spec_flags() & Self::FLAG_INIT != 0 ==> self.spec_flags() & Self::FLAG_ALLOCATED
            != 0
        &&& self.spec_flags() & Self::FLAG_INIT != 0 ==> {
            &&& valid_buffer_pair(self.spec_cbp(), self.spec_buffer_end())
            &&& valid_buffer_pair(self.spec_orig_cbp(), self.spec_buffer_end())
            &&& td_bytes_remaining(self.spec_cbp(), self.spec_buffer_end())
                <= td_bytes_remaining(self.spec_orig_cbp(), self.spec_buffer_end())
        }
    }

    /// A descriptor fresh in the pool: flags zero, no waker.
    pub fn new() -> (r: GeneralTD)
        ensures
            r.wf(),
            r.spec_flags() == 0,
            r.spec_waker() == WakerToken::Null,
    {
        let r = GeneralTD {
            flags: 0,
            cbp: 0,
            next_td: 0,
            buffer_end: 0,
            meta_async_waker: WakerToken::Null,
            orig_cbp: Ghost(0),
        };
        proof {
            assert(0u32 & 2 == 0) by (bit_vector);
        }
        r
    }

    /// Try to claim this descriptor from the pool: the compare-and-swap
    /// of the flags word from 0 to `ALLOCATED`. Exactly one caller can
    /// win it.
    pub fn maybe_alloc(&mut self) -> (r: bool)
        requires
            old(self).wf(),
        ensures
            final(self).wf(),
            alloc_step(old(self).spec_flags(), final(self).spec_flags(), r),
            final(self).spec_cbp() == old(self).spec_cbp(),
            final(self).spec_next_td() == old(self).spec_next_td(),
            final(self).spec_buffer_end() == old(self).spec_buffer_end(),
            final(self).spec_waker() == old(self).spec_waker(),
    {
        if self.flags == 0 {
            self.flags = Self::FLAG_ALLOCATED;
            proof {
                assert(1u32 & 2 == 0) by (bit_vector);
            }
            true
        } else {
            false
        }
    }

    /// Initialise a freshly claimed descriptor: buffer pointers, link,
    /// caller flags and the caller's waker, then publish the word as
    /// `ALLOCATED | INIT | user_flags`.
    pub fn init(&mut self, flags: u32, first_byte: u32, last_byte: u32, next_td: u32,
        waker: WakerToken)
        requires
            old(self).spec_flags() == Self::FLAG_ALLOCATED,
            valid_buffer_pair(first_byte, last_byte),
        ensures
            final(self).wf(),
            final(self).spec_flags() == flags | Self::FLAG_ALLOCATED | Self::FLAG_INIT,
            final(self).spec_cbp() == first_byte,
            final(self).spec_orig_cbp() == first_byte,
            final(self).spec_buffer_end() == last_byte,
            final(self).spec_next_td() == next_td,
            final(self).spec_waker() == waker,
    {
        self.flags = flags | Self::FLAG_ALLOCATED | Self::FLAG_INIT;
        self.cbp = first_byte;
        self.buffer_end = last_byte;
        self.next_td = next_td;
        self.meta_async_waker = waker;
        proof {
            self.orig_cbp@ = first_byte;
            let f = flags;
            assert((f | 1 | 2) & 2 != 0 && (f | 1 | 2) & 1 != 0) by (bit_vector);
        }
    }

    /// Return an initialised descriptor to the pool: the flags word goes
    /// back to zero and the waker slot is emptied.
    pub fn mark_free(&mut self)
        requires
            old(self).spec_flags() & Self::FLAG_INIT != 0,
        ensures
            final(self).wf(),
            final(self).spec_flags() == 0,
            final(self).spec_waker() == WakerToken::Null,
    {
        self.flags = 0;
        self.meta_async_waker = null_waker();
        proof {
            assert(0u32 & 2 == 0) by (bit_vector);
        }
    }

    /// Record completion: set the `COMPLETE` bit, and report whether the
    /// prior word carried `AUTOFREE`, in which case the caller returns
    /// the descriptor to the pool.
    pub fn mark_complete(&mut self) -> (autofree: bool)
        requires
            old(self).wf(),
            old(self).spec_flags() & Self::FLAG_INIT != 0,
        ensures
            final(self).wf(),
            autofree == (old(self).spec_flags() & Self::FLAG_AUTOFREE != 0),
            final(self).spec_flags() == old(self).spec_flags() | Self::FLAG_COMPLETE,
            final(self).spec_cbp() == old(self).spec_cbp(),
            final(self).spec_orig_cbp() == old(self).spec_orig_cbp(),
            final(self).spec_buffer_end() == old(self).spec_buffer_end(),
            final(self).spec_next_td() == old(self).spec_next_td(),
            final(self).spec_waker() == old(self).spec_waker(),
    {
        let prior = self.flags;
        self.flags = self.flags | Self::FLAG_COMPLETE;
        proof {
            let f = prior;
            assert(((f | 8) & 2 != 0) == (f & 2 != 0)) by (bit_vector);
            assert(((f | 8) & 1 != 0) == (f & 1 != 0)) by (bit_vector);
        }
        prior & Self::FLAG_AUTOFREE != 0
    }

    /// The next-descriptor link of an initialised descriptor.
    pub fn get_next(&self) -> (r: u32)
        requires
            self.spec_flags() & Self::FLAG_INIT != 0,
        ensures
            r == self.spec_next_td(),
    {
        self.next_td
    }

    /// What the hardware does to the buffer pointer as the transfer
    /// moves: it advances within the buffer, or is zeroed once the whole
    /// buffer was consumed. The remaining span never grows.
    pub fn hw_writeback(&mut self, new_cbp: u32)
        requires
            old(self).wf(),
            old(self).spec_flags() & Self::FLAG_INIT != 0,
            new_cbp == 0 || (valid_buffer_pair(new_cbp, old(self).spec_buffer_end())
                && td_bytes_remaining(new_cbp, old(self).spec_buffer_end()) <= td_bytes_remaining(
                old(self).spec_cbp(),
                old(self).spec_buffer_end(),
            )),
        ensures
            final(self).wf(),
            final(self).spec_cbp() == new_cbp,
            final(self).spec_flags() == old(self).spec_flags(),
            final(self).spec_orig_cbp() == old(self).spec_orig_cbp(),
            final(self).spec_buffer_end() == old(self).spec_buffer_end(),
            final(self).spec_next_td() == old(self).spec_next_td(),
            final(self).spec_waker() == old(self).spec_waker(),
    {
        self.cbp = new_cbp;
        proof {
            lemma_remaining_nonneg(old(self).spec_orig_cbp(), old(self).spec_buffer_end());
        }
    }

    /// Completion status: `None` while the transfer is in flight, the
    /// count of unused buffer bytes once it completed. The count never
    /// exceeds the span the buffer was initialised with.
    pub fn is_complete(&self) -> (r: Option<usize>)
        requires
            self.wf(),
            self.spec_flags() & Self::FLAG_INIT != 0,
        ensures
            match r {
                None => self.spec_flags() & Self::FLAG_COMPLETE == 0,
                Some(u) => {
                    &&& self.spec_flags() & Self::FLAG_COMPLETE != 0
                    &&& u == td_bytes_remaining(self.spec_cbp(), self.spec_buffer_end())
                    &&& u <= td_bytes_remaining(self.spec_orig_cbp(), self.spec_buffer_end())
                },
            },
    {
        if self.flags & Self::FLAG_COMPLETE != 0 {
            let cbp = self.cbp;
            let end = self.buffer_end;
            if cbp == 0 {
                Some(0)
            } else if cbp & !0xFFFu32 == end & !0xFFFu32 {
                proof {
                    assert(cbp & !0xFFFu32 == cbp & 0xFFFF_F000u32) by (bit_vector);
                    assert(end & !0xFFFu32 == end & 0xFFFF_F000u32) by (bit_vector);
                    assert(cbp & 0xFFFF_F000u32 == end & 0xFFFF_F000u32 && cbp <= end
                        ==> end - cbp <= 0xFFF) by (bit_vector);
                }
                Some((end - cbp) as usize + 1)
            } else {
                proof {
                    assert(cbp & !0xFFFu32 == cbp & 0xFFFF_F000u32) by (bit_vector);
                    assert(end & !0xFFFu32 == end & 0xFFFF_F000u32) by (bit_vector);
                    assert(cbp & 0xFFFu32 <= 0xFFF && end & 0xFFFu32 <= 0xFFF) by (bit_vector);
                }
                let rem1 = 0x1000u32 - (cbp & 0xFFF);
                let rem2 = end & 0xFFF;
                Some((rem1 + rem2) as usize + 1)
            }
        } else {
            None
        }
    }

    /// Take the stored waker out of the metadata slot, leaving the null
    /// waker. In the kernel this holds the waker lock with interrupts
    /// disabled; the swap is all that is observable.
    pub fn take_waker(&mut self) -> (w: WakerToken)
        ensures
            w == old(self).spec_waker(),
            final(self).spec_waker() == WakerToken::Null,
            final(self).spec_flags() == old(self).spec_flags(),
            final(self).spec_cbp() == old(self).spec_cbp(),
            final(self).spec_orig_cbp() == old(self).spec_orig_cbp(),
            final(self).spec_buffer_end() == old(self).spec_buffer_end(),
            final(self).spec_next_td() == old(self).spec_next_td(),
    {
        let w = self.meta_async_waker;
        self.meta_async_waker = null_waker();
        w
    }

    /// Store the caller's waker in the metadata slot unless an equal one
    /// is already there. Either way the slot afterwards holds a waker
    /// that wakes the caller.
    pub fn update_waker(&mut self, waker: &WakerToken)
        ensures
            final(self).spec_waker() == *waker,
            final(self).spec_flags() == old(self).spec_flags(),
            final(self).spec_cbp() == old(self).spec_cbp(),
            final(self).spec_orig_cbp() == old(self).spec_orig_cbp(),
            final(self).spec_buffer_end() == old(self).spec_buffer_end(),
            final(self).spec_next_td() == old(self).spec_next_td(),
    {
        if !self.meta_async_waker.will_wake(waker) {
            self.meta_async_waker = *waker;
        }
    }
}


/// A sequence of claim attempts on one descriptor's flags word:
/// `flags[i]` steps to `flags[i + 1]` with outcome `results[i]`.
pub open spec fn claim_attempts(flags: Seq<u32>, results: Seq<bool>) -> bool {
    flags.len() == results.len() + 1 && forall|i: int|
        0 <= i < results.len() ==> alloc_step(#[trigger] flags[i], flags[i + 1], results[i])
}

/// Once the word left zero, claim attempts leave it unchanged.
proof fn lemma_claim_keeps_nonzero(flags: Seq<u32>, results: Seq<bool>, from: int, to: int)
    requires
        claim_attempts(flags, results),
        0 <= from <= to < flags.len(),
        flags[from] != 0,
    ensures
        flags[to] == flags[from],
    decreases to - from,
{
    if from < to {
        lemma_claim_keeps_nonzero(flags, results, from + 1, to);
    }
}

/// Over any sequence of claim attempts, at most one caller observes the
/// `0 -> ALLOCATED` transition.
pub proof fn lemma_claim_exclusive(flags: Seq<u32>, results: Seq<bool>)
    requires
        claim_attempts(flags, results),
    ensures
        forall|i: int, j: int| 0 <= i < j < results.len() ==> !(results[i] && results[j]),
{
    assert forall|i: int, j: int| 0 <= i < j < results.len() implies !(results[i] && results[j])
    by {
        assert(alloc_step(flags[i], flags[i + 1], results[i]));
        assert(alloc_step(flags[j], flags[j + 1], results[j]));
        if results[i] {
            lemma_claim_keeps_nonzero(flags, results, i + 1, j);
        }
    }
}

/// An initialised descriptor is always an allocated one.
pub proof fn lemma_init_implies_allocated(td: GeneralTD)
    requires
        td.wf(),
        td.spec_flags() & GeneralTD::FLAG_INIT != 0,
    ensures
        td.spec_flags() & GeneralTD::FLAG_ALLOCATED != 0,
{
}

/// However the buffer pointer stands, the remaining-bytes count is
/// never negative.
pub proof fn lemma_remaining_nonneg(cbp: u32, end: u32)
    requires
        valid_buffer_pair(cbp, end),
    ensures
        td_bytes_remaining(cbp, end) >= 0,
{
    if cbp != 0 && !same_page(cbp, end) {
        assert(cbp & 0xFFFu32 <= 0xFFF && end & 0xFFFu32 <= 0xFFF) by (bit_vector);
    }
}

/// The buffer is fully consumed (no bytes remain) exactly when the
/// controller wrote zero to the buffer pointer.
pub proof fn lemma_zero_remaining_iff_consumed(cbp: u32, end: u32)
    requires
        valid_buffer_pair(cbp, end),
    ensures
        (td_bytes_remaining(cbp, end) == 0) <==> (cbp == 0),
{
    if cbp != 0 && !same_page(cbp, end) {
        assert(cbp & 0xFFFu32 <= 0xFFF && end & 0xFFFu32 <= 0xFFF) by (bit_vector);
    }
}

} // verus!
