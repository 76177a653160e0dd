//! The IRQ binding table: one slot per global system interrupt.
//!
//! A slot holds at most one binding (a handler with its context, both
//! opaque machine words here) and a per-CPU try-lock that serializes the
//! handler per slot: if an interrupt re-enters on the CPU already running
//! the handler, the new delivery is dropped.

use vstd::prelude::*;

verus! {

/// Binding failed: the interrupt number is out of range or the slot is
/// already bound.
pub type BindError = ();

/// Handle to a bound interrupt slot.
#[derive(Clone, Copy, Debug, PartialEq, Eq, Structural)]
pub struct IRQHandle(u32);

impl IRQHandle {
    /// The global interrupt number the handle refers to.
    pub closed spec fn spec_gsi(self) -> u32 {
        self.0
    }

    /// The bound interrupt number.
    pub fn gsi(&self) -> (r: u32)
        ensures
            r == self.spec_gsi(),
    {
        self.0
    }
}

impl Default for IRQHandle {
    /// A handle bound to nothing: the all-ones sentinel.
    fn default() -> (r: IRQHandle)
        ensures
            r.spec_gsi() == u32::MAX,
    {
        IRQHandle(0xFFFF_FFFF)
    }
}

/// A bound handler: the handler entry point and its context argument,
/// held as opaque machine words.
#[derive(Clone, Copy, Debug, PartialEq, Eq, Structural)]
pub struct IrqBinding {
    pub handler: usize,
    pub info: usize,
}

struct IrqSlot {
    binding: Option<IrqBinding>,
    locked_by: Option<u32>,
}

/// What an interrupt delivery decides to do.
#[derive(Clone, Copy, Debug, PartialEq, Eq, Structural)]
pub enum IrqDispatch {
    /// The interrupt number exceeds the table; nothing to do.
    OutOfRange,
    /// The slot's handler is already running on this CPU; the delivery
    /// is dropped.
    Dropped,
    /// The slot is not bound; nothing to invoke.
    NoBinding,
    /// Run this binding's handler; the slot lock is now held and must be
    /// released once the handler returns.
    Invoke(IrqBinding),
}

/// The table of interrupt bindings, indexed by global interrupt number.
pub struct IrqTable {
    slots: Vec<IrqSlot>,
}

impl IrqTable {
    /// Number of interrupt lines the table covers.
    pub closed spec fn spec_len(self) -> int {
        self.slots@.len() as int
    }

    /// The binding in slot `i`.
    pub closed spec fn binding_at(self, i: int) -> Option<IrqBinding>
        recommends
            0 <= i < self.spec_len(),
    {
        self.slots@[i].binding
    }

    /// Which CPU holds slot `i`'s handler lock.
    pub closed spec fn locked_at(self, i: int) -> Option<u32>
        recommends
            0 <= i < self.spec_len(),
    {
        self.slots@[i].locked_by
    }

    /// A table for `len` interrupt lines, all unbound and unlocked.
    pub fn new(len: usize) -> (r: IrqTable)
        ensures
            r.spec_len() == len,
            forall|i: int| 0 <= i < len ==> r.binding_at(i) is None,
            forall|i: int| 0 <= i < len ==> r.locked_at(i) is None,
    {
        let mut slots: Vec<IrqSlot> = Vec::new();
        let mut k: usize = 0;
        while k < len
            invariant
                k <= len,
                slots@.len() == k,
                forall|i: int|
                    0 <= i < k ==> slots@[i].binding is None && slots@[i].locked_by is None,
            decreases len - k,
        {
            slots.push(IrqSlot { binding: None, locked_by: None });
            k = k + 1;
        }
        IrqTable { slots }
    }

    /// Bind `handler` (with context `info`) to interrupt `gsi`. Fails,
    /// changing nothing, exactly when the number is out of range or the
    /// slot already holds a binding; on success only that slot changes.
    pub fn bind_gsi(&mut self, gsi: usize, handler: usize, info: usize) -> (r: Result<
        IRQHandle,
        BindError,
    >)
        requires
            old(self).spec_len() <= u32::MAX,
        ensures
            final(self).spec_len() == old(self).spec_len(),
            match r {
                Err(_) => {
                    &&& *final(self) == *old(self)
                    &&& gsi >= old(self).spec_len() || old(self).binding_at(gsi as int) is Some
                },
                Ok(h) => {
                    &&& gsi < old(self).spec_len()
                    &&& old(self).binding_at(gsi as int) is None
                    &&& h.spec_gsi() == gsi
                    &&& final(self).binding_at(gsi as int) == Some(
                        IrqBinding { handler, info },
                    )
                    &&& forall|i: int|
                        0 <= i < old(self).spec_len() && i != gsi ==> final(self).binding_at(i)
                            == old(self).binding_at(i)
                    &&& forall|i: int|
                        0 <= i < old(self).spec_len() ==> final(self).locked_at(i) == old(
                            self,
                        ).locked_at(i)
                },
            },
    {
        if gsi >= self.slots.len() {
            Err(())
        } else if self.slots[gsi].binding.is_some() {
            Err(())
        } else {
            let locked_by = self.slots[gsi].locked_by;
            self.slots[gsi] = IrqSlot { binding: Some(IrqBinding { handler, info }), locked_by };
            Ok(IRQHandle(gsi as u32))
        }
    }

    /// Decide what an interrupt delivery on `cpu` does, taking the slot
    /// lock when a handler is to run. The real spinlock waits out a
    /// holder on another CPU, so entry happens with the slot either free
    /// or held by this same CPU; in the latter case the delivery is
    /// dropped.
    pub fn interrupt_entry(&mut self, irq: u32, cpu: u32) -> (r: IrqDispatch)
        requires
            irq < old(self).spec_len() ==> (old(self).locked_at(irq as int) is None || old(
                self,
            ).locked_at(irq as int) == Some(cpu)),
        ensures
            final(self).spec_len() == old(self).spec_len(),
            forall|i: int|
                0 <= i < old(self).spec_len() ==> final(self).binding_at(i) == old(
                    self,
                ).binding_at(i),
            match r {
                IrqDispatch::OutOfRange => irq >= old(self).spec_len() && *final(self) == *old(
                    self,
                ),
                IrqDispatch::Dropped => {
                    &&& irq < old(self).spec_len()
                    &&& old(self).locked_at(irq as int) == Some(cpu)
                    &&& *final(self) == *old(self)
                },
                IrqDispatch::NoBinding => {
                    &&& irq < old(self).spec_len()
                    &&& old(self).locked_at(irq as int) is None
                    &&& old(self).binding_at(irq as int) is None
                    &&& *final(self) == *old(self)
                },
                IrqDispatch::Invoke(b) => {
                    &&& irq < old(self).spec_len()
                    &&& old(self).locked_at(irq as int) is None
                    &&& old(self).binding_at(irq as int) == Some(b)
                    &&& final(self).locked_at(irq as int) == Some(cpu)
                    &&& forall|i: int|
                        0 <= i < old(self).spec_len() && i != irq ==> final(self).locked_at(i)
                            == old(self).locked_at(i)
                },
            },
    {
        let idx = irq as usize;
        if idx >= self.slots.len() {
            return IrqDispatch::OutOfRange;
        }
        if self.slots[idx].locked_by.is_some() {
            return IrqDispatch::Dropped;
        }
        match self.slots[idx].binding {
            None => IrqDispatch::NoBinding,
            Some(b) => {
                self.slots[idx] = IrqSlot { binding: Some(b), locked_by: Some(cpu) };
                IrqDispatch::Invoke(b)
            },
        }
    }

    /// Release the slot lock once the handler has returned.
    pub fn interrupt_exit(&mut self, irq: u32, cpu: u32)
        requires
            irq < old(self).spec_len(),
            old(self).locked_at(irq as int) == Some(cpu),
        ensures
            final(self).spec_len() == old(self).spec_len(),
            final(self).locked_at(irq as int) is None,
            forall|i: int|
                0 <= i < old(self).spec_len() ==> final(self).binding_at(i) == old(
                    self,
                ).binding_at(i),
            forall|i: int|
                0 <= i < old(self).spec_len() && i != irq ==> final(self).locked_at(i) == old(
                    self,
                ).locked_at(i),
    {
        let idx = irq as usize;
        let binding = self.slots[idx].binding;
        self.slots[idx] = IrqSlot { binding, locked_by: None };
    }
}

} // verus!
