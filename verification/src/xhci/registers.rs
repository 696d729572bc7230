//! Images of the host controller's doorbell and runtime registers. The
//! values computed and stored here are what the memory-mapped writes of
//! an outer layer carry to the hardware.

use vstd::prelude::*;

verus! {

/// Number of doorbell registers of a host controller.
pub const NUM_OF_DOORBELLS: usize = 256;

/// One doorbell register.
#[derive(Copy, Clone, Debug, PartialEq, Eq, Structural)]
pub struct Register(pub u32);

impl Register {
    /// Ring the host controller's doorbell: target 0, the command ring.
    pub fn write_for_hc(&mut self)
        ensures
            final(self).0 == 0,
    {
        self.0 = 0;
    }
}

/// The doorbell register array.
pub struct Array {
    /// The register images, one per doorbell.
    pub registers: Vec<Register>,
}

impl Array {
    /// All doorbells in their reset state.
    pub fn new() -> (r: Array)
        ensures
            r.registers@.len() == NUM_OF_DOORBELLS,
    {
        let mut registers: Vec<Register> = Vec::new();
        let mut i: usize = 0;
        while i < NUM_OF_DOORBELLS
            invariant
                i <= NUM_OF_DOORBELLS,
                registers@.len() == i,
            decreases NUM_OF_DOORBELLS - i,
        {
            registers.push(Register(0));
            i = i + 1;
        }
        Array { registers }
    }

    /// Notify the host controller: write the command-ring doorbell.
    pub fn notify_to_hc(&mut self)
        requires
            old(self).registers@.len() >= 1,
        ensures
            final(self).registers@ == old(self).registers@.update(0, Register(0)),
    {
        let r = &mut self.registers[0];
        r.write_for_hc();
        proof {
            assert(final(self).registers@ =~= old(self).registers@.update(0, Register(0)));
        }
    }
}

/// The event-ring segment table size register.
#[derive(Copy, Clone, Debug, PartialEq, Eq, Structural)]
pub struct EventRingSegmentTableSizeRegister(pub u32);

impl EventRingSegmentTableSizeRegister {
    /// Record the number of segments.
    pub fn set(&mut self, val: u16)
        ensures
            final(self).0 == val as u32,
    {
        self.0 = val as u32;
    }
}

/// The event-ring segment table base address register; the address must
/// be 64-byte aligned.
#[derive(Copy, Clone, Debug, PartialEq, Eq, Structural)]
pub struct EventRingSegmentTableBaseAddressRegister(pub u64);

impl EventRingSegmentTableBaseAddressRegister {
    pub fn set(&mut self, addr: u64)
        requires
            addr % 64 == 0,
        ensures
            final(self).0 == addr,
    {
        self.0 = addr;
    }
}

/// The event-ring dequeue pointer register; the address must be 16-byte
/// aligned.
#[derive(Copy, Clone, Debug, PartialEq, Eq, Structural)]
pub struct EventRingDequeuePointerRegister(pub u64);

impl EventRingDequeuePointerRegister {
    pub fn set_address(&mut self, addr: u64)
        requires
            addr % 16 == 0,
        ensures
            final(self).0 == addr,
    {
        self.0 = addr;
    }
}

/// The runtime register images this kernel programs: event-ring segment
/// table size and base, and the event-ring dequeue pointer.
#[derive(Copy, Clone, Debug, PartialEq, Eq, Structural)]
pub struct RuntimeBaseRegisters {
    pub erst_sz: EventRingSegmentTableSizeRegister,
    pub erst_ba: EventRingSegmentTableBaseAddressRegister,
    pub erd_p: EventRingDequeuePointerRegister,
}

impl RuntimeBaseRegisters {
    /// All runtime registers in their reset state.
    pub fn new() -> (r: RuntimeBaseRegisters)
        ensures
            r.erst_sz.0 == 0,
            r.erst_ba.0 == 0,
            r.erd_p.0 == 0,
    {
        RuntimeBaseRegisters {
            erst_sz: EventRingSegmentTableSizeRegister(0),
            erst_ba: EventRingSegmentTableBaseAddressRegister(0),
            erd_p: EventRingDequeuePointerRegister(0),
        }
    }

    /// Record the number of event-ring segments.
    pub fn set_event_ring_segment_table_size(&mut self, size: u16)
        ensures
            *final(self) == (RuntimeBaseRegisters {
                erst_sz: EventRingSegmentTableSizeRegister(size as u32),
                ..*old(self)
            }),
    {
        self.erst_sz.set(size)
    }

    /// Record the 64-byte-aligned segment table address.
    pub fn set_event_ring_segment_table_addr(&mut self, addr: u64)
        requires
            addr % 64 == 0,
        ensures
            *final(self) == (RuntimeBaseRegisters {
                erst_ba: EventRingSegmentTableBaseAddressRegister(addr),
                ..*old(self)
            }),
    {
        self.erst_ba.set(addr)
    }

    /// Record the 16-byte-aligned dequeue pointer.
    pub fn set_event_ring_dequeue_ptr(&mut self, ptr: u64)
        requires
            ptr % 16 == 0,
        ensures
            *final(self) == (RuntimeBaseRegisters {
                erd_p: EventRingDequeuePointerRegister(ptr),
                ..*old(self)
            }),
    {
        self.erd_p.set_address(ptr)
    }
}

} // verus!
