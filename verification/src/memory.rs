//! The memory a message passes through, as this layer sees it.
//!
//! Message buffers live at physical addresses and are read and written as
//! whole fixed-size records; [`MsgMemory`] is that mapped physical
//! resource. User code names buffers by virtual address; [`AddressSpace`]
//! is the translation the paging layer maintains, and a translation
//! failure is a fatal address-space defect, not a recoverable condition
//! here.

use vstd::prelude::*;

use crate::process::{Message, Pid};
use std::collections::BTreeMap;

verus! {

broadcast use vstd::std_specs::btree::group_btree_axioms, vstd::laws_cmp::group_laws_cmp;

/// The fixed-size message records resident in physical memory, keyed by
/// physical address. Only addresses in its domain hold a registered
/// message record.
pub struct MsgMemory {
    slots: BTreeMap<u64, Message>,
}

impl View for MsgMemory {
    type V = Map<u64, Message>;

    closed spec fn view(&self) -> Map<u64, Message> {
        self.slots@
    }
}

impl MsgMemory {
    /// Memory with no message records.
    pub fn new() -> (r: MsgMemory)
        ensures
            r@ == Map::<u64, Message>::empty(),
    {
        MsgMemory { slots: BTreeMap::new() }
    }

    /// Whether a message record exists at physical address `addr`.
    pub fn contains(&self, addr: u64) -> (r: bool)
        ensures
            r == self@.contains_key(addr),
    {
        self.slots.contains_key(&addr)
    }

    /// The message record at physical address `addr`.
    pub fn read(&self, addr: u64) -> (m: Message)
        requires
            self@.contains_key(addr),
        ensures
            m == self@[addr],
    {
        *self.slots.get(&addr).unwrap()
    }

    /// Place (or overwrite) the message record at physical address `addr`.
    pub fn write(&mut self, addr: u64, m: Message)
        ensures
            final(self)@ == old(self)@.insert(addr, m),
    {
        self.slots.insert(addr, m);
    }

    /// Deliver the message at `src` to `dst`: stamp the true sender's PID
    /// into the header at `src`, then copy the whole record to `dst`. The
    /// source record keeps the stamped header, exactly as the in-place
    /// update leaves it.
    pub fn copy_msg(&mut self, src: u64, dst: u64, sender: Pid)
        requires
            old(self)@.contains_key(src),
            old(self)@.contains_key(dst),
        ensures
            final(self)@ == old(self)@
                .insert(src, stamped(old(self)@[src], sender))
                .insert(dst, stamped(old(self)@[src], sender)),
    {
        let mut m = self.read(src);
        m.header.sender = sender;
        self.write(src, m);
        self.write(dst, m);
    }
}

/// The message `m` with its header's sender field overwritten by `sender`;
/// the body is untouched.
pub open spec fn stamped(m: Message, sender: Pid) -> Message {
    Message { header: crate::process::Header { sender }, ..m }
}

/// The virtual-to-physical translation this core consumes from the paging
/// layer, as a plain mapping from virtual to physical address.
pub struct AddressSpace {
    maps: BTreeMap<u64, u64>,
}

impl View for AddressSpace {
    type V = Map<u64, u64>;

    closed spec fn view(&self) -> Map<u64, u64> {
        self.maps@
    }
}

impl AddressSpace {
    /// An address space with no translations.
    pub fn new() -> (r: AddressSpace)
        ensures
            r@ == Map::<u64, u64>::empty(),
    {
        AddressSpace { maps: BTreeMap::new() }
    }

    /// Record that virtual address `virt` translates to physical address
    /// `phys`.
    pub fn map_page(&mut self, virt: u64, phys: u64)
        ensures
            final(self)@ == old(self)@.insert(virt, phys),
    {
        self.maps.insert(virt, phys);
    }

    /// Translate a virtual address; `None` when no translation exists.
    pub fn translate(&self, virt: u64) -> (r: Option<u64>)
        ensures
            r == self.translate_spec(virt),
    {
        match self.maps.get(&virt) {
            Some(p) => Some(*p),
            None => None,
        }
    }

    /// What `translate` returns: the recorded physical address, if any.
    pub open spec fn translate_spec(&self, virt: u64) -> Option<u64> {
        if self@.contains_key(virt) {
            Some(self@[virt])
        } else {
            None
        }
    }
}

} // verus!
