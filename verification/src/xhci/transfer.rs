//! The transfer ring and its TRBs (transfer request blocks): the
//! fixed-size entries a control transfer is built from, and the ring
//! bookkeeping — enqueue pointer, cycle bit, and the link TRB that wraps
//! the ring back to its start.

use vstd::prelude::*;

use crate::bits::{
    spec_get_bit32, spec_set_bit32, spec_set_bits32, u32_get_bit, u32_set_bit, u32_set_bits,
};

verus! {

/// Number of TRB slots in a transfer ring.
pub const SIZE_OF_RING: usize = 256;

/// TRB type identifier of a setup stage TRB.
pub const SETUP_STAGE_ID: u8 = 2;

/// TRB type identifier of a data stage TRB.
pub const DATA_STAGE_ID: u8 = 3;

/// TRB type identifier of a status stage TRB.
pub const STATUS_STAGE_ID: u8 = 4;

/// TRB type identifier of a link TRB.
pub const LINK_ID: u8 = 6;

/// One 16-byte TRB as four 32-bit words, exactly as it sits in ring
/// memory.
#[derive(Copy, Clone, Debug, PartialEq, Eq, Structural)]
pub struct RawTrb {
    pub w0: u32,
    pub w1: u32,
    pub w2: u32,
    pub w3: u32,
}

impl RawTrb {
    /// The all-zero TRB slot.
    pub fn zeroed() -> (r: RawTrb)
        ensures
            r == (RawTrb { w0: 0, w1: 0, w2: 0, w3: 0 }),
    {
        RawTrb { w0: 0, w1: 0, w2: 0, w3: 0 }
    }

    /// The cycle bit: bit 0 of the last word.
    pub open spec fn spec_cycle_bit(self) -> bool {
        spec_get_bit32(self.w3, 0)
    }

    /// Read the cycle bit.
    pub fn cycle_bit(&self) -> (r: bool)
        ensures
            r == self.spec_cycle_bit(),
    {
        u32_get_bit(self.w3, 0)
    }
}

/// The producer cycle state of a ring, toggled at each wrap; a slot whose
/// cycle bit equals the producer's has not been consumed yet.
#[derive(Copy, Clone, Debug, PartialEq, Eq, Structural)]
pub struct CycleBit(pub bool);

impl CycleBit {
    pub fn new(v: bool) -> (r: CycleBit)
        ensures
            r.0 == v,
    {
        CycleBit(v)
    }

    /// Flip the state, as happens when the enqueue pointer wraps.
    pub fn toggle(&mut self)
        ensures
            final(self).0 == !old(self).0,
    {
        self.0 = !self.0;
    }
}

/// A link TRB: it points the controller back to the start of the ring.
/// The target is kept as a ring-relative byte offset; the owning layer
/// adds the ring's physical base address.
#[derive(Copy, Clone, Debug, PartialEq, Eq, Structural)]
pub struct Link(pub RawTrb);

/// The words of a link TRB targeting byte offset `a`, before any cycle
/// bit is set.
pub open spec fn spec_link_words(a: u64) -> RawTrb {
    RawTrb {
        w0: a as u32,
        w1: (a >> 32u64) as u32,
        w2: 0,
        w3: spec_set_bits32(0, 10, 15, LINK_ID as u32),
    }
}

impl Link {
    /// A link TRB targeting byte offset `a`, which must be 16-byte
    /// aligned as every TRB address is.
    pub fn new(a: u64) -> (r: Link)
        requires
            a % 16 == 0,
        ensures
            r.0 == spec_link_words(a),
    {
        proof {
            crate::bits::lemma_bit_widths();
        }
        Link(
            RawTrb {
                w0: a as u32,
                w1: (a >> 32) as u32,
                w2: 0,
                w3: u32_set_bits(0, 10, 15, LINK_ID as u32),
            },
        )
    }

    /// Force the cycle bit of this link TRB.
    pub fn set_cycle_bit(&mut self, c: CycleBit)
        ensures
            final(self).0 == (RawTrb { w3: spec_set_bit32(old(self).0.w3, 0, c.0), ..old(self).0 }),
    {
        self.0.w3 = u32_set_bit(self.0.w3, 0, c.0);
    }
}

/// The standard request a setup stage TRB can carry here.
#[derive(Copy, Clone, Debug, PartialEq, Eq, Structural)]
pub enum Request {
    GetDescriptor,
}

impl Request {
    /// The bRequest code of this request.
    pub fn code(self) -> (r: u8)
        ensures
            r == self.spec_code(),
    {
        match self {
            Request::GetDescriptor => 6,
        }
    }

    /// What `code` returns.
    pub open spec fn spec_code(self) -> u8 {
        match self {
            Request::GetDescriptor => 6,
        }
    }
}

/// A descriptor type as used in a GET_DESCRIPTOR request.
#[derive(Copy, Clone, Debug, PartialEq, Eq, Structural)]
pub enum DescTy {
    Device,
}

impl DescTy {
    /// The descriptor type code.
    pub fn code(self) -> (r: u8)
        ensures
            r == self.spec_code(),
    {
        match self {
            DescTy::Device => 1,
        }
    }

    /// What `code` returns.
    pub open spec fn spec_code(self) -> u8 {
        match self {
            DescTy::Device => 1,
        }
    }
}

/// Descriptor type and index packed into the wValue field of a
/// GET_DESCRIPTOR request.
#[derive(Copy, Clone, Debug, PartialEq, Eq, Structural)]
pub struct DescTyIdx {
    pub ty: DescTy,
    pub i: u8,
}

impl DescTyIdx {
    pub fn new(ty: DescTy, i: u8) -> (r: DescTyIdx)
        ensures
            r.ty == ty,
            r.i == i,
    {
        DescTyIdx { ty, i }
    }

    /// The wValue encoding: the type code in the high byte, the index in
    /// the low byte.
    pub fn bits(self) -> (r: u16)
        ensures
            r == (self.ty.spec_code() as u16) * 256 + self.i,
    {
        (self.ty.code() as u16) * 256 + (self.i as u16)
    }
}

/// Direction of a data stage.
#[derive(Copy, Clone, Debug, PartialEq, Eq, Structural)]
pub enum Direction {
    Out,
    In,
}

impl Direction {
    /// The DIR bit value: `true` for device-to-host.
    pub fn bit(self) -> (r: bool)
        ensures
            r == (self is In),
    {
        match self {
            Direction::Out => false,
            Direction::In => true,
        }
    }
}

/// A setup stage TRB under construction.
#[derive(Copy, Clone, Debug, PartialEq, Eq, Structural)]
pub struct SetupStage(pub RawTrb);

impl SetupStage {
    pub fn null() -> (r: SetupStage)
        ensures
            r.0 == (RawTrb { w0: 0, w1: 0, w2: 0, w3: 0 }),
    {
        SetupStage(RawTrb::zeroed())
    }

    /// bmRequestType: bits 0..=7 of the first word.
    pub fn set_request_type(&mut self, t: u8)
        ensures
            final(self).0 == (RawTrb {
                w0: spec_set_bits32(old(self).0.w0, 0, 7, t as u32),
                ..old(self).0
            }),
    {
        proof {
            crate::bits::lemma_bit_widths();
        }
        self.0.w0 = u32_set_bits(self.0.w0, 0, 7, t as u32);
    }

    /// bRequest: bits 8..=15 of the first word.
    pub fn set_request(&mut self, r: Request)
        ensures
            final(self).0 == (RawTrb {
                w0: spec_set_bits32(old(self).0.w0, 8, 15, r.spec_code() as u32),
                ..old(self).0
            }),
    {
        proof {
            crate::bits::lemma_bit_widths();
        }
        self.0.w0 = u32_set_bits(self.0.w0, 8, 15, r.code() as u32);
    }

    /// wValue: bits 16..=31 of the first word.
    pub fn set_value(&mut self, v: u16)
        ensures
            final(self).0 == (RawTrb {
                w0: spec_set_bits32(old(self).0.w0, 16, 31, v as u32),
                ..old(self).0
            }),
    {
        proof {
            crate::bits::lemma_bit_widths();
        }
        self.0.w0 = u32_set_bits(self.0.w0, 16, 31, v as u32);
    }

    /// wIndex: bits 0..=15 of the second word.
    pub fn set_index(&mut self, i: u16)
        ensures
            final(self).0 == (RawTrb {
                w1: spec_set_bits32(old(self).0.w1, 0, 15, i as u32),
                ..old(self).0
            }),
    {
        proof {
            crate::bits::lemma_bit_widths();
        }
        self.0.w1 = u32_set_bits(self.0.w1, 0, 15, i as u32);
    }

    /// wLength: bits 16..=31 of the second word.
    pub fn set_length(&mut self, l: u16)
        ensures
            final(self).0 == (RawTrb {
                w1: spec_set_bits32(old(self).0.w1, 16, 31, l as u32),
                ..old(self).0
            }),
    {
        proof {
            crate::bits::lemma_bit_widths();
        }
        self.0.w1 = u32_set_bits(self.0.w1, 16, 31, l as u32);
    }

    /// TRB transfer length: bits 0..=16 of the third word.
    pub fn set_trb_transfer_length(&mut self, l: u32)
        requires
            l < 0x20000,
        ensures
            final(self).0 == (RawTrb {
                w2: spec_set_bits32(old(self).0.w2, 0, 16, l),
                ..old(self).0
            }),
    {
        proof {
            crate::bits::lemma_bit_widths();
        }
        self.0.w2 = u32_set_bits(self.0.w2, 0, 16, l);
    }

    /// Transfer type: bits 16..=17 of the last word.
    pub fn set_trt(&mut self, t: u8)
        requires
            t < 4,
        ensures
            final(self).0 == (RawTrb {
                w3: spec_set_bits32(old(self).0.w3, 16, 17, t as u32),
                ..old(self).0
            }),
    {
        proof {
            crate::bits::lemma_bit_widths();
        }
        self.0.w3 = u32_set_bits(self.0.w3, 16, 17, t as u32);
    }

    /// Cycle bit: bit 0 of the last word.
    pub fn set_cycle_bit(&mut self, c: CycleBit)
        ensures
            final(self).0 == (RawTrb { w3: spec_set_bit32(old(self).0.w3, 0, c.0), ..old(self).0 }),
    {
        self.0.w3 = u32_set_bit(self.0.w3, 0, c.0);
    }

    /// TRB type: bits 10..=15 of the last word.
    pub fn set_trb_type(&mut self, id: u8)
        requires
            id < 64,
        ensures
            final(self).0 == (RawTrb {
                w3: spec_set_bits32(old(self).0.w3, 10, 15, id as u32),
                ..old(self).0
            }),
    {
        proof {
            crate::bits::lemma_bit_widths();
        }
        self.0.w3 = u32_set_bits(self.0.w3, 10, 15, id as u32);
    }

    /// The setup stage of a GET_DESCRIPTOR control transfer for a buffer
    /// of `len` bytes: a device-to-host standard request with the packed
    /// descriptor selector as wValue.
    pub fn new_get_descriptor(len: u16, dti: DescTyIdx, c: CycleBit) -> (t: SetupStage)
        ensures
            t.0 == spec_setup_get_descriptor(len, dti, c),
    {
        let mut t = Self::null();
        t.set_request_type(0b1000_0000);
        t.set_request(Request::GetDescriptor);
        t.set_value(dti.bits());
        t.set_length(len);
        t.set_trb_transfer_length(8);
        t.set_cycle_bit(c);
        t.set_trb_type(SETUP_STAGE_ID);
        t.set_trt(3);
        t
    }
}

/// The words `SetupStage::new_get_descriptor` builds, as one formula.
pub open spec fn spec_setup_get_descriptor(len: u16, dti: DescTyIdx, c: CycleBit) -> RawTrb {
    let value = (dti.ty.spec_code() as u16) * 256 + dti.i;
    RawTrb {
        w0: spec_set_bits32(
            spec_set_bits32(spec_set_bits32(0, 0, 7, 0x80), 8, 15, 6),
            16,
            31,
            value as u32,
        ),
        w1: spec_set_bits32(0, 16, 31, len as u32),
        w2: spec_set_bits32(0, 0, 16, 8),
        w3: spec_set_bits32(
            spec_set_bits32(spec_set_bit32(0, 0, c.0), 10, 15, SETUP_STAGE_ID as u32),
            16,
            17,
            3,
        ),
    }
}

/// A data stage TRB under construction. The data buffer is named by its
/// physical address.
#[derive(Copy, Clone, Debug, PartialEq, Eq, Structural)]
pub struct DataStage(pub RawTrb);

impl DataStage {
    pub fn null() -> (r: DataStage)
        ensures
            r.0 == (RawTrb { w0: 0, w1: 0, w2: 0, w3: 0 }),
    {
        DataStage(RawTrb::zeroed())
    }

    /// The buffer's physical address, split over the first two words.
    pub fn set_data_buf(&mut self, b: u64)
        ensures
            final(self).0 == (RawTrb {
                w0: b as u32,
                w1: (b >> 32u64) as u32,
                ..old(self).0
            }),
    {
        self.0.w0 = b as u32;
        self.0.w1 = (b >> 32) as u32;
    }

    /// Transfer length: bits 0..=16 of the third word.
    pub fn set_transfer_length(&mut self, l: u32)
        requires
            l < 0x20000,
        ensures
            final(self).0 == (RawTrb {
                w2: spec_set_bits32(old(self).0.w2, 0, 16, l),
                ..old(self).0
            }),
    {
        proof {
            crate::bits::lemma_bit_widths();
        }
        self.0.w2 = u32_set_bits(self.0.w2, 0, 16, l);
    }

    /// TD size: bits 17..=21 of the third word.
    pub fn set_td_size(&mut self, s: u8)
        requires
            s < 32,
        ensures
            final(self).0 == (RawTrb {
                w2: spec_set_bits32(old(self).0.w2, 17, 21, s as u32),
                ..old(self).0
            }),
    {
        proof {
            crate::bits::lemma_bit_widths();
        }
        self.0.w2 = u32_set_bits(self.0.w2, 17, 21, s as u32);
    }

    /// Direction: bit 16 of the last word; set for device-to-host.
    pub fn set_dir(&mut self, d: Direction)
        ensures
            final(self).0 == (RawTrb {
                w3: spec_set_bit32(old(self).0.w3, 16, d is In),
                ..old(self).0
            }),
    {
        self.0.w3 = u32_set_bit(self.0.w3, 16, d.bit());
    }

    /// Cycle bit: bit 0 of the last word.
    pub fn set_cycle_bit(&mut self, c: CycleBit)
        ensures
            final(self).0 == (RawTrb { w3: spec_set_bit32(old(self).0.w3, 0, c.0), ..old(self).0 }),
    {
        self.0.w3 = u32_set_bit(self.0.w3, 0, c.0);
    }

    /// TRB type: bits 10..=15 of the last word.
    pub fn set_trb_type(&mut self, id: u8)
        requires
            id < 64,
        ensures
            final(self).0 == (RawTrb {
                w3: spec_set_bits32(old(self).0.w3, 10, 15, id as u32),
                ..old(self).0
            }),
    {
        proof {
            crate::bits::lemma_bit_widths();
        }
        self.0.w3 = u32_set_bits(self.0.w3, 10, 15, id as u32);
    }

    /// A data stage for the buffer at physical address `buf` of `len`
    /// bytes, in direction `d`.
    pub fn new(buf: u64, len: u32, c: CycleBit, d: Direction) -> (t: DataStage)
        requires
            len < 0x20000,
        ensures
            t.0 == spec_data_stage(buf, len, c, d),
    {
        let mut t = Self::null();
        t.set_data_buf(buf);
        t.set_transfer_length(len);
        t.set_cycle_bit(c);
        t.set_trb_type(DATA_STAGE_ID);
        t.set_dir(d);
        t
    }
}

/// The words `DataStage::new` builds, as one formula.
pub open spec fn spec_data_stage(buf: u64, len: u32, c: CycleBit, d: Direction) -> RawTrb {
    RawTrb {
        w0: buf as u32,
        w1: (buf >> 32u64) as u32,
        w2: spec_set_bits32(0, 0, 16, len),
        w3: spec_set_bit32(
            spec_set_bits32(spec_set_bit32(0, 0, c.0), 10, 15, DATA_STAGE_ID as u32),
            16,
            d is In,
        ),
    }
}

/// A status stage TRB under construction.
#[derive(Copy, Clone, Debug, PartialEq, Eq, Structural)]
pub struct StatusStage(pub RawTrb);

impl StatusStage {
    pub fn null() -> (r: StatusStage)
        ensures
            r.0 == (RawTrb { w0: 0, w1: 0, w2: 0, w3: 0 }),
    {
        StatusStage(RawTrb::zeroed())
    }

    /// Interrupt-on-completion: bit 5 of the last word.
    pub fn set_ioc(&mut self, ioc: bool)
        ensures
            final(self).0 == (RawTrb { w3: spec_set_bit32(old(self).0.w3, 5, ioc), ..old(self).0 }),
    {
        self.0.w3 = u32_set_bit(self.0.w3, 5, ioc);
    }

    /// Cycle bit: bit 0 of the last word.
    pub fn set_cycle_bit(&mut self, c: CycleBit)
        ensures
            final(self).0 == (RawTrb { w3: spec_set_bit32(old(self).0.w3, 0, c.0), ..old(self).0 }),
    {
        self.0.w3 = u32_set_bit(self.0.w3, 0, c.0);
    }

    /// TRB type: bits 10..=15 of the last word.
    pub fn set_trb_type(&mut self, id: u8)
        requires
            id < 64,
        ensures
            final(self).0 == (RawTrb {
                w3: spec_set_bits32(old(self).0.w3, 10, 15, id as u32),
                ..old(self).0
            }),
    {
        proof {
            crate::bits::lemma_bit_widths();
        }
        self.0.w3 = u32_set_bits(self.0.w3, 10, 15, id as u32);
    }

    /// A status stage with interrupt-on-completion set.
    pub fn new(c: CycleBit) -> (t: StatusStage)
        ensures
            t.0 == spec_status_stage(c),
    {
        let mut t = Self::null();
        t.set_cycle_bit(c);
        t.set_ioc(true);
        t.set_trb_type(STATUS_STAGE_ID);
        t
    }
}

/// The words `StatusStage::new` builds, as one formula.
pub open spec fn spec_status_stage(c: CycleBit) -> RawTrb {
    RawTrb {
        w0: 0,
        w1: 0,
        w2: 0,
        w3: spec_set_bits32(
            spec_set_bit32(spec_set_bit32(0, 0, c.0), 5, true),
            10,
            15,
            STATUS_STAGE_ID as u32,
        ),
    }
}

/// One stage of a control transfer.
#[derive(Copy, Clone, Debug, PartialEq, Eq, Structural)]
pub enum Control {
    Setup(SetupStage),
    Data(DataStage),
    Status(StatusStage),
}

impl Control {
    /// The three stages of a GET_DESCRIPTOR control transfer for the
    /// buffer at physical address `buf` of `len` bytes.
    pub fn new_get_descriptor(buf: u64, len: u16, dti: DescTyIdx, c: CycleBit) -> (r: (
        Control,
        Control,
        Control,
    ))
        ensures
            r.0 == Control::Setup(SetupStage(spec_setup_get_descriptor(len, dti, c))),
            r.1 == Control::Data(DataStage(spec_data_stage(buf, len as u32, c, Direction::In))),
            r.2 == Control::Status(StatusStage(spec_status_stage(c))),
    {
        let setup = SetupStage::new_get_descriptor(len, dti, c);
        let data = DataStage::new(buf, len as u32, c, Direction::In);
        let status = StatusStage::new(c);
        (Control::Setup(setup), Control::Data(data), Control::Status(status))
    }

    /// The raw words of this stage.
    pub fn to_raw(self) -> (r: RawTrb)
        ensures
            r == self.spec_raw(),
    {
        match self {
            Control::Setup(t) => t.0,
            Control::Data(t) => t.0,
            Control::Status(t) => t.0,
        }
    }

    /// What `to_raw` returns.
    pub open spec fn spec_raw(self) -> RawTrb {
        match self {
            Control::Setup(t) => t.0,
            Control::Data(t) => t.0,
            Control::Status(t) => t.0,
        }
    }

    /// Whether this stage requests an interrupt on completion: bit 5 of
    /// its last word.
    pub fn ioc(&self) -> (r: bool)
        ensures
            r == spec_get_bit32(self.spec_raw().w3, 5),
    {
        let raw = self.to_raw();
        u32_get_bit(raw.w3, 5)
    }
}

/// A TRB that can be placed on the transfer ring.
#[derive(Copy, Clone, Debug, PartialEq, Eq, Structural)]
pub enum Trb {
    Control(Control),
    Link(Link),
}

/// A TRB's size in bytes.
pub const TRB_SIZE: usize = 16;

impl Trb {
    /// The three TRBs of a GET_DESCRIPTOR control transfer.
    pub fn new_get_descriptor(buf: u64, len: u16, dti: DescTyIdx, c: CycleBit) -> (r: (
        Trb,
        Trb,
        Trb,
    ))
        ensures
            r.0 == Trb::Control(Control::Setup(SetupStage(spec_setup_get_descriptor(len, dti, c)))),
            r.1 == Trb::Control(
                Control::Data(DataStage(spec_data_stage(buf, len as u32, c, Direction::In))),
            ),
            r.2 == Trb::Control(Control::Status(StatusStage(spec_status_stage(c)))),
    {
        let (setup, data, status) = Control::new_get_descriptor(buf, len, dti, c);
        (Trb::Control(setup), Trb::Control(data), Trb::Control(status))
    }

    /// A link TRB targeting ring-relative byte offset `a`.
    pub fn new_link(a: u64) -> (r: Trb)
        requires
            a % 16 == 0,
        ensures
            r == Trb::Link(Link(spec_link_words(a))),
    {
        Trb::Link(Link::new(a))
    }

    /// Force the cycle bit. Only a link TRB supports this; the cycle bit
    /// of a control stage is fixed when the stage is built.
    pub fn set_c(&mut self, c: CycleBit)
        requires
            *old(self) is Link,
        ensures
            *final(self) matches Trb::Link(l) && *old(self) matches Trb::Link(ol) && l.0 == (RawTrb {
                w3: spec_set_bit32(ol.0.w3, 0, c.0),
                ..ol.0
            }),
    {
        match self {
            Trb::Control(_) => {
                proof {
                    assert(false);
                }
            },
            Trb::Link(l) => {
                l.set_cycle_bit(c);
            },
        }
    }

    /// Whether this TRB requests an interrupt on completion; a link TRB
    /// never does here.
    pub fn ioc(&self) -> (r: bool)
        ensures
            r == match self {
                Trb::Control(c) => spec_get_bit32(c.spec_raw().w3, 5),
                Trb::Link(_) => false,
            },
    {
        match self {
            Trb::Control(c) => c.ioc(),
            Trb::Link(_) => false,
        }
    }

    /// The raw words of this TRB.
    pub fn to_raw(self) -> (r: RawTrb)
        ensures
            r == self.spec_raw(),
    {
        match self {
            Trb::Control(c) => c.to_raw(),
            Trb::Link(l) => l.0,
        }
    }

    /// What `to_raw` returns.
    pub open spec fn spec_raw(self) -> RawTrb {
        match self {
            Trb::Control(c) => c.spec_raw(),
            Trb::Link(l) => l.0,
        }
    }
}

/// Why an enqueue can fail.
#[derive(Debug, Clone, Copy, PartialEq, Eq, Structural)]
pub enum Error {
    QueueIsFull,
}

/// The raw transfer ring: the TRB slots, the enqueue pointer and the
/// producer cycle state.
pub struct Raw {
    /// The ring memory, one slot per TRB.
    pub ring: Vec<RawTrb>,
    /// Index of the next slot to write.
    pub enq_p: usize,
    /// Producer cycle state.
    pub c: CycleBit,
}

impl Raw {
    /// The ring is always fully allocated and the enqueue pointer stays
    /// ahead of the link slot at the very end.
    pub open spec fn wf(&self) -> bool {
        &&& self.ring@.len() == SIZE_OF_RING
        &&& self.enq_p < SIZE_OF_RING - 1
    }

    /// A zeroed ring with the enqueue pointer at the start and the cycle
    /// state set.
    pub fn new() -> (r: Raw)
        ensures
            r.wf(),
            r.enq_p == 0,
            r.c.0 == true,
            forall|i: int| 0 <= i < SIZE_OF_RING ==> r.ring@[i] == (RawTrb {
                w0: 0,
                w1: 0,
                w2: 0,
                w3: 0,
            }),
    {
        let mut ring: Vec<RawTrb> = Vec::new();
        let mut i: usize = 0;
        while i < SIZE_OF_RING
            invariant
                i <= SIZE_OF_RING,
                ring@.len() == i,
                forall|k: int| 0 <= k < i ==> ring@[k] == (RawTrb { w0: 0, w1: 0, w2: 0, w3: 0 }),
            decreases SIZE_OF_RING - i,
        {
            ring.push(RawTrb::zeroed());
            i = i + 1;
        }
        Raw { ring, enq_p: 0, c: CycleBit(true) }
    }

    /// The number of TRB slots.
    pub fn len(&self) -> (r: usize)
        ensures
            r == self.ring@.len(),
    {
        self.ring.len()
    }

    /// The cycle bit of the slot the enqueue pointer stands on.
    pub fn c_bit_of_next_trb(&self) -> (r: CycleBit)
        requires
            self.enq_p < self.ring@.len(),
        ensures
            r.0 == self.ring@[self.enq_p as int].spec_cycle_bit(),
    {
        let raw = self.ring[self.enq_p];
        CycleBit::new(raw.cycle_bit())
    }

    /// The ring is full when the slot under the enqueue pointer still
    /// carries the producer's own cycle state: the consumer has not taken
    /// it yet.
    pub fn full(&self) -> (r: bool)
        requires
            self.enq_p < self.ring@.len(),
        ensures
            r == (self.ring@[self.enq_p as int].spec_cycle_bit() == self.c.0),
    {
        let next = self.c_bit_of_next_trb();
        next.0 == self.c.0
    }

    /// Write `trb` to the slot under the enqueue pointer.
    pub fn write_trb_on_memory(&mut self, trb: Trb)
        requires
            old(self).enq_p < old(self).ring@.len(),
        ensures
            final(self).ring@ == old(self).ring@.update(
                old(self).enq_p as int,
                trb.spec_raw(),
            ),
            final(self).enq_p == old(self).enq_p,
            final(self).c == old(self).c,
    {
        let raw = trb.to_raw();
        self.ring[self.enq_p] = raw;
    }

    /// Byte offset of the slot under the enqueue pointer from the ring's
    /// start.
    pub fn addr_to_enqueue_ptr(&self) -> (r: u64)
        requires
            self.ring@.len() <= SIZE_OF_RING,
            self.enq_p < self.ring@.len(),
        ensures
            r == 16 * self.enq_p,
    {
        (TRB_SIZE as u64) * (self.enq_p as u64)
    }

    /// Advance the enqueue pointer. Reaching the last slot, it writes the
    /// link TRB there with the producer's cycle state, wraps to the
    /// start, and toggles the cycle state.
    pub fn increment_enqueue_ptr(&mut self)
        requires
            old(self).wf(),
        ensures
            final(self).wf(),
            if old(self).enq_p + 1 < old(self).ring@.len() - 1 {
                *final(self) == (Raw { enq_p: (old(self).enq_p + 1) as usize, ..*old(self) })
            } else {
                final(self).enq_p == 0 && final(self).c.0 == !old(self).c.0
                    && final(self).ring@ == old(self).ring@.update(
                    old(self).ring@.len() - 1,
                    RawTrb {
                        w3: spec_set_bit32(spec_link_words(0).w3, 0, old(self).c.0),
                        ..spec_link_words(0)
                    },
                )
            },
    {
        self.enq_p = self.enq_p + 1;
        if self.enq_p < self.len() - 1 {
            return ;
        }
        self.append_link_trb();
        self.move_enqueue_ptr_to_the_beginning();
    }

    /// Write the link TRB, carrying the producer's cycle state and
    /// targeting the ring's start, into the slot under the enqueue
    /// pointer.
    pub fn append_link_trb(&mut self)
        requires
            old(self).enq_p < old(self).ring@.len(),
        ensures
            final(self).ring@ == old(self).ring@.update(
                old(self).enq_p as int,
                RawTrb {
                    w3: spec_set_bit32(spec_link_words(0).w3, 0, old(self).c.0),
                    ..spec_link_words(0)
                },
            ),
            final(self).enq_p == old(self).enq_p,
            final(self).c == old(self).c,
    {
        let mut link = Trb::new_link(0);
        link.set_c(self.c);
        let raw = link.to_raw();
        self.ring[self.enq_p] = raw;
    }

    /// Wrap the enqueue pointer to the start and toggle the cycle state.
    pub fn move_enqueue_ptr_to_the_beginning(&mut self)
        ensures
            final(self).enq_p == 0,
            final(self).c.0 == !old(self).c.0,
            final(self).ring@ == old(self).ring@,
    {
        self.enq_p = 0;
        self.c.toggle();
    }

    /// Write `trb` at the enqueue pointer and advance it, returning the
    /// written slot's byte offset from the ring's start.
    pub fn enqueue(&mut self, trb: Trb) -> (r: u64)
        requires
            old(self).wf(),
        ensures
            final(self).wf(),
            r == 16 * old(self).enq_p,
            final(self).ring@[old(self).enq_p as int] == trb.spec_raw(),
    {
        self.write_trb_on_memory(trb);
        let addr_to_trb = self.addr_to_enqueue_ptr();
        self.increment_enqueue_ptr();
        addr_to_trb
    }

    /// Enqueue unless the ring is full.
    pub fn try_enqueue(&mut self, trb: Trb) -> (r: Result<u64, Error>)
        requires
            old(self).wf(),
        ensures
            final(self).wf(),
            match r {
                Err(Error::QueueIsFull) => {
                    &&& old(self).ring@[old(self).enq_p as int].spec_cycle_bit() == old(self).c.0
                    &&& *final(self) == *old(self)
                },
                Ok(off) => {
                    &&& old(self).ring@[old(self).enq_p as int].spec_cycle_bit() != old(self).c.0
                    &&& off == 16 * old(self).enq_p
                    &&& final(self).ring@[old(self).enq_p as int] == trb.spec_raw()
                },
            },
    {
        if self.full() {
            Err(Error::QueueIsFull)
        } else {
            Ok(self.enqueue(trb))
        }
    }
}

/// A transfer ring.
pub struct Ring {
    /// The raw ring.
    pub raw: Raw,
}

impl Ring {
    /// A fresh, zeroed transfer ring.
    pub fn new() -> (r: Ring)
        ensures
            r.raw.wf(),
            r.raw.enq_p == 0,
            r.raw.c.0 == true,
    {
        Ring { raw: Raw::new() }
    }
}

} // verus!
