//! PCI configuration-space addressing: the typed bus/device/function and
//! register-index values and the 32-bit configuration address built from
//! them. The actual port I/O that carries such an address to the hardware
//! belongs to an outer layer; everything here is the arithmetic.

use vstd::prelude::*;

verus! {

/// Number of 32-bit registers in one function's configuration space.
pub const NUM_REGISTERS: usize = 64;

/// A PCI bus number.
#[derive(Copy, Clone, Debug, PartialEq, Eq, Structural)]
pub struct Bus(pub u32);

impl Bus {
    pub fn new(bus: u32) -> (r: Bus)
        ensures
            r.0 == bus,
    {
        Bus(bus)
    }

    pub fn as_u32(self) -> (r: u32)
        ensures
            r == self.0,
    {
        self.0
    }
}

/// A device number on a bus; always below 32.
#[derive(Copy, Clone, Debug, PartialEq, Eq, Structural)]
pub struct Device(pub u32);

impl Device {
    pub fn new(device: u32) -> (r: Device)
        requires
            device < 32,
        ensures
            r.0 == device,
    {
        Device(device)
    }

    pub fn as_u32(self) -> (r: u32)
        ensures
            r == self.0,
    {
        self.0
    }
}

/// A function number of a device; always below 8.
#[derive(Copy, Clone, Debug, PartialEq, Eq, Structural)]
pub struct Function(pub u32);

impl Function {
    pub fn new(function: u32) -> (r: Function)
        requires
            function < 8,
        ensures
            r.0 == function,
    {
        Function(function)
    }

    pub fn zero() -> (r: Function)
        ensures
            r.0 == 0,
    {
        Function(0)
    }

    pub fn as_u32(self) -> (r: u32)
        ensures
            r == self.0,
    {
        self.0
    }
}

/// Index of a 32-bit register in configuration space; always below
/// [`NUM_REGISTERS`].
#[derive(Debug, Copy, Clone, PartialEq, Eq, Structural)]
pub struct RegisterIndex(pub usize);

impl RegisterIndex {
    pub fn new(offset: usize) -> (r: RegisterIndex)
        requires
            offset < NUM_REGISTERS,
        ensures
            r.0 == offset,
    {
        RegisterIndex(offset)
    }

    pub fn zero() -> (r: RegisterIndex)
        ensures
            r.0 == 0,
    {
        RegisterIndex(0)
    }

    pub fn as_usize(self) -> (r: usize)
        ensures
            r == self.0,
    {
        self.0
    }

    pub fn is_null(self) -> (r: bool)
        ensures
            r == (self.0 == 0),
    {
        self.0 == 0
    }
}

/// A byte offset into configuration space: a multiple of 4 below 256.
#[derive(Debug, Copy, Clone, PartialEq, Eq, Structural)]
pub struct Offset(pub usize);

impl Offset {
    pub fn new(offset: usize) -> (r: Offset)
        requires
            offset % 4 == 0,
            offset < 256,
        ensures
            r.0 == offset,
    {
        Offset(offset)
    }

    pub fn as_register_index(self) -> (r: RegisterIndex)
        requires
            self.0 < 256,
        ensures
            r.0 == self.0 / 4,
    {
        RegisterIndex::new(self.0 / 4)
    }
}

/// The 32-bit value written to the configuration-address port: the enable
/// bit, then bus, device, function and register index in their fields.
pub open spec fn config_address(bus: u32, device: u32, function: u32, register: u32) -> u32
    recommends
        device < 32,
        function < 8,
        register < 64,
{
    (0x8000_0000u64 | (((bus & 0xffff) as u64) << 16u64) | ((device as u64) << 11u64) | (
    (function as u64) << 8u64) | ((register as u64) << 2u64)) as u32
}

/// The address of one configuration register of one function.
#[derive(Copy, Clone, Debug, PartialEq, Eq, Structural)]
pub struct ConfigAddress {
    pub bus: Bus,
    pub device: Device,
    pub function: Function,
    pub register: RegisterIndex,
}

impl ConfigAddress {
    pub fn new(bus: Bus, device: Device, function: Function, register: RegisterIndex) -> (r:
        ConfigAddress)
        ensures
            r.bus == bus,
            r.device == device,
            r.function == function,
            r.register == register,
    {
        ConfigAddress { bus, device, function, register }
    }

    /// The value for the configuration-address port. Only the low 16 bits
    /// of the bus number take part: the higher ones fall off the 32-bit
    /// value when shifted into place.
    pub fn as_u32(&self) -> (r: u32)
        requires
            self.device.0 < 32,
            self.function.0 < 8,
            self.register.0 < 64,
        ensures
            r == config_address(self.bus.0, self.device.0, self.function.0, self.register.0 as u32),
    {
        let bus = (self.bus.as_u32() & 0xffff) as u64;
        let device = self.device.as_u32() as u64;
        let function = self.function.as_u32() as u64;
        let register = self.register.as_usize() as u64;
        let v: u64 = 0x8000_0000u64 | (bus << 16) | (device << 11) | (function << 8) | (register
            << 2);
        v as u32
    }
}

/// The identifier byte of a PCI capability, as read from the low byte of
/// its first configuration register.
#[derive(Copy, Clone, Debug, PartialEq, Eq, Structural)]
pub struct CapabilityId(pub u32);

impl CapabilityId {
    /// The capability identifier carried in the low byte of the raw
    /// register value.
    pub fn new(raw: u32) -> (r: CapabilityId)
        ensures
            r.0 == raw & 0xff,
    {
        CapabilityId(raw & 0xff)
    }

    /// Whether this is the MSI-X capability.
    pub fn is_msi_x(self) -> (r: bool)
        ensures
            r == (self.0 == 0x11),
    {
        self.0 == 0x11
    }
}

/// Header of an extended capability as it sits in configuration space: an
/// identifier byte and the byte offset of the next capability in the
/// chain.
#[derive(Copy, Clone, Debug, PartialEq, Eq, Structural)]
pub struct ExtendedCapability {
    pub capability_id: u8,
    pub next_ptr: u8,
}

} // verus!
