//! The global descriptor table image: three 8-byte segment descriptors
//! and the selector offsets and limit the `lgdt` sequence of an outer
//! layer loads from it.

use vstd::prelude::*;

verus! {

/// Number of descriptors in the table.
pub const NUM_OF_ENTRIES_OF_GDT: usize = 3;

/// One 8-byte segment descriptor, field by field.
#[derive(Copy, Clone, Debug, PartialEq, Eq, Structural)]
pub struct GdtEntry {
    pub limit_low: u16,
    pub base_low: u16,
    pub base_mid: u8,
    pub type_s_dpl_p: u8,
    pub limit_high_avl_l_db_g: u8,
    pub base_high: u8,
}

impl GdtEntry {
    pub fn new(
        limit_low: u16,
        base_low: u16,
        base_mid: u8,
        type_s_dpl_p: u8,
        limit_high_avl_l_db_g: u8,
        base_high: u8,
    ) -> (r: GdtEntry)
        ensures
            r == (GdtEntry {
                limit_low,
                base_low,
                base_mid,
                type_s_dpl_p,
                limit_high_avl_l_db_g,
                base_high,
            }),
    {
        GdtEntry { limit_low, base_low, base_mid, type_s_dpl_p, limit_high_avl_l_db_g, base_high }
    }
}

/// The descriptor table: a null entry, a data segment and a code segment.
#[derive(Copy, Clone, Debug)]
pub struct Gdt {
    pub entries: [GdtEntry; 3],
}

impl Gdt {
    pub fn new(entries: [GdtEntry; 3]) -> (r: Gdt)
        ensures
            r.entries == entries,
    {
        Gdt { entries }
    }

    /// Selector offset of the code segment: the third descriptor.
    pub fn offset_of_code_segment(&self) -> (r: u16)
        ensures
            r == 0x10,
    {
        0x10
    }

    /// Selector offset of the data segment: the second descriptor.
    pub fn offset_of_data_segment(&self) -> (r: u16)
        ensures
            r == 0x08,
    {
        0x08
    }

    /// The limit value for `lgdt`: the table's byte size minus one, with
    /// eight bytes per descriptor.
    pub fn get_limit(&self) -> (r: u16)
        ensures
            r == 8 * NUM_OF_ENTRIES_OF_GDT - 1,
    {
        (NUM_OF_ENTRIES_OF_GDT as u16) * 8 - 1
    }
}

} // verus!
