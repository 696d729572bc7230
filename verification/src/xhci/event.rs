//! Event-ring TRBs as the host controller delivers them: classification
//! of a raw 16-byte entry by the TRB type field.

use vstd::prelude::*;

use crate::bits::{spec_get_bits32, u32_get_bits};
use crate::xhci::transfer::RawTrb;

verus! {

/// TRB type identifier of a command-completion event.
pub const COMPLETION_ID: u8 = 33;

/// TRB type identifier of a port-status-change event.
pub const PORT_STATUS_CHANGE_ID: u8 = 34;

/// A command-completion event, kept as its raw words.
#[derive(Copy, Clone, Debug, PartialEq, Eq, Structural)]
pub struct Completion(pub RawTrb);

/// A port-status-change event, kept as its raw words.
#[derive(Copy, Clone, Debug, PartialEq, Eq, Structural)]
pub struct PortStatusChange(pub RawTrb);

/// An event TRB this kernel understands.
#[derive(Copy, Clone, Debug, PartialEq, Eq, Structural)]
pub enum Trb {
    Completion(Completion),
    PortStatusChange(PortStatusChange),
}

/// Why an event TRB cannot be classified.
#[derive(Debug, Clone, Copy, PartialEq, Eq, Structural)]
pub enum Error {
    UnrecognizedId,
}

/// The TRB type field: bits 10..=15 of the last word.
pub open spec fn spec_trb_id(raw: RawTrb) -> u32 {
    spec_get_bits32(raw.w3, 10, 15)
}

impl Trb {
    /// A TRB's size in bytes.
    pub fn size() -> (r: usize)
        ensures
            r == 16,
    {
        16
    }

    /// Classify a raw event-ring entry by its TRB type field; entries of
    /// any other type are unrecognized.
    pub fn from_raw(raw: RawTrb) -> (r: Result<Trb, Error>)
        ensures
            match r {
                Ok(Trb::PortStatusChange(p)) => spec_trb_id(raw) == PORT_STATUS_CHANGE_ID && p.0
                    == raw,
                Ok(Trb::Completion(c)) => spec_trb_id(raw) == COMPLETION_ID && c.0 == raw,
                Err(Error::UnrecognizedId) => spec_trb_id(raw) != COMPLETION_ID && spec_trb_id(raw)
                    != PORT_STATUS_CHANGE_ID,
            },
    {
        let id = u32_get_bits(raw.w3, 10, 15);
        if id == PORT_STATUS_CHANGE_ID as u32 {
            Ok(Trb::PortStatusChange(PortStatusChange(raw)))
        } else if id == COMPLETION_ID as u32 {
            Ok(Trb::Completion(Completion(raw)))
        } else {
            Err(Error::UnrecognizedId)
        }
    }
}

} // verus!
