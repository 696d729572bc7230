//! The video memory description and the DAC palette values the boot path
//! programs. The palette bytes computed here are what an outer layer
//! writes to the palette ports, one component at a time.

use vstd::prelude::*;

verus! {

/// The framebuffer as the boot information describes it: resolution and
/// the address of the pixel memory.
#[derive(Clone, Copy, Debug, PartialEq, Eq, Structural)]
pub struct Vram {
    pub x_len: i16,
    pub y_len: i16,
    pub ptr: u64,
}

impl Vram {
    /// A framebuffer of the given resolution at the given address.
    pub fn new(x_len: i16, y_len: i16, ptr: u64) -> (r: Vram)
        ensures
            r.x_len == x_len,
            r.y_len == y_len,
            r.ptr == ptr,
    {
        Vram { x_len, y_len, ptr }
    }

    /// The 48 DAC values of the standard 16-colour palette, in register
    /// order: three 6-bit components per colour, each the 8-bit component
    /// shifted right by two.
    pub fn init_palette(&self) -> (r: Vec<u8>)
        ensures
            r@ == palette_bytes(),
    {
        let table: [[u8; 3]; 16] = [
            [0x00, 0x00, 0x00],
            [0xff, 0x00, 0x00],
            [0x00, 0xff, 0x00],
            [0xff, 0xff, 0x00],
            [0x00, 0x00, 0xff],
            [0xff, 0x00, 0xff],
            [0x00, 0xff, 0xff],
            [0xff, 0xff, 0xff],
            [0xc6, 0xc6, 0xc6],
            [0x84, 0x00, 0x00],
            [0x00, 0x84, 0x00],
            [0x84, 0x84, 0x00],
            [0x00, 0x00, 0x84],
            [0x84, 0x00, 0x84],
            [0x00, 0x84, 0x84],
            [0x84, 0x84, 0x84],
        ];
        let r = Self::set_palette(&table);
        proof {
            assert(r@ =~= palette_bytes());
        }
        r
    }

    /// The DAC values for a full 16-colour table: each 8-bit component
    /// becomes the 6-bit value the palette port takes, by dropping the
    /// two low bits.
    pub fn set_palette(rgb: &[[u8; 3]; 16]) -> (r: Vec<u8>)
        ensures
            r@.len() == 48,
            forall|i: int, j: int|
                0 <= i < 16 && 0 <= j < 3 ==> r@[3 * i + j] == #[trigger] rgb@[i]@[j] / 4,
    {
        let mut r: Vec<u8> = Vec::new();
        let mut i: usize = 0;
        while i < 16
            invariant
                i <= 16,
                r@.len() == 3 * i,
                forall|k: int, j: int|
                    0 <= k < i && 0 <= j < 3 ==> r@[3 * k + j] == #[trigger] rgb@[k]@[j] / 4,
            decreases 16 - i,
        {
            let row: [u8; 3] = rgb[i];
            let mut j: usize = 0;
            while j < 3
                invariant
                    i < 16,
                    j <= 3,
                    row == rgb@[i as int],
                    r@.len() == 3 * i + j,
                    forall|k: int, j2: int|
                        0 <= k < i && 0 <= j2 < 3 ==> r@[3 * k + j2] == #[trigger] rgb@[k]@[j2] / 4,
                    forall|j2: int| 0 <= j2 < j ==> r@[3 * i + j2] == #[trigger] rgb@[i as int]@[j2] / 4,
                decreases 3 - j,
            {
                let b = row[j];
                r.push(b >> 2);
                proof {
                    assert(b >> 2u8 == b / 4) by (bit_vector);
                }
                j = j + 1;
            }
            i = i + 1;
        }
        r
    }
}

/// The palette bytes of the standard table: each component of each of
/// the 16 colours, divided by four.
pub open spec fn palette_bytes() -> Seq<u8> {
    seq![
        0x00u8, 0x00u8, 0x00u8,
        0x3fu8, 0x00u8, 0x00u8,
        0x00u8, 0x3fu8, 0x00u8,
        0x3fu8, 0x3fu8, 0x00u8,
        0x00u8, 0x00u8, 0x3fu8,
        0x3fu8, 0x00u8, 0x3fu8,
        0x00u8, 0x3fu8, 0x3fu8,
        0x3fu8, 0x3fu8, 0x3fu8,
        0x31u8, 0x31u8, 0x31u8,
        0x21u8, 0x00u8, 0x00u8,
        0x00u8, 0x21u8, 0x00u8,
        0x21u8, 0x21u8, 0x00u8,
        0x00u8, 0x00u8, 0x21u8,
        0x21u8, 0x00u8, 0x21u8,
        0x00u8, 0x21u8, 0x21u8,
        0x21u8, 0x21u8, 0x21u8,
    ]
}

} // verus!
