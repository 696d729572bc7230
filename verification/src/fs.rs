//! The initial ramdisk's archive format: fixed 76-byte headers in the
//! portable ASCII cpio layout, with octal-encoded sizes, a NUL-terminated
//! file name after each header, and a trailer entry that ends the list.

use vstd::prelude::*;

use vstd::slice::{slice_index_get, slice_subrange};

verus! {

/// Size in bytes of one archive header.
pub const HEADER_BYTES: usize = 76;

/// Why the archive cannot be read.
#[derive(Debug, Clone, Copy, PartialEq, Eq, Structural)]
pub enum FsError {
    /// A header does not start with the magic digits `070707`.
    InvalidSignature,
    /// A size field holds a byte outside `0`..`7`.
    BadOctalDigit,
    /// A size field encodes a value that does not fit its type.
    SizeOutOfRange,
    /// An entry runs past the end of the archive.
    Truncated,
    /// A file name is not terminated before its recorded size.
    UnterminatedName,
}

/// Every byte of `s` is an ASCII octal digit.
pub open spec fn all_octal(s: Seq<u8>) -> bool {
    forall|i: int| 0 <= i < s.len() ==> 0x30 <= #[trigger] s[i] <= 0x37
}

/// The value of the octal digit string `s`, most significant digit first.
pub open spec fn octal_val(s: Seq<u8>) -> int
    decreases s.len(),
{
    if s.len() == 0 {
        0
    } else {
        octal_val(s.drop_last()) * 8 + (s.last() - 0x30)
    }
}

/// Parse a non-empty string of octal digits into a 16-bit value: the
/// radix-8 reading of the ASCII digits. Rejects non-digit bytes and
/// values beyond `u16::MAX`.
pub fn byte_array_to_str(b: &[u8]) -> (r: Result<u16, FsError>)
    ensures
        match r {
            Ok(v) => all_octal(b@) && octal_val(b@) <= u16::MAX && v == octal_val(b@),
            Err(FsError::BadOctalDigit) => !all_octal(b@),
            Err(FsError::SizeOutOfRange) => all_octal(b@) && octal_val(b@) > u16::MAX,
            Err(_) => false,
        },
{
    let n = b.len();
    let mut i: usize = 0;
    while i < n
        invariant
            n == b@.len(),
            i <= n,
            all_octal(b@.take(i as int)),
        decreases n - i,
    {
        let d = *slice_index_get(b, i);
        if d < 0x30 || d > 0x37 {
            return Err(FsError::BadOctalDigit);
        }
        proof {
            assert forall|k: int| 0 <= k < i + 1 implies 0x30 <= #[trigger] b@.take(i + 1)[k]
                <= 0x37 by {
                if k < i {
                    assert(b@.take(i as int)[k] == b@.take(i + 1)[k]);
                }
            }
        }
        i = i + 1;
    }
    proof {
        assert(b@.take(n as int) =~= b@);
    }
    let mut acc: u32 = 0;
    i = 0;
    while i < n
        invariant
            n == b@.len(),
            i <= n,
            all_octal(b@),
            acc == octal_val(b@.take(i as int)),
            acc <= u16::MAX,
        decreases n - i,
    {
        let d = *slice_index_get(b, i);
        let next: u32 = acc * 8 + (d - 0x30) as u32;
        proof {
            assert(b@.take(i + 1).drop_last() =~= b@.take(i as int));
            assert(b@.take(i + 1).last() == b@[i as int]);
        }
        if next > 0xffff {
            proof {
                lemma_octal_prefix_monotonic(b@, i + 1);
            }
            return Err(FsError::SizeOutOfRange);
        }
        acc = next;
        i = i + 1;
    }
    proof {
        assert(b@.take(n as int) =~= b@);
    }
    Ok(acc as u16)
}

/// An octal digit string never encodes a negative value.
proof fn lemma_octal_nonneg(s: Seq<u8>)
    requires
        all_octal(s),
    ensures
        octal_val(s) >= 0,
    decreases s.len(),
{
    if s.len() > 0 {
        assert forall|i: int| 0 <= i < s.drop_last().len() implies 0x30 <= #[trigger] s.drop_last()[i] <= 0x37 by {
            assert(s.drop_last()[i] == s[i]);
        }
        lemma_octal_nonneg(s.drop_last());
    }
}

/// A longer octal string never encodes a smaller value: dropping trailing
/// digits cannot increase the reading.
proof fn lemma_octal_prefix_monotonic(s: Seq<u8>, k: int)
    requires
        0 <= k <= s.len(),
        all_octal(s),
    ensures
        octal_val(s.take(k)) <= octal_val(s),
    decreases s.len() - k,
{
    if k < s.len() {
        lemma_octal_prefix_monotonic(s, k + 1);
        assert(s.take(k + 1).drop_last() =~= s.take(k));
        assert(s.take(k + 1).last() == s[k]);
        assert forall|i: int| 0 <= i < k implies 0x30 <= #[trigger] s.take(k)[i] <= 0x37 by {
            assert(s.take(k)[i] == s[i]);
        }
        lemma_octal_nonneg(s.take(k));
        assert(octal_val(s.take(k)) <= octal_val(s.take(k + 1)));
    } else {
        assert(s.take(k) =~= s);
    }
}

/// One parsed archive header: the name and file sizes this kernel reads
/// from it.
#[derive(Debug, Clone, Copy, PartialEq, Eq, Structural)]
pub struct CpioHeader {
    /// Bytes of the name, including its terminating NUL.
    pub namesize: u16,
    /// Bytes of the file body.
    pub filesize: u16,
}

/// The header at the start of `b` is well-formed: the magic digits are
/// present and both size fields are octal values in range.
pub open spec fn header_ok(b: Seq<u8>) -> bool {
    &&& b.len() >= HEADER_BYTES
    &&& b.subrange(0, 6) =~= magic_seq()
    &&& all_octal(b.subrange(59, 65)) && octal_val(b.subrange(59, 65)) <= u16::MAX
    &&& all_octal(b.subrange(65, 76)) && octal_val(b.subrange(65, 76)) <= u16::MAX
}

/// The six magic bytes `070707`.
pub open spec fn magic_seq() -> Seq<u8> {
    seq![0x30u8, 0x37u8, 0x30u8, 0x37u8, 0x30u8, 0x37u8]
}

/// The header values encoded at the start of `b`.
pub open spec fn spec_header(b: Seq<u8>) -> CpioHeader {
    CpioHeader {
        namesize: octal_val(b.subrange(59, 65)) as u16,
        filesize: octal_val(b.subrange(65, 76)) as u16,
    }
}

impl CpioHeader {
    /// Bytes of the name, including its terminating NUL.
    pub fn name_size(&self) -> (r: u16)
        ensures
            r == self.namesize,
    {
        self.namesize
    }

    /// Bytes of the file body.
    pub fn file_size(&self) -> (r: u16)
        ensures
            r == self.filesize,
    {
        self.filesize
    }

    /// Parse the header at the start of `b`: check the magic digits and
    /// read the two size fields. The name-size field is the six octal
    /// digits at offset 59, the file-size field the eleven at offset 65.
    pub fn parse(b: &[u8]) -> (r: Result<CpioHeader, FsError>)
        ensures
            match r {
                Ok(h) => header_ok(b@) && h == spec_header(b@),
                Err(_) => !header_ok(b@),
            },
    {
        if b.len() < HEADER_BYTES {
            return Err(FsError::Truncated);
        }
        let mut i: usize = 0;
        while i < 6
            invariant
                b@.len() >= HEADER_BYTES,
                i <= 6,
                forall|k: int| 0 <= k < i ==> b@[k] == magic_seq()[k],
            decreases 6 - i,
        {
            let c = *slice_index_get(b, i);
            let expected: u8 = if i % 2 == 0 {
                0x30
            } else {
                0x37
            };
            if c != expected {
                proof {
                    assert(magic_seq()[i as int] == expected);
                    assert(b@.subrange(0, 6) != magic_seq()) by {
                        assert(b@.subrange(0, 6)[i as int] == b@[i as int]);
                    }
                }
                return Err(FsError::InvalidSignature);
            }
            proof {
                assert(magic_seq()[i as int] == expected);
            }
            i = i + 1;
        }
        proof {
            assert(b@.subrange(0, 6) =~= magic_seq());
        }
        let namesize = match byte_array_to_str(slice_subrange(b, 59, 65)) {
            Ok(v) => v,
            Err(e) => {
                return Err(e);
            },
        };
        let filesize = match byte_array_to_str(slice_subrange(b, 65, 76)) {
            Ok(v) => v,
            Err(e) => {
                return Err(e);
            },
        };
        Ok(CpioHeader { namesize, filesize })
    }
}

/// One listed archive member: its name bytes (without the NUL) and its
/// sizes.
#[derive(Debug, PartialEq, Eq)]
pub struct FileEntry {
    pub name: Vec<u8>,
    pub name_size: u16,
    pub file_size: u16,
}

/// The archive bytes `b` hold, at `pos`, a well-formed member record
/// whose NUL-terminated name (without the NUL) is `name` and whose size
/// fields read `nsz` and `fsz`.
pub open spec fn entry_at(b: Seq<u8>, pos: int, name: Seq<u8>, nsz: u16, fsz: u16) -> bool {
    &&& 0 <= pos
    &&& pos + HEADER_BYTES + nsz <= b.len()
    &&& header_ok(b.skip(pos))
    &&& spec_header(b.skip(pos)) == (CpioHeader { namesize: nsz, filesize: fsz })
    &&& nsz >= 1
    &&& name == b.subrange(pos + HEADER_BYTES, pos + HEADER_BYTES + nsz - 1)
    &&& (forall|i: int| 0 <= i < name.len() ==> name[i] != 0)
    &&& b[pos + HEADER_BYTES + nsz - 1] == 0
}

/// The byte position of the member after one at `pos` with the given
/// sizes: past the header, the name field and the file body.
pub open spec fn next_entry_pos(pos: int, nsz: u16, fsz: u16) -> int {
    pos + HEADER_BYTES + nsz + fsz
}

/// The members listed in `entries` sit in the archive `b` back to back
/// from position 0, each a well-formed record, and a trailer record
/// follows the last of them.
pub open spec fn lists_archive(b: Seq<u8>, entries: Seq<FileEntry>) -> bool {
    exists|poss: Seq<int>|
        {
            &&& poss.len() == entries.len() + 1
            &&& poss[0] == 0
            &&& (forall|k: int|
                0 <= k < entries.len() ==> entry_at(
                    b,
                    #[trigger] poss[k],
                    entries[k].name@,
                    entries[k].name_size,
                    entries[k].file_size,
                ))
            &&& (forall|k: int|
                0 <= k < entries.len() ==> poss[k + 1] == next_entry_pos(
                    #[trigger] poss[k],
                    entries[k].name_size,
                    entries[k].file_size,
                ))
            &&& (exists|tn: u16, tf: u16|
                entry_at(b, poss[entries.len() as int], trailer_seq(), tn, tf))
        }
}

/// List the archive's member names and sizes, walking header by header
/// until the trailer entry. Each entry's name is the NUL-terminated
/// string after its header; the walk advances past the name and the file
/// body. Any malformed header, size or name is an error.
pub fn list_names(archive: &[u8]) -> (r: Result<Vec<FileEntry>, FsError>)
    ensures
        r matches Ok(entries) ==> lists_archive(archive@, entries@),
{
    let total: usize = archive.len();
    let mut entries: Vec<FileEntry> = Vec::new();
    let mut pos: usize = 0;
    let ghost mut poss: Seq<int> = seq![0];
    loop
        invariant
            total == archive@.len(),
            pos <= archive@.len(),
            poss.len() == entries@.len() + 1,
            poss[0] == 0,
            poss[entries@.len() as int] == pos,
            forall|k: int|
                0 <= k < entries@.len() ==> entry_at(
                    archive@,
                    #[trigger] poss[k],
                    entries@[k].name@,
                    entries@[k].name_size,
                    entries@[k].file_size,
                ),
            forall|k: int|
                0 <= k < entries@.len() ==> poss[k + 1] == next_entry_pos(
                    #[trigger] poss[k],
                    entries@[k].name_size,
                    entries@[k].file_size,
                ),
        decreases archive@.len() - pos,
    {
        if total - pos < HEADER_BYTES {
            return Err(FsError::Truncated);
        }
        let rest = slice_subrange(archive, pos, total);
        proof {
            assert(rest@ =~= archive@.skip(pos as int));
        }
        let header = match CpioHeader::parse(rest) {
            Ok(h) => h,
            Err(e) => {
                return Err(e);
            },
        };
        let name_size = header.name_size() as usize;
        let file_size = header.file_size() as usize;
        if name_size == 0 {
            return Err(FsError::UnterminatedName);
        }
        if total - pos - HEADER_BYTES < name_size {
            return Err(FsError::Truncated);
        }
        // the name occupies `name_size` bytes after the header, the last
        // of which must be the terminating NUL
        let mut name: Vec<u8> = Vec::new();
        let mut j: usize = 0;
        while j < name_size - 1
            invariant
                1 <= name_size,
                archive@.len() <= usize::MAX,
                pos + HEADER_BYTES + name_size <= archive@.len(),
                j <= name_size - 1,
                name@.len() == j,
                name@ == archive@.subrange(
                    pos + HEADER_BYTES,
                    pos + HEADER_BYTES + j,
                ),
                forall|i: int| 0 <= i < j ==> name@[i] != 0,
            decreases name_size - 1 - j,
        {
            let c = *slice_index_get(archive, pos + HEADER_BYTES + j);
            if c == 0 {
                return Err(FsError::UnterminatedName);
            }
            name.push(c);
            proof {
                assert(name@ =~= archive@.subrange(
                    pos + HEADER_BYTES,
                    pos + HEADER_BYTES + j + 1,
                ));
            }
            j = j + 1;
        }
        if *slice_index_get(archive, pos + HEADER_BYTES + name_size - 1) != 0 {
            return Err(FsError::UnterminatedName);
        }
        proof {
            assert(entry_at(
                archive@,
                pos as int,
                name@,
                header.namesize,
                header.filesize,
            ));
        }
        if is_trailer(&name) {
            proof {
                assert(name@ == trailer_seq());
                assert(lists_archive(archive@, entries@));
            }
            return Ok(entries);
        }
        if total - pos - HEADER_BYTES - name_size < file_size {
            return Err(FsError::Truncated);
        }
        entries.push(
            FileEntry { name, name_size: header.name_size(), file_size: header.file_size() },
        );
        pos = pos + HEADER_BYTES + name_size + file_size;
        proof {
            poss = poss.push(pos as int);
        }
    }
}

/// Whether the name bytes spell the archive trailer, `TRAILER!!!`.
fn is_trailer(name: &Vec<u8>) -> (r: bool)
    ensures
        r == (name@ =~= trailer_seq()),
{
    if name.len() != 10 {
        return false;
    }
    let r = name[0] == 0x54 && name[1] == 0x52 && name[2] == 0x41 && name[3] == 0x49 && name[4]
        == 0x4c && name[5] == 0x45 && name[6] == 0x52 && name[7] == 0x21 && name[8] == 0x21
        && name[9] == 0x21;
    proof {
        if r {
            assert(name@ =~= trailer_seq());
        } else {
            assert(!(name@ =~= trailer_seq()));
        }
    }
    r
}

/// The bytes of `TRAILER!!!`.
pub open spec fn trailer_seq() -> Seq<u8> {
    seq![0x54u8, 0x52u8, 0x41u8, 0x49u8, 0x4cu8, 0x45u8, 0x52u8, 0x21u8, 0x21u8, 0x21u8]
}

} // verus!
