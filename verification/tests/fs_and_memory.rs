//! The archive parsing and the message-memory model.

use ramen::fs::{byte_array_to_str, list_names, CpioHeader, FsError, HEADER_BYTES};
use ramen::memory::{AddressSpace, MsgMemory};
use ramen::process::{Body, Message};

#[test]
fn octal_fields_parse_exactly() {
    assert_eq!(byte_array_to_str(b"000017"), Ok(0o17));
    assert_eq!(byte_array_to_str(b"000000"), Ok(0));
    assert_eq!(byte_array_to_str(b"177777"), Ok(0xffff));
    assert_eq!(byte_array_to_str(b"00000000017"), Ok(15));
}

#[test]
fn octal_rejects_bad_digit() {
    assert_eq!(byte_array_to_str(b"00008x"), Err(FsError::BadOctalDigit));
}

#[test]
fn octal_rejects_overflow() {
    assert_eq!(byte_array_to_str(b"777777"), Err(FsError::SizeOutOfRange));
}

/// A 76-byte header with the magic digits and the given octal size
/// fields.
fn header(namesize: &[u8; 6], filesize: &[u8; 11]) -> Vec<u8> {
    let mut h = Vec::new();
    h.extend_from_slice(b"070707");
    // dev, ino, mode, uid, gid, nlink, rdev: seven 6-digit fields
    for _ in 0..7 {
        h.extend_from_slice(b"000000");
    }
    // mtime: 11 digits
    h.extend_from_slice(b"00000000000");
    h.extend_from_slice(namesize);
    h.extend_from_slice(filesize);
    assert_eq!(h.len(), HEADER_BYTES);
    h
}

#[test]
fn header_parses_sizes() {
    let h = header(b"000002", b"00000000012");
    let parsed = CpioHeader::parse(&h).unwrap();
    assert_eq!(parsed.name_size(), 2);
    assert_eq!(parsed.file_size(), 10);
}

#[test]
fn header_rejects_bad_magic() {
    let mut h = header(b"000002", b"00000000012");
    h[0] = b'1';
    assert_eq!(CpioHeader::parse(&h), Err(FsError::InvalidSignature));
}

#[test]
fn list_names_walks_to_the_trailer() {
    let mut archive = Vec::new();
    // one member: name "a", two file bytes
    archive.extend_from_slice(&header(b"000002", b"00000000002"));
    archive.extend_from_slice(b"a\0");
    archive.extend_from_slice(&[0xaa, 0xbb]);
    // a second member: name "usr", no body
    archive.extend_from_slice(&header(b"000004", b"00000000000"));
    archive.extend_from_slice(b"usr\0");
    // the trailer: name "TRAILER!!!" with its NUL is 11 = 0o13 bytes
    archive.extend_from_slice(&header(b"000013", b"00000000000"));
    archive.extend_from_slice(b"TRAILER!!!\0");
    let entries = list_names(&archive).unwrap();
    assert_eq!(entries.len(), 2);
    assert_eq!(entries[0].name, b"a".to_vec());
    assert_eq!(entries[0].file_size, 2);
    assert_eq!(entries[1].name, b"usr".to_vec());
    assert_eq!(entries[1].name_size, 4);
}

#[test]
fn list_names_rejects_truncated_archive() {
    let archive = header(b"000002", b"00000000002");
    // header only: the name and body are missing
    assert!(list_names(&archive).is_err());
}

#[test]
fn copy_msg_stamps_sender_into_both_records() {
    let mut mem = MsgMemory::new();
    mem.write(0x100, Message::new(9, Body(1, 2, 3, 4, 5)));
    mem.write(0x200, Message::new(0, Body(0, 0, 0, 0, 0)));
    mem.copy_msg(0x100, 0x200, 7);
    assert_eq!(mem.read(0x200), Message::new(7, Body(1, 2, 3, 4, 5)));
    assert_eq!(mem.read(0x100), Message::new(7, Body(1, 2, 3, 4, 5)));
}

#[test]
fn translation_follows_the_recorded_mapping() {
    let mut aspace = AddressSpace::new();
    aspace.map_page(0x4000, 0x1_0000);
    assert_eq!(aspace.translate(0x4000), Some(0x1_0000));
    assert_eq!(aspace.translate(0x5000), None);
    assert!(!MsgMemory::new().contains(0x1_0000));
}

#[test]
fn list_names_rejects_unterminated_name() {
    let mut archive = Vec::new();
    archive.extend_from_slice(&header(b"000002", b"00000000000"));
    // two name bytes, neither of which is the terminating NUL
    archive.extend_from_slice(b"ab");
    assert_eq!(list_names(&archive), Err(FsError::UnterminatedName));
}

#[test]
fn list_names_rejects_empty_name_field() {
    let mut archive = Vec::new();
    archive.extend_from_slice(&header(b"000000", b"00000000000"));
    assert_eq!(list_names(&archive), Err(FsError::UnterminatedName));
}
