//! The device-facing data structures: PCI configuration addresses, TRB
//! words, register images, the spawn bookkeeping, the GDT and the
//! palette.

use ramen::gdt::{Gdt, GdtEntry};
use ramen::graphics::Vram;
use ramen::pci::{Bus, CapabilityId, ConfigAddress, Device, Function, Offset, RegisterIndex};
use ramen::port::{PortNotConnected, SpawnStatus};
use ramen::xhci::event;
use ramen::xhci::registers::{Array, RuntimeBaseRegisters};
use ramen::xhci::transfer::{
    CycleBit, DataStage, DescTy, DescTyIdx, Direction, RawTrb, Raw, Ring, SetupStage, StatusStage,
    Trb,
};

#[test]
fn config_address_packs_all_fields() {
    let a = ConfigAddress::new(
        Bus::new(1),
        Device::new(2),
        Function::zero(),
        RegisterIndex::new(3),
    );
    assert_eq!(a.as_u32(), 0x8000_0000 | (1 << 16) | (2 << 11) | (3 << 2));
}

#[test]
fn config_address_function_field() {
    let a = ConfigAddress::new(
        Bus::new(0xab),
        Device::new(31),
        Function::new(7),
        RegisterIndex::new(63),
    );
    assert_eq!(
        a.as_u32(),
        0x8000_0000 | (0xab << 16) | (31 << 11) | (7 << 8) | (63 << 2)
    );
}

#[test]
fn offset_becomes_register_index() {
    assert_eq!(Offset::new(0x10).as_register_index().as_usize(), 4);
    assert_eq!(Function::new(5).as_u32(), 5);
    assert!(RegisterIndex::new(0).is_null());
    assert!(!RegisterIndex::new(1).is_null());
}

#[test]
fn capability_id_reads_low_byte() {
    assert!(CapabilityId::new(0x11).is_msi_x());
    assert!(CapabilityId::new(0xa5_11).is_msi_x());
    assert!(!CapabilityId::new(0x10).is_msi_x());
}

#[test]
fn setup_stage_get_descriptor_words() {
    let t = SetupStage::new_get_descriptor(18, DescTyIdx::new(DescTy::Device, 0), CycleBit::new(true));
    // bmRequestType 0x80, bRequest 6, wValue 0x0100 (device descriptor)
    assert_eq!(t.0.w0, 0x0100_0680);
    // wLength 18 in the high half
    assert_eq!(t.0.w1, 0x0012_0000);
    // TRB transfer length 8
    assert_eq!(t.0.w2, 8);
    // cycle bit, TRB type 2, TRT 3
    assert_eq!(t.0.w3, 1 | (2 << 10) | (3 << 16));
}

#[test]
fn data_stage_words() {
    let t = DataStage::new(0x1_2345_6710, 0x100, CycleBit::new(true), Direction::In);
    assert_eq!(t.0.w0, 0x2345_6710);
    assert_eq!(t.0.w1, 0x1);
    assert_eq!(t.0.w2, 0x100);
    assert_eq!(t.0.w3, 1 | (3 << 10) | (1 << 16));
}

#[test]
fn status_stage_words() {
    let t = StatusStage::new(CycleBit::new(false));
    assert_eq!(t.0.w0, 0);
    assert_eq!(t.0.w3, (1 << 5) | (4 << 10));
}

#[test]
fn link_trb_and_ioc() {
    let mut link = Trb::new_link(0);
    link.set_c(CycleBit::new(true));
    match link {
        Trb::Link(l) => assert_eq!(l.0.w3, (6 << 10) | 1),
        Trb::Control(_) => panic!("a link TRB was expected"),
    }
    assert!(!link.ioc());
    let (_, _, status) = Trb::new_get_descriptor(
        0x9000,
        18,
        DescTyIdx::new(DescTy::Device, 0),
        CycleBit::new(true),
    );
    assert!(status.ioc());
}

#[test]
fn ring_enqueue_advances_and_wraps() {
    let mut ring = Ring::new();
    let status = Trb::Control(ramen::xhci::transfer::Control::Status(StatusStage::new(
        CycleBit::new(true),
    )));
    assert_eq!(ring.raw.try_enqueue(status).unwrap(), 0);
    assert_eq!(ring.raw.try_enqueue(status).unwrap(), 16);
    assert_eq!(ring.raw.enq_p, 2);
    // fill the remaining slots up to the link position
    for i in 2..255u64 {
        assert_eq!(ring.raw.try_enqueue(status).unwrap(), 16 * i);
    }
    // the last slot received the link TRB and the ring wrapped
    assert_eq!(ring.raw.enq_p, 0);
    assert_eq!(ring.raw.c, CycleBit::new(false));
    assert_eq!(ring.raw.ring[255].w3, (6 << 10) | 1);
}

#[test]
fn full_ring_rejects_enqueue() {
    let mut raw = Raw::new();
    // the slot under the enqueue pointer already carries the producer's
    // cycle state: the ring reports itself full
    raw.ring[0] = RawTrb { w0: 0, w1: 0, w2: 0, w3: 1 };
    let status = Trb::Control(ramen::xhci::transfer::Control::Status(StatusStage::new(
        CycleBit::new(true),
    )));
    assert_eq!(
        raw.try_enqueue(status),
        Err(ramen::xhci::transfer::Error::QueueIsFull)
    );
}

#[test]
fn event_trb_classification() {
    let port_status = RawTrb { w0: 0, w1: 0, w2: 0, w3: 34 << 10 };
    assert!(matches!(
        event::Trb::from_raw(port_status),
        Ok(event::Trb::PortStatusChange(_))
    ));
    let completion = RawTrb { w0: 0, w1: 0, w2: 0, w3: 33 << 10 };
    assert!(matches!(
        event::Trb::from_raw(completion),
        Ok(event::Trb::Completion(_))
    ));
    let other = RawTrb { w0: 0, w1: 0, w2: 0, w3: 5 << 10 };
    assert_eq!(event::Trb::from_raw(other), Err(event::Error::UnrecognizedId));
    assert_eq!(event::Trb::size(), 16);
}

#[test]
fn doorbell_write_clears_the_command_register() {
    let mut a = Array::new();
    a.registers[0].0 = 0x55;
    a.notify_to_hc();
    assert_eq!(a.registers[0].0, 0);
}

#[test]
fn runtime_registers_record_programmed_values() {
    let mut r = RuntimeBaseRegisters::new();
    r.set_event_ring_segment_table_size(4);
    r.set_event_ring_segment_table_addr(0x1_0040);
    r.set_event_ring_dequeue_ptr(0x2_0010);
    assert_eq!(r.erst_sz.0, 4);
    assert_eq!(r.erst_ba.0, 0x1_0040);
    assert_eq!(r.erd_p.0, 0x2_0010);
}

#[test]
fn spawn_each_connected_port_once() {
    let mut st = SpawnStatus::new(3);
    assert_eq!(st.try_spawn(1, true), Ok(()));
    assert_eq!(st.try_spawn(1, true), Err(PortNotConnected));
    assert_eq!(st.try_spawn(2, false), Err(PortNotConnected));
    let connected = vec![false, true, true, false];
    let mut st2 = SpawnStatus::new(3);
    assert_eq!(st2.spawn_all_connected_ports(&connected), 2);
    assert_eq!(st2.spawn_all_connected_ports(&connected), 0);
}

#[test]
fn gdt_offsets_and_limit() {
    let null = GdtEntry::new(0, 0, 0, 0, 0, 0);
    let data = GdtEntry::new(0xffff, 0, 0, 0x92, 0xcf, 0);
    let code = GdtEntry::new(0xffff, 0, 0, 0x9a, 0xaf, 0);
    let gdt = Gdt::new([null, data, code]);
    assert_eq!(gdt.offset_of_code_segment(), 0x10);
    assert_eq!(gdt.offset_of_data_segment(), 0x08);
    assert_eq!(gdt.get_limit(), 23);
}

#[test]
fn palette_values_are_six_bit() {
    let vram = Vram::new(320, 200, 0xa0000);
    let palette = vram.init_palette();
    assert_eq!(palette.len(), 48);
    assert_eq!(&palette[0..3], &[0, 0, 0]);
    assert_eq!(&palette[3..6], &[0x3f, 0, 0]);
    assert_eq!(&palette[24..27], &[0x31, 0x31, 0x31]);
    assert_eq!(&palette[45..48], &[0x21, 0x21, 0x21]);
    assert_eq!(vram.x_len, 320);
}

#[test]
fn descriptor_parser_splits_by_length_byte() {
    // two blocks: 3 bytes then 2 bytes, then a zero length byte
    let raw = vec![3u8, 0xaa, 0xbb, 2, 0xcc, 0];
    let mut p = ramen::xhci::descriptor::RawDescriptorParser::new(raw);
    let v = p.parse().unwrap();
    assert_eq!(v, vec![vec![3u8, 0xaa, 0xbb], vec![2u8, 0xcc]]);
}

#[test]
fn descriptor_parser_stops_at_buffer_end() {
    let raw = vec![2u8, 0xaa, 1];
    let mut p = ramen::xhci::descriptor::RawDescriptorParser::new(raw);
    let v = p.parse().unwrap();
    assert_eq!(v, vec![vec![2u8, 0xaa], vec![1u8]]);
}

#[test]
fn descriptor_parser_rejects_overlong_block() {
    let raw = vec![5u8, 0xaa, 0xbb];
    let mut p = ramen::xhci::descriptor::RawDescriptorParser::new(raw);
    assert_eq!(
        p.parse(),
        Err(ramen::xhci::descriptor::DescriptorError::Truncated)
    );
}
