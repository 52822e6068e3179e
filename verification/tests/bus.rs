use pemios_core::bus::Bus;
use pemios_core::bus::BusError;
use pemios_core::bus::Target;
use pemios_core::hart::mmu::Mmu;
use pemios_core::hart::mmu::MmuError;
use pemios_core::hart::sv32::PhysicalAddress;
use pemios_core::hart::sv32::Pte;
use pemios_core::hart::sv32::PteKind;
use pemios_core::hart::sv32::PteRsw;
use pemios_core::hart::sv32::VirtualAddress;
use pemios_core::hart::utils::Bit;
use pemios_core::hart::utils::BitRange;
use pemios_core::hart::utils::Bits;
use pemios_core::hart::utils::SignExtend;
use pemios_core::memory::main::Main;
use pemios_core::memory::mapping::Mapping;
use pemios_core::memory::mapping::MemoryError;
use pemios_core::memory::mapping::Pma;
use pemios_core::memory::mapping::Reservability;
use pemios_core::memory::model::AmoOp;
use pemios_core::memory::model::MAX_FRAME_COUNT;
use pemios_core::memory::reservation::Reservations;
use pemios_core::memory::reservation::NO_RESERVATION;

fn unreservable() -> Pma {
    Pma { reservability: Reservability::Unreservable, ..Pma::main() }
}

#[test]
fn the_bus_routes_by_the_highest_bit_and_the_frame() {
    let mut cells = Reservations::new();
    let mut bus = Bus::builder()
        .with_main_memory(2)
        .with_mapping(Main::new(0x80000, 2))
        .with_mapping(Main::new(0x80010, 1))
        .build();
    assert_eq!(bus.main_memory_size(), 0x2000);
    assert_eq!(bus.locate(0x1ffc), Target::MainMemory);
    assert_eq!(bus.locate(0x7fff_ffff), Target::MainMemory);
    assert_eq!(bus.locate(0x8000_0000), Target::Device { index: 0, offset: 0 });
    assert_eq!(bus.locate(0x8000_1ffc), Target::Device { index: 0, offset: 0x1ffc });
    assert_eq!(bus.locate(0x8001_0004), Target::Device { index: 1, offset: 4 });
    assert_eq!(bus.locate(0x8000_2000), Target::Unmapped);
    assert_eq!(bus.locate_frame(0x7ffff), Target::MainMemory);
    assert_eq!(bus.locate_frame(0x80001), Target::Device { index: 0, offset: 1 });
    assert_eq!(bus.locate_frame(0x80002), Target::Unmapped);

    assert_eq!(bus.store_word(0x10, 1, &mut cells), Ok(()));
    assert_eq!(bus.store_word(0x8000_0010, 2, &mut cells), Ok(()));
    assert_eq!(bus.store_word(0x8000_1010, 3, &mut cells), Ok(()));
    assert_eq!(bus.store_half_word(0x8001_0010, 4, &mut cells), Ok(()));
    assert_eq!(bus.store_byte(0x8001_0013, 5, &mut cells), Ok(()));
    assert_eq!(bus.load_word(0x10), Ok(1));
    assert_eq!(bus.load_word(0x8000_0010), Ok(2));
    assert_eq!(bus.load_word(0x8000_1010), Ok(3));
    assert_eq!(bus.load_word(0x8001_0010), Ok(0x0500_0004));
    assert_eq!(bus.load_half_word(0x8001_0012), Ok(0x0500));
    assert_eq!(bus.load_byte(0x8001_0013), Ok(5));
    assert_eq!(bus.load(0x8001_0010, 2), Ok(4));
    assert_eq!(bus.store(0x8001_0010, 1, 0x1ff, &mut cells), Ok(()));
    assert_eq!(bus.load(0x8001_0010, 4), Ok(0x0500_00ff));

    // main memory ends after two frames; nothing is mapped behind the devices
    assert_eq!(bus.load_word(0x2000), Err(MemoryError::OutOfBoundsAccess { offset: 0x2000 }));
    assert_eq!(bus.store_word(0x2000, 1, &mut cells), Err(MemoryError::OutOfBoundsAccess { offset: 0x2000 }));
    assert_eq!(bus.load_word(0x8000_2000), Err(MemoryError::OutOfBoundsAccess { offset: 0x8000_2000 }));
    assert_eq!(bus.store_byte(0x9000_0000, 1, &mut cells), Err(MemoryError::OutOfBoundsAccess { offset: 0x9000_0000 }));
    assert_eq!(bus.load_word(0x8000_0002), Err(MemoryError::LoadMisaligned { offset: 2, alignment: 4 }));
    assert_eq!(bus.amo(AmoOp::Add, 0x8000_0010, 5, &mut cells), Ok(2));
    assert_eq!(bus.amoswap_w(0x8000_0010, 0, &mut cells), Ok(7));
    assert_eq!(bus.amoadd_w(0x9000_0000, 0, &mut cells), Err(MemoryError::OutOfBoundsAccess { offset: 0x9000_0000 }));
    assert_eq!(bus.properties().base_frame(), 0);
    assert_eq!(bus.properties().frame_count(), MAX_FRAME_COUNT);
    assert_eq!(bus.attributes(), Pma::main());
}

#[test]
fn block_and_stream_operations_go_to_the_region() {
    let mut cells = Reservations::new();
    let mut bus = Bus::builder().with_main_memory(1).with_mapping(Main::new(0x80004, 2)).build();
    let src: Vec<u8> = (1..=40u8).collect();
    assert_eq!(bus.block_write(0x8000_4ff0, &src[..], &mut cells), Ok(40));
    let mut out = vec![0u8; 40];
    assert_eq!(bus.block_read(0x8000_4ff0, &mut out[..]), Ok(40));
    assert_eq!(out, src);
    assert_eq!(bus.block_write(0x8000_5ff0, &src[..], &mut cells), Err(MemoryError::OutOfBoundsAccess { offset: 0x1ff0 }));
    assert_eq!(bus.block_read(0x8000_3ff0, &mut out[..]), Err(MemoryError::OutOfBoundsAccess { offset: 0x8000_3ff0 }));
    let mask = [0b0000_0110u8, 0, 0, 0, 0x80];
    assert_eq!(bus.block_write_masked(0x20, &src[..], &mask[..], &mut cells), Ok(3));
    let mut part = vec![9u8; 40];
    assert_eq!(bus.block_read_masked(0x20, &mut part[..], &[0xffu8, 0, 0, 0, 0xff][..]), Ok(16));
    assert_eq!(&part[..8], &[0, 2, 3, 0, 0, 0, 0, 0]);
    assert_eq!(&part[8..32], &[9u8; 24][..]);
    assert_eq!(&part[32..], &[0, 0, 0, 0, 0, 0, 0, 40]);
    let writes = [(8u16, 4u8, 0xaabb_ccddu32), (12, 1, 7)];
    assert_eq!(bus.stream_write(0x80005, &writes[..], &mut cells), Ok(2));
    assert_eq!(bus.load_word(0x8000_5008), Ok(0xaabb_ccdd));
    let mut values = [0u32; 2];
    assert_eq!(bus.stream_read(0x80005, &[(8u16, 2u8), (12, 1)][..], &mut values[..]), Ok(2));
    assert_eq!(values, [0xccdd, 7]);
    assert_eq!(bus.stream_write(0, &writes[..], &mut cells), Ok(2));
    assert_eq!(bus.load_word(8), Ok(0xaabb_ccdd));
    assert_eq!(bus.stream_write(0x80006, &writes[..], &mut cells), Err(MemoryError::OutOfBoundsAccess { offset: 0x8000_6000 }));
    assert_eq!(bus.stream_read(1, &[(8u16, 2u8), (12, 1)][..], &mut values[..]), Err(MemoryError::OutOfBoundsAccess { offset: 0x1000 }));
}

#[test]
fn the_builder_refuses_frames_that_are_taken() {
    let builder = Bus::builder().with_main_memory(1).with_mapping(Main::new(0x80000, 4));
    assert!(builder.has_main_memory());
    assert!(!builder.can_map(&Main::new(0x80003, 1)));
    assert!(!builder.can_map(&Main::new(0x7ffff, 2)));
    assert!(builder.can_map(&Main::new(0x80004, 1)));
    assert!(!builder.can_map(&Main::new(0xfffff, 2)));
    assert!(builder.can_map(&Main::new(0xfffff, 1)));
    let (builder, mapped) = builder.try_with_mapping(Main::new(0x80002, 1));
    assert!(!mapped);
    let (builder, mapped) = builder.try_with_mapping(Main::new(0x80004, 1));
    assert!(mapped);
    let bus = builder.build();
    assert_eq!(bus.locate(0x8000_4000), Target::Device { index: 1, offset: 0 });
    assert!(!Bus::builder().has_main_memory());
}

#[test]
fn a_reservation_cell_is_registered_with_every_reservable_region() {
    let mut cells = Reservations::new();
    let cell = cells.add_cell();
    let mut bus = Bus::builder()
        .with_main_memory(1)
        .with_mapping(Main::new(0x80000, 1))
        .with_mapping(Main::with_attributes(0x80001, 1, unreservable()))
        .build();
    bus.register_reservation_set(cell);
    cells.store(cell, 0x8000_0040 >> 6);
    assert_eq!(bus.store_word(0x8000_0044, 1, &mut cells), Ok(()));
    assert_eq!(cells.load(cell), NO_RESERVATION);
    cells.store(cell, 0x8000_1040 >> 6);
    assert_eq!(bus.store_word(0x8000_1044, 1, &mut cells), Ok(()));
    assert_eq!(cells.load(cell), 0x8000_1040 >> 6);
    cells.store(cell, 0x40 >> 6);
    assert_eq!(bus.store_word(0x44, 1, &mut cells), Ok(()));
    assert_eq!(cells.load(cell), NO_RESERVATION);
    // a store-conditional to a device works on the reservation for its address
    cells.store(cell, 0x8000_0080 >> 6);
    assert_eq!(bus.store_conditional(0x8000_0080, 9, &mut cells, cell, 0x8000_0080 >> 6), Ok(0));
    assert_eq!(bus.load_word(0x8000_0080), Ok(9));
    assert_eq!(bus.store_conditional(0x8000_0080, 10, &mut cells, cell, 0x8000_0080 >> 6), Ok(1));
    assert_eq!(bus.store_conditional(0x8000_2080, 10, &mut cells, cell, 0), Err(MemoryError::OutOfBoundsAccess { offset: 0x8000_2080 }));
}

#[test]
fn the_management_unit_passes_devices_by() {
    let mut cells = Reservations::new();
    let cell = cells.add_cell();
    let mut bus = Bus::builder().with_main_memory(1).with_mapping(Main::new(0x80000, 1)).build();
    bus.register_reservation_set(cell);
    let mut mmu = Mmu::new(cell);
    assert_eq!(mmu.reservation(), cell);
    assert_eq!(mmu.store_word(&mut bus, &mut cells, 0x8000_0000, 0x0102_0304), Ok(()));
    assert_eq!(bus.load_word(0x8000_0000), Ok(0x0102_0304));
    assert_eq!(mmu.store_byte(&mut bus, &mut cells, 0x8000_0001, 0xff), Ok(()));
    assert_eq!(mmu.store_half_word(&mut bus, &mut cells, 0x8000_0002, 0xaabb), Ok(()));
    assert_eq!(bus.load_word(0x8000_0000), Ok(0xaabb_ff04));
    assert_eq!(mmu.load_word(&mut bus, &mut cells, 0x8000_0000), Ok(0xaabb_ff04));
    assert_eq!(mmu.load_half_word(&mut bus, &mut cells, 0x8000_0002), Ok(0xaabb));
    assert_eq!(mmu.load_byte(&mut bus, &mut cells, 0x8000_0001), Ok(0xff));
    assert_eq!(bus.store_word(0x8000_0000, 5, &mut cells), Ok(()));
    assert_eq!(mmu.load_word(&mut bus, &mut cells, 0x8000_0000), Ok(5));
    assert_eq!(
        mmu.load_word(&mut bus, &mut cells, 0x8000_1000),
        Err(MmuError::BusError { e: BusError::MemoryError { e: MemoryError::OutOfBoundsAccess { offset: 0x8000_1000 } } })
    );
    assert_eq!(mmu.load_word(&mut bus, &mut cells, 0x8000_0001), Err(MmuError::LoadMisaligned { addr: 0x8000_0001, alignment: 4 }));
    assert_eq!(mmu.store_half_word(&mut bus, &mut cells, 0x11, 1), Err(MmuError::StoreMisaligned { addr: 0x11, alignment: 2 }));
    // main memory is cached: the bus sees a store when the line is written back
    assert_eq!(mmu.store_word(&mut bus, &mut cells, 0x40, 77), Ok(()));
    assert_eq!(bus.load_word(0x40), Ok(0));
    assert_eq!(mmu.load_word(&mut bus, &mut cells, 0x40), Ok(77));
    assert_eq!(mmu.load_word(&mut bus, &mut cells, 0x140), Ok(0));
    assert_eq!(mmu.load_word(&mut bus, &mut cells, 0x240), Ok(0));
    assert_eq!(bus.load_word(0x40), Ok(77));
    // atomics and reservations go to the bus at once
    assert_eq!(mmu.add_word_atomic(&mut bus, &mut cells, 0x80, 3), Ok(0));
    assert_eq!(mmu.swap_word_atomic(&mut bus, &mut cells, 0x80, 8), Ok(3));
    assert_eq!(mmu.and_word_atomic(&mut bus, &mut cells, 0x80, 12), Ok(8));
    assert_eq!(mmu.or_word_atomic(&mut bus, &mut cells, 0x80, 1), Ok(8));
    assert_eq!(mmu.xor_word_atomic(&mut bus, &mut cells, 0x80, 0xf), Ok(9));
    assert_eq!(mmu.max_word_atomic(&mut bus, &mut cells, 0x80, 0xffff_ffff), Ok(6));
    assert_eq!(mmu.min_word_atomic(&mut bus, &mut cells, 0x80, 0xffff_fffe), Ok(6));
    assert_eq!(mmu.maxu_word_atomic(&mut bus, &mut cells, 0x80, 1), Ok(0xffff_fffe));
    assert_eq!(mmu.minu_word_atomic(&mut bus, &mut cells, 0x80, 1), Ok(0xffff_fffe));
    assert_eq!(bus.load_word(0x80), Ok(1));
    assert_eq!(mmu.load_reserved(&bus, &mut cells, 0x80), Ok(1));
    assert_eq!(cells.load(cell), 2);
    assert_eq!(mmu.store_conditional(&mut bus, &mut cells, 0xc0, 5), Ok(1));
    assert_eq!(mmu.store_conditional(&mut bus, &mut cells, 0x84, 5), Ok(0));
    assert_eq!(bus.load_word(0x84), Ok(5));
    assert_eq!(mmu.store_conditional(&mut bus, &mut cells, 0x84, 6), Ok(1));
    assert_eq!(mmu.load_reserved(&bus, &mut cells, 0x82), Err(MmuError::LoadMisaligned { addr: 0x82, alignment: 4 }));
    assert_eq!(cells.load(cell), NO_RESERVATION);
}

#[test]
fn page_table_entries_and_addresses() {
    let va = VirtualAddress::new(0xffc0_1abc);
    assert_eq!((va.raw(), va.vpn1(), va.vpn0(), va.offset()), (0xffc0_1abc, 0x3ff, 0x001, 0xabc));
    let pa = PhysicalAddress::new(0x0040_2def);
    assert_eq!((pa.raw(), pa.ppn1(), pa.ppn0(), pa.offset()), (0x0040_2def, 1, 2, 0xdef));
    let pte = Pte::new(0x1234_56cf);
    assert_eq!(pte.raw(), 0x1234_56cf);
    assert_eq!(pte.ppn1(), 0x123);
    assert_eq!(pte.ppn0(), 0x115);
    assert_eq!(pte.base(), 0x48d1_5000);
    assert_eq!(pte.rsw(), PteRsw::Rsw2);
    assert!(pte.dirty() && pte.accessed() && !pte.global() && !pte.user());
    assert!(pte.executable() && pte.writable() && pte.readable() && pte.valid());
    assert_eq!(pte.kind(), PteKind::ReadWriteExecute);
    assert_eq!(Pte::new(0b0001).kind(), PteKind::Pointer);
    assert_eq!(Pte::new(0b0011).kind(), PteKind::Read);
    assert_eq!(Pte::new(0b0101).kind(), PteKind::Reserved);
    assert_eq!(Pte::new(0b0111).kind(), PteKind::ReadWrite);
    assert_eq!(Pte::new(0b1001).kind(), PteKind::Execute);
    assert_eq!(Pte::new(0b1011).kind(), PteKind::ReadExecute);
    assert_eq!(Pte::new(0b1101).kind(), PteKind::Reserved);
    assert_eq!(Pte::default().raw(), 0);
}

#[test]
fn bit_ranges() {
    assert_eq!(BitRange::new(0xabcd, 8).get(), 0xcd);
    assert_eq!(BitRange::new(0xabcd, 32).get(), 0xabcd);
    assert_eq!(BitRange::new(0xffff_ffff, 1).get(), 1);
    let joined = BitRange::new(0b101, 3).cat(BitRange::new(0b0011, 4));
    assert_eq!((joined.get(), joined.width()), (0b101_0011, 7));
    let word = 0b1011_0110_1101u32;
    assert_eq!(word.bits(4, 7).get(), 0b0110);
    assert_eq!(word.bits(0, 31).get(), word);
    assert_eq!(word.bits(11, 11).get(), 1);
    assert_eq!(word.bit(1).get(), 0);
    assert_eq!(word.bit(2).get(), 1);
    assert_eq!(0x0000_0800u32.sign_extend(11), 0xffff_f800);
    assert_eq!(0x0000_07ffu32.sign_extend(11), 0x0000_07ff);
    assert_eq!(0xffff_f7ffu32.sign_extend(11), 0x0000_07ff);
    assert_eq!(0x8000_0000u32.sign_extend(31), 0x8000_0000);
    assert_eq!(3u32.sign_extend(0), 0xffff_ffff);
}

#[test]
fn devices_that_start_at_one_frame_share_one_registration() {
    let mut cells = Reservations::new();
    let cell = cells.add_cell();
    // a device without frames takes no frame, so that another can start where it starts
    let mut bus = Bus::builder()
        .with_main_memory(1)
        .with_mapping(Main::new(0x80000, 0))
        .with_mapping(Main::new(0x80000, 1))
        .with_mapping(Main::new(0x80001, 1))
        .build();
    bus.register_reservation_set(cell);
    cells.store(cell, 0x8000_0040 >> 6);
    assert_eq!(bus.store_word(0x8000_0044, 1, &mut cells), Ok(()));
    assert_eq!(cells.load(cell), 0x8000_0040 >> 6);
    cells.store(cell, 0x8000_1040 >> 6);
    assert_eq!(bus.store_word(0x8000_1044, 1, &mut cells), Ok(()));
    assert_eq!(cells.load(cell), NO_RESERVATION);
}

fn shared<T: pemios_core::memory::mapping::SendSyncMapping>(_region: &T) -> bool {
    true
}

#[test]
fn regions_can_be_shared_by_threads() {
    assert!(shared(&Main::new(0, 1)));
    assert!(shared(&Bus::builder().with_main_memory(1).build()));
}
