use pemios_core::memory::main::Main;
use pemios_core::memory::main_memory::MainMemory;
use pemios_core::memory::mapping::AmoClass;
use pemios_core::memory::mapping::Cacheability;
use pemios_core::memory::mapping::Idempotency;
use pemios_core::memory::mapping::Mapping;
use pemios_core::memory::mapping::MemoryError;
use pemios_core::memory::mapping::MemoryKind;
use pemios_core::memory::mapping::MemoryResult;
use pemios_core::memory::mapping::Pma;
use pemios_core::memory::mapping::PmaPacked;
use pemios_core::memory::mapping::Reservability;
use pemios_core::memory::model::AmoOp;
use pemios_core::memory::reservation::addr_to_reservation_set;
use pemios_core::memory::reservation::helper_check_reservation;
use pemios_core::memory::reservation::helper_invalidate_reservations;
use pemios_core::memory::reservation::Reservations;
use pemios_core::memory::reservation::NO_RESERVATION;

#[test]
fn main_load_store() -> MemoryResult<()> {
    let mut cells = Reservations::new();
    let mut m = Main::new(0, 1);
    m.store_word(0x60, 69, &mut cells)?;
    if let Ok(w) = m.load_word(0x60) {
        assert_eq!(w, 69, "Store or load failed");
    }
    Ok(())
}

#[test]
fn main_block_read_write() -> MemoryResult<()> {
    let mut cells = Reservations::new();
    let mut m = Main::new(0, 1);
    let b = [69; 0x1000];
    let mut c = [0; 0x1000];
    m.block_write(0, &b[..], &mut cells)?;
    m.block_read(0, &mut c[..])?;
    assert_eq!(c, b, "Write or read failed");
    Ok(())
}

#[test]
fn main_memory_load_store() -> MemoryResult<()> {
    let mut cells = Reservations::new();
    let mut m = MainMemory::new(1);
    m.store_word(0x60, 69, &mut cells)?;
    if let Ok(w) = m.load_word(0x60) {
        assert_eq!(w, 69, "Store or load failed");
    }
    Ok(())
}

#[test]
fn main_memory_block_read_write() -> MemoryResult<()> {
    let mut cells = Reservations::new();
    let mut m = MainMemory::new(1);
    let b = [69; 0x1000];
    let mut c = [0; 0x1000];
    m.block_write(0, &b[..], &mut cells)?;
    m.block_read(0, &mut c[..])?;
    assert_eq!(c, b, "Write or read failed");
    Ok(())
}

#[test]
fn loads_are_little_endian() {
    let mut cells = Reservations::new();
    let mut m = Main::new(0, 1);
    assert_eq!(m.store_word(0x10, 0x1122_3344, &mut cells), Ok(()));
    assert_eq!(m.load_byte(0x10), Ok(0x44));
    assert_eq!(m.load_byte(0x11), Ok(0x33));
    assert_eq!(m.load_byte(0x12), Ok(0x22));
    assert_eq!(m.load_byte(0x13), Ok(0x11));
    assert_eq!(m.load_half_word(0x10), Ok(0x3344));
    assert_eq!(m.load_half_word(0x12), Ok(0x1122));
    assert_eq!(m.load_word(0x10), Ok(0x1122_3344));
    assert_eq!(m.store_half_word(0x12, 0xbeef, &mut cells), Ok(()));
    assert_eq!(m.store_byte(0x10, 0x01, &mut cells), Ok(()));
    assert_eq!(m.load_word(0x10), Ok(0xbeef_3301));
}

#[test]
fn misaligned_and_out_of_bounds_accesses_fail() {
    let mut cells = Reservations::new();
    let mut m = Main::new(0, 2);
    assert_eq!(m.load_word(2), Err(MemoryError::LoadMisaligned { offset: 2, alignment: 4 }));
    assert_eq!(m.load_half_word(1), Err(MemoryError::LoadMisaligned { offset: 1, alignment: 2 }));
    assert_eq!(m.store_word(6, 1, &mut cells), Err(MemoryError::StoreMisaligned { offset: 6, alignment: 4 }));
    assert_eq!(m.store_half_word(7, 1, &mut cells), Err(MemoryError::StoreMisaligned { offset: 7, alignment: 2 }));
    assert_eq!(m.load_word(0x2000), Err(MemoryError::OutOfBoundsAccess { offset: 0x2000 }));
    assert_eq!(m.load_byte(0x2000), Err(MemoryError::OutOfBoundsAccess { offset: 0x2000 }));
    assert_eq!(m.store_byte(0x2000, 1, &mut cells), Err(MemoryError::OutOfBoundsAccess { offset: 0x2000 }));
    assert_eq!(m.load_word(0x1ffc), Ok(0));
    assert_eq!(m.check_offset(0x1004, 4), Ok((1, 1)));
    assert_eq!(m.check_offset(0x1006, 2), Ok((1, 3)));
    assert_eq!(m.check_offset(0x1003, 1), Ok((1, 3)));
    assert_eq!(m.check_offset(0x1003, 2), Err(MemoryError::StoreMisaligned { offset: 0x1003, alignment: 2 }));
}

#[test]
fn block_operations_cross_frames_and_check_the_last_byte() {
    let mut cells = Reservations::new();
    let mut m = Main::new(0, 2);
    let src: Vec<u8> = (0..100u32).map(|i| i as u8 + 1).collect();
    assert_eq!(m.block_write(0x1000 - 50, &src[..], &mut cells), Ok(100));
    let mut out = vec![0u8; 100];
    assert_eq!(m.block_read(0x1000 - 50, &mut out[..]), Ok(100));
    assert_eq!(out, src);
    assert_eq!(m.load_byte(0x1000), Ok(51));
    let mut long = vec![0u8; 101];
    assert_eq!(
        m.block_read(0x2000 - 100, &mut long[..]),
        Err(MemoryError::OutOfBoundsAccess { offset: 0x2000 - 100 })
    );
    assert_eq!(
        m.block_write(0x2000 - 99, &src[..], &mut cells),
        Err(MemoryError::OutOfBoundsAccess { offset: 0x2000 - 99 })
    );
    assert_eq!(m.block_write(0x2000 - 100, &src[..], &mut cells), Ok(100));
    let mut none: Vec<u8> = Vec::new();
    assert_eq!(m.block_read(0x9000, &mut none[..]), Ok(0));
    assert_eq!(m.block_write(0x9000, &none[..], &mut cells), Ok(0));
}

#[test]
fn masked_write_changes_the_masked_bytes_only() {
    let mut cells = Reservations::new();
    let mut m = Main::new(0, 1);
    let old = [0xaau8; 16];
    assert_eq!(m.block_write(0x20, &old[..], &mut cells), Ok(16));
    let src: Vec<u8> = (0..16u8).collect();
    let mask = [0b1010_0101u8, 0b0000_1111u8];
    assert_eq!(m.block_write_masked(0x20, &src[..], &mask[..], &mut cells), Ok(8));
    let mut out = [0u8; 16];
    assert_eq!(m.block_read(0x20, &mut out[..]), Ok(16));
    assert_eq!(out, [0, 0xaa, 2, 0xaa, 0xaa, 5, 0xaa, 7, 8, 9, 10, 11, 0xaa, 0xaa, 0xaa, 0xaa]);
    let mut part = [0xffu8; 16];
    assert_eq!(m.block_read_masked(0x20, &mut part[..], &mask[..]), Ok(8));
    assert_eq!(part, [0, 0xff, 2, 0xff, 0xff, 5, 0xff, 7, 8, 9, 10, 11, 0xff, 0xff, 0xff, 0xff]);
    assert_eq!(
        m.block_write_masked(0x1000 - 8, &src[..], &mask[..], &mut cells),
        Err(MemoryError::OutOfBoundsAccess { offset: 0x1000 - 8 })
    );
}

#[test]
fn streams_write_and_read_one_frame() {
    let mut cells = Reservations::new();
    let mut m = Main::new(0, 2);
    let writes = [(0u16, 4u8, 0xdead_beefu32), (4, 2, 0x1_2345), (6, 1, 0x1ff), (0xffc, 4, 7)];
    assert_eq!(m.stream_write(1, &writes[..], &mut cells), Ok(4));
    assert_eq!(m.load_word(0x1000), Ok(0xdead_beef));
    assert_eq!(m.load_word(0x1004), Ok(0x00ff_2345));
    assert_eq!(m.load_word(0x1ffc), Ok(7));
    let reads = [(0u16, 1u8), (2, 2), (4, 4)];
    let mut out = [0u32; 3];
    assert_eq!(m.stream_read(1, &reads[..], &mut out[..]), Ok(3));
    assert_eq!(out, [0xef, 0xdead, 0x00ff_2345]);
    assert_eq!(m.stream_write(2, &writes[..], &mut cells), Err(MemoryError::OutOfBoundsAccess { offset: 0x2000 }));
    assert_eq!(m.stream_read(2, &reads[..], &mut out[..]), Err(MemoryError::OutOfBoundsAccess { offset: 0x2000 }));
}

#[test]
fn store_conditional_needs_the_reservation() {
    let mut cells = Reservations::new();
    let a = cells.add_cell();
    let b = cells.add_cell();
    let mut m = Main::new(0, 1);
    m.register_reservation_set(a);
    m.register_reservation_set(b);
    assert_eq!(m.store_word(0x40, 10, &mut cells), Ok(()));
    let set = addr_to_reservation_set(0x40);
    assert_eq!(set, 1);
    assert_eq!(m.store_conditional(0x40, 11, &mut cells, a, set), Ok(1));
    assert_eq!(m.load_word(0x40), Ok(10));
    cells.store(a, set);
    cells.store(b, set);
    assert_eq!(m.store_conditional(0x40, 11, &mut cells, a, set), Ok(0));
    assert_eq!(m.load_word(0x40), Ok(11));
    assert_eq!(cells.load(a), NO_RESERVATION);
    assert_eq!(cells.load(b), NO_RESERVATION);
    assert_eq!(m.store_conditional(0x40, 12, &mut cells, b, set), Ok(1));
    assert_eq!(m.load_word(0x40), Ok(11));
    assert_eq!(
        m.store_conditional(0x42, 12, &mut cells, b, set),
        Err(MemoryError::StoreMisaligned { offset: 0x42, alignment: 4 })
    );
    assert_eq!(
        m.store_conditional(0x1000, 12, &mut cells, b, set),
        Err(MemoryError::OutOfBoundsAccess { offset: 0x1000 })
    );
}

#[test]
fn a_store_takes_the_reservations_of_its_set() {
    let mut cells = Reservations::new();
    let a = cells.add_cell();
    let b = cells.add_cell();
    let c = cells.add_cell();
    let mut m = Main::new(0, 1);
    m.register_reservation_set(a);
    m.register_reservation_set(b);
    cells.store(a, 1);
    cells.store(b, 2);
    cells.store(c, 1);
    assert_eq!(m.store_byte(0x7f, 1, &mut cells), Ok(()));
    assert_eq!(cells.load(a), NO_RESERVATION);
    assert_eq!(cells.load(b), 2);
    assert_eq!(cells.load(c), 1);
    cells.store(a, 3);
    let src = [1u8; 70];
    assert_eq!(m.block_write(0x7e, &src[..], &mut cells), Ok(70));
    assert_eq!(cells.load(a), NO_RESERVATION);
    assert_eq!(cells.load(b), NO_RESERVATION);
    cells.store(a, 4);
    cells.store(b, 5);
    let mask = [0u8, 0, 0, 0, 0, 0, 0, 0, 1];
    assert_eq!(m.block_write_masked(0x100, &src[..], &mask[..], &mut cells), Ok(1));
    assert_eq!(cells.load(a), 4);
    assert_eq!(cells.load(b), NO_RESERVATION);
    let far = Main::new(0x80000, 1);
    let mut far = far;
    far.register_reservation_set(a);
    cells.store(a, (0x8000_0000u32 + 0x40) >> 6);
    assert_eq!(far.store_word(0x40, 1, &mut cells), Ok(()));
    assert_eq!(cells.load(a), NO_RESERVATION);
}

#[test]
fn reservation_cells_and_helpers() {
    let mut cells = Reservations::new();
    assert_eq!(cells.len(), 0);
    let a = cells.add_cell();
    let b = cells.add_cell();
    assert_eq!((a, b), (0, 1));
    assert_eq!(cells.load(a), NO_RESERVATION);
    assert_eq!(cells.load(7), NO_RESERVATION);
    cells.store(7, 3);
    cells.store(a, 3);
    cells.store(b, 3);
    assert_eq!(helper_check_reservation(&mut cells, a, 4), 1);
    assert_eq!(cells.load(a), 3);
    assert_eq!(helper_check_reservation(&mut cells, a, 3), 0);
    assert_eq!(cells.load(a), NO_RESERVATION);
    assert_eq!(helper_check_reservation(&mut cells, 7, NO_RESERVATION), 1);
    cells.store(a, 3);
    helper_invalidate_reservations(&mut cells, &vec![b, 9], 3);
    assert_eq!(cells.load(a), 3);
    assert_eq!(cells.load(b), NO_RESERVATION);
    assert!(cells.compare_exchange(a, 3, 8));
    assert!(!cells.compare_exchange(a, 3, 9));
    assert_eq!(cells.load(a), 8);
    assert_eq!(addr_to_reservation_set(0xffff_ffff), 0x03ff_ffff);
    assert_eq!(addr_to_reservation_set(63), 0);
    assert_eq!(addr_to_reservation_set(64), 1);
}

#[test]
fn atomic_operations() {
    let mut cells = Reservations::new();
    let mut m = Main::new(0, 1);
    assert_eq!(m.store_word(0x10, 5, &mut cells), Ok(()));
    assert_eq!(m.amoswap_w(0x10, 9, &mut cells), Ok(5));
    assert_eq!(m.amoadd_w(0x10, 0xffff_ffff, &mut cells), Ok(9));
    assert_eq!(m.amoand_w(0x10, 0xc, &mut cells), Ok(8));
    assert_eq!(m.amoor_w(0x10, 0x3, &mut cells), Ok(8));
    assert_eq!(m.amoxor_w(0x10, 0xff, &mut cells), Ok(0xb));
    assert_eq!(m.amomax_w(0x10, 0xffff_fff0, &mut cells), Ok(0xf4));
    assert_eq!(m.amomaxu_w(0x10, 0xffff_fff0, &mut cells), Ok(0xf4));
    assert_eq!(m.amomin_w(0x10, 3, &mut cells), Ok(0xffff_fff0));
    assert_eq!(m.amominu_w(0x10, 3, &mut cells), Ok(0xffff_fff0));
    assert_eq!(m.load_word(0x10), Ok(3));
    assert_eq!(m.amoadd_w(0x12, 1, &mut cells), Err(MemoryError::AmoMisaligned { offset: 0x12, amo: AmoClass::Arithmetic }));
    assert_eq!(m.amoadd_w(0x1000, 1, &mut cells), Err(MemoryError::OutOfBoundsAccess { offset: 0x1000 }));
    let logical = Pma { amo: AmoClass::Logical, ..Pma::main() };
    let mut io = Main::with_attributes(0x80000, 1, logical);
    assert_eq!(io.amoswap_w(0, 1, &mut cells), Ok(0));
    assert_eq!(io.amoxor_w(0, 3, &mut cells), Ok(1));
    assert_eq!(io.amoadd_w(0, 1, &mut cells), Err(MemoryError::AmoUnsupported { amo: AmoClass::Arithmetic }));
    assert_eq!(io.amo(AmoOp::Minu, 2, 1, &mut cells), Err(MemoryError::AmoUnsupported { amo: AmoClass::Arithmetic }));
    assert_eq!(io.load_word(0), Ok(2));
    assert_eq!(AmoOp::Add.apply(0xffff_ffff, 2), 1);
    assert_eq!(AmoOp::Min.apply(0x8000_0000, 1), 0x8000_0000);
    assert_eq!(AmoOp::Max.apply(0x8000_0000, 1), 1);
}

#[test]
fn attributes_pack_and_unpack() {
    let main = Pma::main();
    assert_eq!(main.packed().raw(), 0b11_1_10_11_0);
    assert_eq!(PmaPacked::default().raw(), 0b11_1_10_11_0);
    assert_eq!(main.packed().unpacked(), main);
    let io = Pma {
        kind: MemoryKind::Io,
        amo: AmoClass::Swap,
        reservability: Reservability::NonEventual,
        idempotency: Idempotency::NonIdempotent,
        cacheability: Cacheability::WriteStreamLoadCache,
    };
    assert_eq!(io.packed().raw(), 0b10_0_01_01_1);
    assert_eq!(io.packed().unpacked(), io);
    assert_eq!(io.kind(), MemoryKind::Io);
    assert_eq!(io.amo(), AmoClass::Swap);
    assert_eq!(io.reservability(), Reservability::NonEventual);
    assert_eq!(io.idpempotency(), Idempotency::NonIdempotent);
    assert_eq!(io.cacheability(), Cacheability::WriteStreamLoadCache);
    for raw in 0..=255u8 {
        let packed = PmaPacked::from_raw(raw);
        let back = packed.unpacked().packed().raw();
        if (raw >> 3) & 3 == 3 {
            assert_eq!(packed.reservability(), Reservability::Unreservable);
            assert_eq!(back, raw & !0b11000);
        } else {
            assert_eq!(back, raw);
        }
        assert_eq!(packed.kind(), packed.unpacked().kind());
        assert_eq!(packed.amo(), packed.unpacked().amo());
        assert_eq!(packed.idempotency(), packed.unpacked().idpempotency());
        assert_eq!(packed.cacheability(), packed.unpacked().cacheability());
    }
    assert!(AmoClass::Arithmetic.supports(AmoClass::Logical));
    assert!(!AmoClass::Swap.supports(AmoClass::Logical));
    assert!(AmoClass::Unsupported.supports(AmoClass::Unsupported));
}

#[test]
fn region_properties() {
    let m = Main::new(3, 2);
    assert_eq!(m.properties().base_frame(), 3);
    assert_eq!(m.properties().frame_count(), 2);
    assert_eq!(m.size(), 0x2000);
    assert_eq!(m.attributes(), Pma::main());
}
