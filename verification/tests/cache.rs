use pemios_core::hart::mmu::cache::block::Block;
use pemios_core::hart::mmu::cache::set::CacheSet;
use pemios_core::hart::mmu::cache::types::Addr;
use pemios_core::hart::mmu::cache::types::Tag;
use pemios_core::hart::mmu::cache::Cache;

type Small = Cache<u32, u64, 1, 2, 2>;

fn line(first: u32) -> Vec<u32> {
    vec![first, first + 1, first + 2, first + 3]
}

#[test]
fn address_splits_into_tag_set_and_offset() {
    let a = Addr::<2, 4>::from_u32(0b1011_0110_1101);
    assert_eq!(a.raw(), 0b1011_0110_1101);
    assert_eq!(a.offset().raw(), 0b1101);
    assert_eq!(a.set().raw(), 0b10);
    assert_eq!(a.tag().raw(), 0b101101);
    assert_eq!(a.tag_set().tag().raw(), 0b101101);
    assert_eq!(a.tag_set().set().raw(), 0b10);
    assert!(a.tag().is_valid());
    assert!(Tag::<2, 4>::invalid().is_invalid());
    assert!(!Tag::<2, 4>::invalid().is_valid());
    let top = Addr::<12, 0>::from_u32(0xffff_ffff);
    assert_eq!(top.offset().raw(), 0);
    assert_eq!(top.set().raw(), 0xfff);
    assert_eq!(top.tag().raw(), 0xf_ffff);
}

#[test]
fn a_new_cache_holds_nothing() {
    let mut cache = Small::new();
    for addr in [0u32, 1, 4, 0x1234, 0xffff_ffff] {
        assert_eq!(cache.get(addr), None);
        assert!(cache.get_mut(addr).is_none());
    }
}

#[test]
fn insert_then_get() {
    let mut cache = Small::new();
    assert_eq!(cache.insert(0x10, line(100)), None);
    assert_eq!(cache.get(0x10), Some(&100));
    assert_eq!(cache.get(0x13), Some(&103));
    assert_eq!(cache.get(0x14), None);
    assert_eq!(cache.get(0x0c), None);
    // the same set, another tag: the second way
    assert_eq!(cache.insert(0x18, line(200)), None);
    assert_eq!(cache.get(0x1a), Some(&202));
    assert_eq!(cache.get(0x10), Some(&100));
}

#[test]
fn clean_lines_leave_in_silence_and_dirty_lines_come_out() {
    let mut cache = Small::new();
    // set 0 holds the lines at 0x00, 0x08, 0x10, ... ; set 1 those at 0x04, 0x0c, ...
    assert_eq!(cache.insert(0x00, line(0)), None);
    assert_eq!(cache.insert(0x08, line(10)), None);
    {
        let (entry, tracker) = cache.get_mut(0x09).unwrap();
        assert_eq!((*entry, *tracker), (11, 0));
        *entry = 111;
        *tracker |= 0b10;
    }
    // both ways are taken: the turn is at way 0, which is clean
    assert_eq!(cache.insert(0x10, line(20)), None);
    assert_eq!(cache.get(0x00), None);
    // now the turn is at way 1, which is dirty
    assert_eq!(cache.insert(0x18, line(30)), Some((0x08, vec![10, 111, 12, 13], 0b10)));
    assert_eq!(cache.get(0x09), None);
    assert_eq!(cache.get(0x11), Some(&21));
    assert_eq!(cache.get(0x19), Some(&31));
    // the turn is at way 0 again
    {
        let (entry, _) = cache.get_mut(0x19).unwrap();
        *entry = 0;
    }
    assert_eq!(cache.insert(0x20, line(40)), None);
    assert_eq!(cache.get(0x10), None);
    assert_eq!(cache.insert(0x28, line(50)), Some((0x18, vec![30, 0, 32, 33], 0)));
}

#[test]
fn a_line_that_comes_in_again_takes_its_own_slot() {
    let mut cache = Small::new();
    assert_eq!(cache.insert(0x00, line(0)), None);
    assert_eq!(cache.insert(0x08, line(10)), None);
    *cache.get_mut(0x00).unwrap().0 = 5;
    assert_eq!(cache.insert(0x00, line(70)), Some((0x00, vec![5, 1, 2, 3], 0)));
    assert_eq!(cache.get(0x00), Some(&70));
    assert_eq!(cache.get(0x08), Some(&10));
    // the line is clean again
    assert_eq!(cache.insert(0x00, line(80)), None);
}

#[test]
fn get_or_insert_with_fills_on_a_miss_only() {
    let mut cache = Small::new();
    let filled: Result<(&u32, _), &str> = cache.get_or_insert_with(0x06, || Ok(line(60)));
    assert_eq!(filled, Ok((&62, None)));
    let again: Result<(&u32, _), &str> = cache.get_or_insert_with(0x05, || Err("not asked"));
    assert_eq!(again, Ok((&61, None)));
    let failed: Result<(&u32, _), &str> = cache.get_or_insert_with(0x0c, || Err("no line"));
    assert_eq!(failed, Err("no line"));
    assert_eq!(cache.get(0x0c), None);
    assert_eq!(cache.get(0x06), Some(&62));
    let failed: Result<Option<(u32, Vec<u32>, u64)>, &str> = cache.insert_with(0x0c, || Err("no line"));
    assert_eq!(failed, Err("no line"));
    let came: Result<Option<(u32, Vec<u32>, u64)>, &str> = cache.insert_with(0x0c, || Ok(line(7)));
    assert_eq!(came, Ok(None));
    assert_eq!(cache.get(0x0f), Some(&10));
}

#[test]
fn get_mut_or_insert_with_marks_the_line() {
    let mut cache = Small::new();
    {
        let got: Result<((&mut u32, &mut u64), _), &str> = cache.get_mut_or_insert_with(0x01, || Ok(line(0)));
        let ((entry, tracker), victim) = got.unwrap();
        assert_eq!((*entry, *tracker, victim), (1, 0, None));
        *entry = 9;
        *tracker = 0xf0;
    }
    assert_eq!(cache.insert(0x08, line(10)), None);
    // way 0 holds the line that was changed through the fresh reference
    assert_eq!(cache.insert(0x10, line(20)), Some((0x00, vec![0, 9, 2, 3], 0xf0)));
    {
        let got: Result<((&mut u32, &mut u64), _), &str> = cache.get_mut_or_insert_with(0x0a, || Err("hit"));
        let ((entry, _), victim) = got.unwrap();
        assert_eq!((*entry, victim), (12, None));
    }
    let got: Result<((&mut u32, &mut u64), _), &str> = cache.get_mut_or_insert_with(0x18, || Ok(line(30)));
    assert_eq!(got.unwrap().1, Some((0x08, line(10), 0)));
    let got: Result<((&mut u32, &mut u64), _), &str> = cache.get_mut_or_insert_with(0x20, || Err("gone"));
    assert_eq!(got.err(), Some("gone"));
}

#[test]
fn clear_frees_every_slot() {
    let mut cache = Small::new();
    assert_eq!(cache.insert(0x00, line(0)), None);
    *cache.get_mut(0x00).unwrap().0 = 1;
    cache.clear();
    assert_eq!(cache.get(0x00), None);
    assert_eq!(cache.insert(0x08, line(0)), None);
    assert_eq!(cache.insert(0x10, line(0)), None);
    assert_eq!(cache.insert(0x18, line(0)), None);
}

#[test]
fn blocks_and_sets() {
    let mut block: Block<u8, u16, 2> = Block::with_data(vec![1, 2, 3, 4]);
    assert_eq!(block.internal(), (&vec![1, 2, 3, 4], &0));
    {
        let (data, tracker) = block.internal_mut();
        data[3] = 40;
        *tracker = 8;
    }
    assert_eq!(block.copy().into_parts(), (vec![1, 2, 3, 40], 8));
    let fresh: Block<u8, u16, 2> = Block::new();
    assert_eq!(fresh.into_parts(), (vec![0, 0, 0, 0], 0));
    let filled: Block<u8, u16, 1> = Block::filled(9, 1);
    assert_eq!(filled.into_parts(), (vec![9, 9], 1));

    let mut set: CacheSet<u8, u16, 1, 2, 2> = CacheSet::new();
    let tag = Tag::<1, 2>::from_raw(5);
    let other = Tag::<1, 2>::from_raw(6);
    assert!(set.get_block(tag).is_none());
    assert!(set.get_block(Tag::<1, 2>::invalid()).is_none());
    {
        let (slot, victim) = set.insert(tag, Block::with_data(vec![1, 2, 3, 4]));
        assert!(victim.is_none());
        assert_eq!(slot.internal().0, &vec![1, 2, 3, 4]);
    }
    assert_eq!(set.get_block(tag).map(|b| b.copy().into_parts()), Some((vec![1, 2, 3, 4], 0)));
    assert!(set.get_block_mut(other).is_none());
    assert!(set.get_block_mut(tag).is_some());
    {
        let got: Result<_, ()> = set.insert_with(other, || Ok(vec![5, 6, 7, 8]));
        assert!(got.unwrap().1.is_none());
    }
    {
        let got: Result<_, ()> = set.get_block_or_insert_with(Tag::<1, 2>::from_raw(7), || Ok(vec![0, 0, 0, 0]));
        let (_, victim) = got.unwrap();
        let (tag_out, block_out) = victim.unwrap();
        assert_eq!(tag_out.raw(), 5);
        assert_eq!(block_out.into_parts(), (vec![1, 2, 3, 4], 0));
    }
    {
        let got: Result<_, ()> = set.get_block_mut_or_insert_with(other, || Err(()));
        assert!(got.unwrap().1.is_none());
    }
    set.clear();
    assert!(set.get_block(other).is_none());
}

#[test]
fn the_set_and_the_offset_need_only_their_own_bits() {
    // every bit of the address chooses the set
    let all = Addr::<32, 0>::from_u32(0xdead_beef);
    assert_eq!(all.set().raw(), 0xdead_beef);
    assert_eq!(all.tag_set().set().raw(), 0xdead_beef);
    assert_eq!(all.offset().raw(), 0);
    // the upper half chooses the set, the lower half is the offset
    let halves = Addr::<16, 16>::from_u32(0xdead_beef);
    assert_eq!(halves.set().raw(), 0xdead);
    assert_eq!(halves.tag_set().set().raw(), 0xdead);
    assert_eq!(halves.offset().raw(), 0xbeef);
    // no bit for the set: there is one set
    let one = Addr::<0, 4>::from_u32(0xdead_beef);
    assert_eq!(one.set().raw(), 0);
    assert_eq!(one.offset().raw(), 0xf);
    assert_eq!(one.tag().raw(), 0x0dea_dbee);
    let wide = Addr::<1, 31>::from_u32(0xdead_beef);
    assert_eq!(wide.set().raw(), 1);
    assert_eq!(wide.offset().raw(), 0x5ead_beef);
}

#[test]
fn a_filled_block_has_the_default_tracker() {
    let block: Block<u32, u64, 1> = Block::with_data(vec![5, 6]);
    assert_eq!(block.internal(), (&vec![5, 6], &0));
    let unit: Block<u8, (), 0> = Block::with_data(vec![1]);
    assert_eq!(unit.into_parts(), (vec![1], ()));
}
