use vstd::prelude::*;
use crate::bus::BusView;
use crate::bus::Target;
use crate::hart::mmu::bytes_of;
use crate::hart::mmu::cache::block::BlockView;
use crate::hart::mmu::cache::set::SetView;
use crate::hart::mmu::cache::types::block_addr;
use crate::hart::mmu::cache::types::lemma_split;
use crate::hart::mmu::cache::types::offset_of;
use crate::hart::mmu::cache::types::set_of;
use crate::hart::mmu::cache::types::tag_of;
use crate::hart::mmu::cache::types::INVALID_TAG;
use crate::hart::mmu::cache::CacheView;
use crate::hart::mmu::cacheable;
use crate::hart::mmu::fill;
use crate::hart::mmu::line_base;
use crate::hart::mmu::mark;
use crate::hart::mmu::mask_of;
use crate::hart::mmu::merge;
use crate::hart::mmu::tracker_byte;
use crate::hart::mmu::words_of;
use crate::hart::mmu::write_back;
use crate::hart::mmu::Access;
use crate::hart::mmu::Fill;
use crate::hart::mmu::MmuError;
use crate::hart::mmu::MmuView;
use crate::memory::mapping::MemoryError;
use crate::memory::model::byte_of;
use crate::memory::model::le_bytes;
use crate::memory::model::le_value;
use crate::memory::model::mask_bit;
use crate::memory::model::mask_count;
use crate::memory::model::overwrite;
use crate::memory::model::overwrite_masked;

verus! {

/// Whether the tracker marks byte `j` of its line as written.
pub open spec fn marked(tracker: u64, j: int) -> bool {
    (tracker >> (j as u64)) & 1 == 1
}

/// How the data cache splits the address of the word that holds a byte.
proof fn lemma_word_address(k: u32)
    by (bit_vector)
    ensures
        tag_of(k / 4, 2, 4) == k / 256,
        set_of(k / 4, 2, 4) == (k / 64) % 4,
        offset_of(k / 4, 4) == (k / 4) % 16,
        k / 256 < 0x0100_0000,
        k / 64 == (k / 256) * 4 + (k / 64) % 4,
{
}

/// The address of the first word of a line.
proof fn lemma_line_address(tag: u32, set: u32)
    by (bit_vector)
    requires
        tag < 0x0400_0000,
        set < 4,
    ensures
        block_addr(tag, set, 2, 4) == tag * 64 + set * 16,
        block_addr(tag, set, 2, 4) < 0x2000_0000u32 ==> block_addr(tag, set, 2, 4) << 2u32 == block_addr(tag, set, 2, 4)
            * 4,
{
}

/// The bits of a tracker after a store.
proof fn lemma_mark_bits(tracker: u64, j0: u64, ones: u64, width: u64, j: u64)
    by (bit_vector)
    requires
        j < 64,
        j0 + width <= 64,
        (width == 1 && ones == 1) || (width == 2 && ones == 3) || (width == 4 && ones == 15),
    ensures
        (((tracker | (ones << j0)) >> j) & 1 == 1) == (((tracker >> j) & 1 == 1) || (j0 <= j < j0 + width)),
        ((0u64 >> j) & 1 == 1) == false,
{
}

/// A bit of a byte, taken from the byte or from a longer word that holds it.
proof fn lemma_byte_bit(x: u64, b8: u8)
    by (bit_vector)
    requires
        b8 < 8,
        x < 256,
    ensures
        ((((x as u8) >> b8) & 1) == 1) == (((x >> (b8 as u64)) & 1) == 1),
{
}

/// The bits of the bytes of a tracker.
proof fn lemma_mask_bytes(t: u64, b: u64)
    by (bit_vector)
    requires
        b < 8,
    ensures
        (((t % 0x100) >> b) & 1 == 1) == ((t >> b) & 1 == 1),
        ((((t / 0x100) % 0x100) >> b) & 1 == 1) == ((t >> (b + 8)) & 1 == 1),
        ((((t / 0x1_0000) % 0x100) >> b) & 1 == 1) == ((t >> (b + 16)) & 1 == 1),
        ((((t / 0x100_0000) % 0x100) >> b) & 1 == 1) == ((t >> (b + 24)) & 1 == 1),
        ((((t / 0x1_0000_0000) % 0x100) >> b) & 1 == 1) == ((t >> (b + 32)) & 1 == 1),
        ((((t / 0x100_0000_0000) % 0x100) >> b) & 1 == 1) == ((t >> (b + 40)) & 1 == 1),
        ((((t / 0x1_0000_0000_0000) % 0x100) >> b) & 1 == 1) == ((t >> (b + 48)) & 1 == 1),
        ((((t / 0x100_0000_0000_0000) % 0x100) >> b) & 1 == 1) == ((t >> (b + 56)) & 1 == 1),
{
}

/// The bytes of the value that four bytes spell.
proof fn lemma_bytes_of_value(b0: u8, b1: u8, b2: u8, b3: u8)
    by (bit_vector)
    ensures
        ({
            let v = (b0 as u32) + 0x100 * (b1 as u32) + 0x1_0000 * (b2 as u32) + 0x100_0000 * (b3 as u32);
            &&& v <= 0xffff_ffff
            &&& ((v as u32) % 256) as u8 == b0
            &&& (((v as u32) / 0x100) % 256) as u8 == b1
            &&& (((v as u32) / 0x1_0000) % 256) as u8 == b2
            &&& (((v as u32) / 0x100_0000) % 256) as u8 == b3
        }),
{
}

/// The mask of a write-back has the bits of the tracker.
pub proof fn lemma_mask_of(tracker: u64, j: int)
    requires
        0 <= j < 64,
    ensures
        mask_bit(mask_of(tracker), j) == marked(tracker, j),
{
    let b8 = (j % 8) as u8;
    let b = b8 as u64;
    let i = j / 8;
    lemma_mask_bytes(tracker, b);
    assert(mask_of(tracker)[i] == tracker_byte(tracker, i));
    assert(j == 8 * i + j % 8);
    if i == 0 {
        lemma_byte_bit(tracker % 0x100, b8);
    } else if i == 1 {
        lemma_byte_bit((tracker / 0x100) % 0x100, b8);
    } else if i == 2 {
        lemma_byte_bit((tracker / 0x1_0000) % 0x100, b8);
    } else if i == 3 {
        lemma_byte_bit((tracker / 0x100_0000) % 0x100, b8);
    } else if i == 4 {
        lemma_byte_bit((tracker / 0x1_0000_0000) % 0x100, b8);
    } else if i == 5 {
        lemma_byte_bit((tracker / 0x100_0000_0000) % 0x100, b8);
    } else if i == 6 {
        lemma_byte_bit((tracker / 0x1_0000_0000_0000) % 0x100, b8);
    } else {
        lemma_byte_bit((tracker / 0x100_0000_0000_0000) % 0x100, b8);
    }
}

/// A store changes the bytes that it writes in the word, and no others.
pub proof fn lemma_merge(word: u32, addr: u32, width: u32, val: u32, m: int)
    requires
        width == 1 || width == 2 || width == 4,
        addr % width == 0,
        0 <= m < 4,
    ensures
        byte_of(merge(word, addr, width, val), m) == (if addr % 4 <= m < addr % 4 + width {
            byte_of(val, m - addr % 4)
        } else {
            byte_of(word, m)
        }),
{
    crate::memory::model::lemma_aligned_offset(addr, width);
    let bytes = overwrite(le_bytes(word, 4), (addr % 4) as int, le_bytes(val, width as int));
    lemma_bytes_of_value(bytes[0], bytes[1], bytes[2], bytes[3]);
    assert(bytes.len() == 4);
}

/// The lines of the data cache belong to main memory below 2 GiB, and a
/// line that no store has touched since it came in has an empty tracker.
pub open spec fn lines_ok(cache: CacheView<u32, u64>, size: int) -> bool {
    forall|s: int, i: int|
        0 <= s < 4 && 0 <= i < 2 && (#[trigger] cache.sets[s].tags[i]) != INVALID_TAG ==> {
            &&& cache.sets[s].tags[i] < 0x0400_0000
            &&& (cache.sets[s].tags[i] * 64 + s * 16) * 4 + 64 <= size
            &&& (cache.sets[s].tags[i] * 64 + s * 16) * 4 + 64 <= 0x8000_0000
            &&& (!cache.sets[s].dirty[i] ==> cache.sets[s].blocks[i].tracker == 0)
        }
}

/// Byte `k` of main memory as the hart sees it through its data cache: what
/// the cache holds where a store of the hart has marked the byte, else what
/// memory holds.
pub open spec fn seen(cache: CacheView<u32, u64>, bytes: Seq<u8>, k: int) -> u8 {
    let w = (k / 4) as u32;
    if cache.resident(w, 2, 4) && marked(cache.line(w, 2, 4).tracker, k % 64) {
        byte_of(cache.line(w, 2, 4).data[(k / 4) % 16], k % 4)
    } else {
        bytes[k]
    }
}

/// The tag and the set of the line that holds byte `k`.
pub open spec fn tag_at(k: int) -> u32 {
    (k / 256) as u32
}

pub open spec fn set_at(k: int) -> int {
    (k / 64) % 4
}

/// How the cache finds the line of a byte.
proof fn lemma_byte_address(cache: CacheView<u32, u64>, k: int)
    requires
        0 <= k < 0x1_0000_0000,
    ensures
        tag_of((k / 4) as u32, 2, 4) == tag_at(k),
        set_of((k / 4) as u32, 2, 4) == set_at(k),
        offset_of((k / 4) as u32, 4) == (k / 4) % 16,
        tag_at(k) < 0x0400_0000,
        tag_at(k) != INVALID_TAG,
        cache.set_at((k / 4) as u32, 2, 4) == cache.sets[set_at(k)],
        cache.resident((k / 4) as u32, 2, 4) == cache.sets[set_at(k)].hit(tag_at(k)),
        cache.line((k / 4) as u32, 2, 4) == cache.sets[set_at(k)].blocks[cache.sets[set_at(k)].find(tag_at(k))],
{
    lemma_word_address(k as u32);
}

/// The line of a byte is given by its tag and its set.
proof fn lemma_line_of(k: int)
    requires
        0 <= k < 0x1_0000_0000,
    ensures
        k / 64 == tag_at(k) * 4 + set_at(k),
        tag_at(k) == k / 256,
        tag_at(k) < 0x0100_0000,
        tag_at(k) != INVALID_TAG,
{
    lemma_word_address(k as u32);
}

/// Byte `k` as the hart sees it, by the set of the cache in which the line of the byte has its place.
pub open spec fn seen_in(set: SetView<u32, u64>, bytes: Seq<u8>, k: int) -> u8 {
    let slot = set.find(tag_at(k));
    if set.hit(tag_at(k)) && marked(set.blocks[slot].tracker, k % 64) {
        byte_of(set.blocks[slot].data[(k / 4) % 16], k % 4)
    } else {
        bytes[k]
    }
}

/// What the hart sees of a byte depends on the set of the byte alone.
proof fn lemma_seen_in(cache: CacheView<u32, u64>, bytes: Seq<u8>, k: int)
    requires
        0 <= k < 0x1_0000_0000,
    ensures
        seen(cache, bytes, k) == seen_in(cache.sets[set_at(k)], bytes, k),
{
    lemma_byte_address(cache, k);
}

/// The lines of one set of the data cache are in order.
pub open spec fn slots_ok(set: SetView<u32, u64>, s: int, size: int) -> bool {
    forall|i: int|
        0 <= i < 2 && (#[trigger] set.tags[i]) != INVALID_TAG ==> {
            &&& set.tags[i] < 0x0400_0000
            &&& (set.tags[i] * 64 + s * 16) * 4 + 64 <= size
            &&& (set.tags[i] * 64 + s * 16) * 4 + 64 <= 0x8000_0000
            &&& (!set.dirty[i] ==> set.blocks[i].tracker == 0)
        }
}

proof fn lemma_slots_ok(cache: CacheView<u32, u64>, size: int, s: int)
    requires
        0 <= s < 4,
    ensures
        lines_ok(cache, size) ==> slots_ok(cache.sets[s], s, size),
{
    if lines_ok(cache, size) {
        assert forall|i: int| 0 <= i < 2 && (#[trigger] cache.sets[s].tags[i]) != INVALID_TAG implies {
            &&& cache.sets[s].tags[i] < 0x0400_0000
            &&& (cache.sets[s].tags[i] * 64 + s * 16) * 4 + 64 <= size
            &&& (cache.sets[s].tags[i] * 64 + s * 16) * 4 + 64 <= 0x8000_0000
            &&& (!cache.sets[s].dirty[i] ==> cache.sets[s].blocks[i].tracker == 0)
        } by {
            assert(cache.sets[s].tags[i] != INVALID_TAG);
        }
    }
}

/// Byte `k` as the line of the byte holds it in the set.
pub open spec fn held_in(set: SetView<u32, u64>, k: int) -> u8 {
    byte_of(set.blocks[set.find(tag_at(k))].data[(k / 4) % 16], k % 4)
}

/// Whether the set, if it holds the line of byte `k`, holds the byte as the hart sees it.
pub open spec fn holds_seen(set: SetView<u32, u64>, bytes: Seq<u8>, k: int) -> bool {
    set.hit(tag_at(k)) ==> held_in(set, k) == seen_in(set, bytes, k)
}

/// Whether the lines of the data cache hold memory as the hart sees it:
/// where the hart has stored, what it stored, and elsewhere what memory holds.
pub open spec fn faithful(cache: CacheView<u32, u64>, bytes: Seq<u8>) -> bool {
    forall|k: int| 0 <= k < bytes.len() ==> #[trigger] holds_seen(cache.sets[set_at(k)], bytes, k)
}

/// The bytes of the words that bytes spell are the bytes.
proof fn lemma_words_of(bytes: Seq<u8>, j: int)
    requires
        bytes.len() == 64,
        0 <= j < 64,
    ensures
        byte_of(words_of(bytes)[j / 4], j % 4) == bytes[j],
{
    let i = j / 4;
    let part = bytes.subrange(4 * i, 4 * i + 4);
    lemma_bytes_of_value(part[0], part[1], part[2], part[3]);
    assert(part.len() == 4);
    assert(part[j % 4] == bytes[j]);
}

/// The line after a store of `width` bytes of `val` at `addr`.
pub open spec fn stored_line(line: BlockView<u32, u64>, addr: u32, width: u32, val: u32) -> BlockView<u32, u64> {
    BlockView {
        data: line.data.update(
            ((addr / 4) % 16) as int,
            merge(line.data[((addr / 4) % 16) as int], addr, width, val),
        ),
        tracker: mark(line.tracker, addr, width),
    }
}

/// Where the bytes of an aligned store lie in their line and in their word.
proof fn lemma_store_offsets(addr: u32, width: u32, k: u32)
    by (bit_vector)
    requires
        width == 1 || width == 2 || width == 4,
        addr % width == 0,
        k / 64 == addr / 64,
    ensures
        (addr % 64) + width <= 64,
        (addr % 64 <= k % 64 < (addr % 64) + width) <==> (addr <= k < addr + width),
        (addr <= k < addr + width) ==> k / 4 == addr / 4,
        k / 4 == addr / 4 ==> ((addr % 4 <= k % 4 < (addr % 4) + width) <==> (addr <= k < addr + width)),
        k / 4 == addr / 4 ==> (k / 4) % 16 == (addr / 4) % 16,
        k / 4 != addr / 4 ==> (k / 4) % 16 != (addr / 4) % 16,
        (addr <= k < addr + width) ==> k - addr == (k % 4) - (addr % 4),
{
}

/// A byte of the line into which a store goes, as the hart sees it afterwards.
proof fn lemma_stored_same_line(line: BlockView<u32, u64>, addr: u32, width: u32, val: u32, k: int)
    requires
        line.data.len() == 16,
        width == 1 || width == 2 || width == 4,
        addr % width == 0,
        0 <= k,
        k / 64 == addr / 64,
    ensures
        marked(stored_line(line, addr, width, val).tracker, k % 64) == (marked(line.tracker, k % 64) || addr <= k
            < addr + width),
        byte_of(stored_line(line, addr, width, val).data[(k / 4) % 16], k % 4) == (if addr <= k < addr + width {
            le_bytes(val, width as int)[k - addr]
        } else {
            byte_of(line.data[(k / 4) % 16], k % 4)
        }),
{
    let ones: u64 = if width == 1 {
        1
    } else if width == 2 {
        3
    } else {
        15
    };
    assert(k < 0x1_0000_0000);
    lemma_store_offsets(addr, width, k as u32);
    lemma_mark_bits(line.tracker, (addr % 64) as u64, ones, width as u64, (k % 64) as u64);
    let word = line.data[((addr / 4) % 16) as int];
    lemma_merge(word, addr, width, val, k % 4);
    if addr <= k < addr + width {
        assert(le_bytes(val, width as int)[k - addr] == byte_of(val, k - addr));
    }
}

/// Storing into a line changes what the hart sees of the bytes that are
/// stored, and of no others of the set.
proof fn lemma_stored_in_set(set: SetView<u32, u64>, bytes: Seq<u8>, addr: u32, width: u32, val: u32, k: int)
    requires
        set.wf(2, 16),
        width == 1 || width == 2 || width == 4,
        addr % width == 0,
        set.hit(tag_at(addr as int)),
        0 <= k < 0x1_0000_0000,
        set_at(k) == set_at(addr as int),
    ensures
        seen_in(
            set.changed(
                set.find(tag_at(addr as int)),
                stored_line(set.blocks[set.find(tag_at(addr as int))], addr, width, val),
            ),
            bytes,
            k,
        ) == (if addr <= k < addr + width {
            le_bytes(val, width as int)[k - addr]
        } else {
            seen_in(set, bytes, k)
        }),
        holds_seen(set, bytes, k) ==> holds_seen(
            set.changed(
                set.find(tag_at(addr as int)),
                stored_line(set.blocks[set.find(tag_at(addr as int))], addr, width, val),
            ),
            bytes,
            k,
        ),
{
    let tag = tag_at(addr as int);
    set.lemma_find_from(tag, 0);
    let slot = set.find(tag);
    let line = set.blocks[slot];
    let new_line = stored_line(line, addr, width, val);
    let after = set.changed(slot, new_line);
    set.lemma_changed(2, 16, slot, new_line);
    let tk = tag_at(k);
    lemma_line_of(k);
    lemma_line_of(addr as int);
    assert(after.find(tk) == set.find(tk));
    if tk == tag {
        assert(k / 64 == addr / 64);
        lemma_stored_same_line(line, addr, width, val, k);
    } else {
        set.lemma_find_from(tk, 0);
        assert(!(addr <= k < addr + width)) by {
            crate::memory::model::lemma_aligned_offset(addr, width);
        }
    }
}

/// Storing into a line that the cache holds changes what the hart sees of
/// the bytes that are stored, and of no others.
pub proof fn lemma_stored(cache: CacheView<u32, u64>, bytes: Seq<u8>, addr: u32, width: u32, val: u32)
    requires
        cache.wf(2, 2, 4),
        lines_ok(cache, bytes.len() as int),
        bytes.len() <= 0x1_0000_0000,
        width == 1 || width == 2 || width == 4,
        addr % width == 0,
        cache.resident(addr / 4, 2, 4),
    ensures
        MmuView::stored(cache, addr, width, val).wf(2, 2, 4),
        lines_ok(MmuView::stored(cache, addr, width, val), bytes.len() as int),
        forall|k: int|
            0 <= k < bytes.len() ==> #[trigger] seen(MmuView::stored(cache, addr, width, val), bytes, k) == (if addr
                <= k < addr + width {
                le_bytes(val, width as int)[k - addr]
            } else {
                seen(cache, bytes, k)
            }),
        faithful(cache, bytes) ==> faithful(MmuView::stored(cache, addr, width, val), bytes),
{
    let after = MmuView::stored(cache, addr, width, val);
    let w = addr / 4;
    crate::hart::mmu::lemma_geometry(w);
    lemma_byte_address(cache, addr as int);
    let s = set_at(addr as int);
    let tag = tag_at(addr as int);
    let set = cache.sets[s];
    set.lemma_find_from(tag, 0);
    let slot = set.find(tag);
    let new_line = stored_line(set.blocks[slot], addr, width, val);
    assert(after == cache.changed(w, 2, 4, new_line));
    cache.lemma_changed(2, 2, 4, w, new_line);
    assert(after.sets[s] == set.changed(slot, new_line));
    assert forall|s2: int, i: int|
        0 <= s2 < 4 && 0 <= i < 2 && (#[trigger] after.sets[s2].tags[i]) != INVALID_TAG implies {
        &&& after.sets[s2].tags[i] < 0x0400_0000
        &&& (after.sets[s2].tags[i] * 64 + s2 * 16) * 4 + 64 <= bytes.len()
        &&& (after.sets[s2].tags[i] * 64 + s2 * 16) * 4 + 64 <= 0x8000_0000
        &&& (!after.sets[s2].dirty[i] ==> after.sets[s2].blocks[i].tracker == 0)
    } by {
        assert(cache.sets[s2].tags[i] == after.sets[s2].tags[i]);
    }
    assert forall|k: int| 0 <= k < bytes.len() implies #[trigger] seen(after, bytes, k) == (if addr <= k < addr
        + width {
        le_bytes(val, width as int)[k - addr]
    } else {
        seen(cache, bytes, k)
    }) by {
        lemma_seen_in(cache, bytes, k);
        lemma_seen_in(after, bytes, k);
        if set_at(k) == s {
            lemma_stored_in_set(set, bytes, addr, width, val, k);
        } else {
            assert(after.sets[set_at(k)] == cache.sets[set_at(k)]);
            assert(!(addr <= k < addr + width)) by {
                crate::memory::model::lemma_aligned_offset(addr, width);
            }
        }
    }
    if faithful(cache, bytes) {
        assert forall|k: int| 0 <= k < bytes.len() implies #[trigger] holds_seen(after.sets[set_at(k)], bytes, k) by {
            assert(holds_seen(cache.sets[set_at(k)], bytes, k));
            if set_at(k) == s {
                lemma_stored_in_set(set, bytes, addr, width, val, k);
            } else {
                assert(after.sets[set_at(k)] == cache.sets[set_at(k)]);
            }
        }
    }
}

/// The bytes of memory after the line in the slot of the block with `tag`
/// left the set: what the hart stored into the line is written back.
pub open spec fn after_eviction(set: SetView<u32, u64>, s: int, bytes: Seq<u8>, tag: u32) -> Seq<u8> {
    let slot = set.slot_for(tag);
    if set.tags[slot] != INVALID_TAG && set.dirty[slot] {
        overwrite_masked(
            bytes,
            (set.tags[slot] * 64 + s * 16) * 4,
            bytes_of(set.blocks[slot].data),
            mask_of(set.blocks[slot].tracker),
        )
    } else {
        bytes
    }
}

/// A line that comes into a set, and the write-back of the line that it
/// drives out, change nothing of what the hart sees of the bytes of the set.
proof fn lemma_fill_in_set(set: SetView<u32, u64>, s: int, bytes: Seq<u8>, tag: u32, data: Seq<u32>, k: int)
    requires
        set.wf(2, 16),
        slots_ok(set, s, bytes.len() as int),
        0 <= s < 4,
        tag < 0x0400_0000,
        !set.hit(tag),
        data.len() == 16,
        0 <= k < bytes.len(),
        bytes.len() <= 0x1_0000_0000,
        set_at(k) == s,
    ensures
        seen_in(set.insert(tag, BlockView { data, tracker: 0u64 }), after_eviction(set, s, bytes, tag), k) == seen_in(
            set,
            bytes,
            k,
        ),
        holds_seen(set, bytes, k) && (tag_at(k) == tag ==> byte_of(data[(k / 4) % 16], k % 4) == bytes[k])
            ==> holds_seen(set.insert(tag, BlockView { data, tracker: 0u64 }), after_eviction(set, s, bytes, tag), k),
{
    let line = BlockView { data, tracker: 0u64 };
    let after = set.insert(tag, line);
    let slot = set.slot_for(tag);
    let later = after_eviction(set, s, bytes, tag);
    set.lemma_find_from(tag, 0);
    set.lemma_find_from(INVALID_TAG, 0);
    set.lemma_insert(2, 16, tag, line);
    let victim_tag = set.tags[slot];
    let victim = set.blocks[slot];
    let written = victim_tag != INVALID_TAG && set.dirty[slot];
    let start = (victim_tag * 64 + s * 16) * 4;
    let tk = tag_at(k);
    lemma_line_of(k);
    if victim_tag != INVALID_TAG {
        set.lemma_found(2, 16, slot);
        assert(victim_tag < 0x0100_0000);
        lemma_line_bytes(k as u32, victim_tag, s as u32, start as u32);
    }
    if tk == tag {
        lemma_mark_bits(0, 0, 1, 1, (k % 64) as u64);
    } else {
        set.lemma_insert_keeps(2, 16, tag, line, tk);
        if victim_tag != INVALID_TAG && tk == victim_tag {
            if written {
                lemma_mask_of(victim.tracker, k % 64);
                assert(bytes_of(victim.data)[k % 64] == byte_of(victim.data[(k % 64) / 4], (k % 64) % 4));
            } else {
                lemma_mark_bits(0, 0, 1, 1, (k % 64) as u64);
            }
        } else {
            if set.hit(tk) {
                assert(set.tags[set.find(tk)] == tk);
            }
        }
    }
}

/// The bytes of a line: those whose tag and set are the tag and the set of the line.
proof fn lemma_line_bytes(k: u32, tag: u32, s: u32, start: u32)
    by (bit_vector)
    requires
        s < 4,
        tag < 0x0100_0000,
        start == tag * 256 + s * 64,
    ensures
        (k / 256 == tag && (k / 64) % 4 == s) <==> (start <= k < start + 64),
        (start <= k < start + 64) ==> k - start == k % 64,
        (k % 64) / 4 == (k / 4) % 16,
        (k % 64) % 4 == k % 4,
        start / 64 == tag * 4 + s,
        start % 64 == 0,
{
}

/// Bringing a line into the data cache changes nothing of what the hart
/// sees: the line comes in as memory has it, and what the hart stored into
/// the line that leaves is written back.
pub proof fn lemma_fill(cache: CacheView<u32, u64>, bus: BusView, cells: Seq<u32>, addr: u32)
    requires
        cache.wf(2, 2, 4),
        bus.wf(),
        lines_ok(cache, bus.main.bytes.len() as int),
        cacheable(addr),
        line_base(addr) + 64 <= bus.main.bytes.len(),
        !cache.resident(addr / 4, 2, 4),
    ensures
        fill(cache, bus, cells, addr).result is Ok,
        fill(cache, bus, cells, addr).cache.wf(2, 2, 4),
        fill(cache, bus, cells, addr).cache.resident(addr / 4, 2, 4),
        fill(cache, bus, cells, addr).bus.wf(),
        fill(cache, bus, cells, addr).bus.main.bytes.len() == bus.main.bytes.len(),
        lines_ok(fill(cache, bus, cells, addr).cache, bus.main.bytes.len() as int),
        forall|k: int|
            0 <= k < bus.main.bytes.len() ==> #[trigger] seen(
                fill(cache, bus, cells, addr).cache,
                fill(cache, bus, cells, addr).bus.main.bytes,
                k,
            ) == seen(cache, bus.main.bytes, k),
        faithful(cache, bus.main.bytes) ==> faithful(
            fill(cache, bus, cells, addr).cache,
            fill(cache, bus, cells, addr).bus.main.bytes,
        ),
{
    reveal(fill);
    let bytes = bus.main.bytes;
    let size = bytes.len() as int;
    let f = fill(cache, bus, cells, addr);
    let w = addr / 4;
    let base = line_base(addr);
    crate::hart::mmu::lemma_geometry(w);
    lemma_byte_address(cache, addr as int);
    lemma_line_of(addr as int);
    let s = set_at(addr as int);
    let tag = tag_at(addr as int);
    let set = cache.sets[s];
    lemma_slots_ok(cache, size, s);
    assert(bus.target(base) == Target::MainMemory);
    let read = bus.block_read(base, 64);
    assert(read is Ok);
    let line = BlockView { data: words_of(read->Ok_0), tracker: 0u64 };
    let slot = set.slot_for(tag);
    set.lemma_find_from(tag, 0);
    set.lemma_find_from(INVALID_TAG, 0);
    cache.lemma_insert(2, 2, 4, w, line);
    set.lemma_insert(2, 16, tag, line);
    let after = f.cache;
    assert(after == cache.insert(w, 2, 4, line));
    assert(after.sets[s] == set.insert(tag, line));
    let victim_tag = set.tags[slot];
    let victim = set.blocks[slot];
    let written = victim_tag != INVALID_TAG && set.dirty[slot];
    let start = (victim_tag * 64 + s * 16) * 4;
    if written {
        lemma_line_address(victim_tag, s as u32);
        let target = block_addr(victim_tag, s as u32, 2, 4) << 2u32;
        assert(target == start);
        assert(bus.target(target) == Target::MainMemory);
        assert(cache.evicted(w, 2, 4) == Some((block_addr(victim_tag, s as u32, 2, 4), victim)));
        assert(bytes_of(victim.data).len() == 64);
        bus.lemma_with_region(
            Target::MainMemory,
            bus.main.block_write_masked(target, bytes_of(victim.data), mask_of(victim.tracker)),
        );
    } else {
        assert(cache.evicted(w, 2, 4) is None);
        assert(f.bus == bus);
    }
    assert(f.bus.main.bytes == after_eviction(set, s, bytes, tag));
    assert forall|s2: int, i: int|
        0 <= s2 < 4 && 0 <= i < 2 && (#[trigger] after.sets[s2].tags[i]) != INVALID_TAG implies {
        &&& after.sets[s2].tags[i] < 0x0400_0000
        &&& (after.sets[s2].tags[i] * 64 + s2 * 16) * 4 + 64 <= size
        &&& (after.sets[s2].tags[i] * 64 + s2 * 16) * 4 + 64 <= 0x8000_0000
        &&& (!after.sets[s2].dirty[i] ==> after.sets[s2].blocks[i].tracker == 0)
    } by {
        if s2 == s && i == slot {
            lemma_line_bytes(addr, tag, s as u32, base);
        } else {
            assert(cache.sets[s2].tags[i] == after.sets[s2].tags[i]);
        }
    }
    assert forall|k: int| 0 <= k < size implies #[trigger] seen(after, f.bus.main.bytes, k) == seen(
        cache,
        bytes,
        k,
    ) by {
        lemma_seen_in(cache, bytes, k);
        lemma_seen_in(after, f.bus.main.bytes, k);
        if set_at(k) == s {
            lemma_fill_in_set(set, s, bytes, tag, line.data, k);
        } else {
            assert(after.sets[set_at(k)] == cache.sets[set_at(k)]);
            lemma_line_of(k);
            if written {
                lemma_line_bytes(k as u32, victim_tag, s as u32, start as u32);
            }
        }
    }
    if faithful(cache, bytes) {
        assert forall|k: int| 0 <= k < size implies #[trigger] holds_seen(
            after.sets[set_at(k)],
            f.bus.main.bytes,
            k,
        ) by {
            assert(holds_seen(cache.sets[set_at(k)], bytes, k));
            lemma_line_of(k);
            if set_at(k) == s {
                if tag_at(k) == tag {
                    lemma_line_bytes(k as u32, tag, s as u32, base);
                    lemma_words_of(read->Ok_0, k % 64);
                    assert((read->Ok_0)[k % 64] == bytes[k]);
                }
                lemma_fill_in_set(set, s, bytes, tag, line.data, k);
            } else {
                assert(after.sets[set_at(k)] == cache.sets[set_at(k)]);
                if written {
                    lemma_line_bytes(k as u32, victim_tag, s as u32, start as u32);
                }
            }
        }
    }
}

/// A cache that holds no line is in order.
pub proof fn lemma_empty(cache: CacheView<u32, u64>, size: int)
    requires
        cache.wf(2, 2, 4),
        cache.is_empty(),
    ensures
        lines_ok(cache, size),
        forall|addr: u32| !(#[trigger] cache.resident(addr, 2, 4)),
        forall|bytes: Seq<u8>| bytes.len() <= 0x1_0000_0000 ==> #[trigger] faithful(cache, bytes),
{
    crate::hart::mmu::lemma_geometry(0);
    assert forall|bytes: Seq<u8>| bytes.len() <= 0x1_0000_0000 implies #[trigger] faithful(cache, bytes) by {
        assert forall|k: int| 0 <= k < bytes.len() implies #[trigger] holds_seen(cache.sets[set_at(k)], bytes, k) by {
            lemma_line_of(k);
            cache.sets[set_at(k)].lemma_find_from(tag_at(k), 0);
        }
    }
    assert forall|addr: u32| !(#[trigger] cache.resident(addr, 2, 4)) by {
        lemma_split(addr, 2, 4);
        let set = cache.set_at(addr, 2, 4);
        set.lemma_find_from(tag_of(addr, 2, 4), 0);
    }
}

/// What the hart stores is what it sees: a store through the management
/// unit to main memory below 2 GiB succeeds, changes what the hart sees of
/// the bytes that it writes to the bytes of the value, and changes nothing
/// of what it sees of any other byte, whether or not a line leaves the cache.
pub proof fn lemma_store_coherent(mmu: MmuView, bus: BusView, cells: Seq<u32>, addr: u32, width: u32, val: u32)
    requires
        mmu.wf(),
        bus.wf(),
        lines_ok(mmu.d_cache, bus.main.bytes.len() as int),
        width == 1 || width == 2 || width == 4,
        addr % width == 0,
        cacheable(addr),
        addr + width <= bus.main.bytes.len(),
    ensures
        mmu.store(bus, cells, addr, width, val).result == Ok::<(), MmuError>(()),
        mmu.store(bus, cells, addr, width, val).mmu == mmu.with_d_cache(
            mmu.store(bus, cells, addr, width, val).mmu.d_cache,
        ),
        mmu.store(bus, cells, addr, width, val).mmu.wf(),
        mmu.store(bus, cells, addr, width, val).bus.wf(),
        mmu.store(bus, cells, addr, width, val).bus.main.bytes.len() == bus.main.bytes.len(),
        lines_ok(mmu.store(bus, cells, addr, width, val).mmu.d_cache, bus.main.bytes.len() as int),
        forall|k: int|
            0 <= k < bus.main.bytes.len() ==> #[trigger] seen(
                mmu.store(bus, cells, addr, width, val).mmu.d_cache,
                mmu.store(bus, cells, addr, width, val).bus.main.bytes,
                k,
            ) == (if addr <= k < addr + width {
                le_bytes(val, width as int)[k - addr]
            } else {
                seen(mmu.d_cache, bus.main.bytes, k)
            }),
        faithful(mmu.d_cache, bus.main.bytes) ==> faithful(
            mmu.store(bus, cells, addr, width, val).mmu.d_cache,
            mmu.store(bus, cells, addr, width, val).bus.main.bytes,
        ),
{
    reveal(MmuView::store);
    let bytes = bus.main.bytes;
    let acc = mmu.store(bus, cells, addr, width, val);
    crate::memory::model::lemma_aligned_offset(addr, width);
    if mmu.d_cache.resident(addr / 4, 2, 4) {
        lemma_stored(mmu.d_cache, bytes, addr, width, val);
    } else {
        assert(line_base(addr) + 64 <= bytes.len()) by {
            assert(bytes.len() % 4096 == 0);
        }
        lemma_fill(mmu.d_cache, bus, cells, addr);
        let f = fill(mmu.d_cache, bus, cells, addr);
        lemma_stored(f.cache, f.bus.main.bytes, addr, width, val);
        assert forall|k: int| 0 <= k < bytes.len() implies #[trigger] seen(acc.mmu.d_cache, acc.bus.main.bytes, k)
            == (if addr <= k < addr + width {
            le_bytes(val, width as int)[k - addr]
        } else {
            seen(mmu.d_cache, bytes, k)
        }) by {
            assert(seen(f.cache, f.bus.main.bytes, k) == seen(mmu.d_cache, bytes, k));
        }
    }
}

/// A load changes nothing of what the hart sees: a load through the
/// management unit from main memory below 2 GiB succeeds, and whether or
/// not it brings a line in and drives another out, the hart sees every byte
/// as before.
pub proof fn lemma_load_coherent(mmu: MmuView, bus: BusView, cells: Seq<u32>, addr: u32, width: u32)
    requires
        mmu.wf(),
        bus.wf(),
        lines_ok(mmu.d_cache, bus.main.bytes.len() as int),
        width == 1 || width == 2 || width == 4,
        addr % width == 0,
        cacheable(addr),
        addr + width <= bus.main.bytes.len(),
    ensures
        mmu.load(bus, cells, addr, width).result is Ok,
        mmu.load(bus, cells, addr, width).mmu == mmu.with_d_cache(mmu.load(bus, cells, addr, width).mmu.d_cache),
        mmu.load(bus, cells, addr, width).mmu.wf(),
        mmu.load(bus, cells, addr, width).bus.wf(),
        mmu.load(bus, cells, addr, width).bus.main.bytes.len() == bus.main.bytes.len(),
        lines_ok(mmu.load(bus, cells, addr, width).mmu.d_cache, bus.main.bytes.len() as int),
        forall|k: int|
            0 <= k < bus.main.bytes.len() ==> #[trigger] seen(
                mmu.load(bus, cells, addr, width).mmu.d_cache,
                mmu.load(bus, cells, addr, width).bus.main.bytes,
                k,
            ) == seen(mmu.d_cache, bus.main.bytes, k),
        faithful(mmu.d_cache, bus.main.bytes) ==> faithful(
            mmu.load(bus, cells, addr, width).mmu.d_cache,
            mmu.load(bus, cells, addr, width).bus.main.bytes,
        ),
        faithful(mmu.d_cache, bus.main.bytes) ==> mmu.load(bus, cells, addr, width).result == Ok::<u32, MmuError>(
            seen_value(mmu.d_cache, bus.main.bytes, addr, width),
        ),
{
    reveal(MmuView::load);
    crate::memory::model::lemma_aligned_offset(addr, width);
    if !mmu.d_cache.resident(addr / 4, 2, 4) {
        assert(line_base(addr) + 64 <= bus.main.bytes.len()) by {
            assert(bus.main.bytes.len() % 4096 == 0);
        }
        lemma_fill(mmu.d_cache, bus, cells, addr);
    }
    if faithful(mmu.d_cache, bus.main.bytes) {
        let after = mmu.load(bus, cells, addr, width);
        lemma_extract(after.mmu.d_cache, after.bus.main.bytes, addr, width);
        assert(Seq::new(width as nat, |i: int| seen(after.mmu.d_cache, after.bus.main.bytes, addr + i)) =~= Seq::new(
            width as nat,
            |i: int| seen(mmu.d_cache, bus.main.bytes, addr + i),
        ));
    }
}

/// The value that the hart sees in the `width` bytes of main memory at `addr`.
pub open spec fn seen_value(cache: CacheView<u32, u64>, bytes: Seq<u8>, addr: u32, width: u32) -> u32 {
    le_value(Seq::new(width as nat, |i: int| seen(cache, bytes, addr + i)))
}

/// The bytes of an aligned access lie in one word.
proof fn lemma_within_word(addr: u32, width: u32, i: u32)
    by (bit_vector)
    requires
        width == 1 || width == 2 || width == 4,
        addr % width == 0,
        i < width,
    ensures
        addr + i <= 0xffff_ffff,
        ((addr + i) as u32) / 4 == addr / 4,
        ((addr + i) as u32) % 4 == (addr % 4) + i,
        ((addr + i) as u32) / 256 == addr / 256,
        (((addr + i) as u32) / 64) % 4 == (addr / 64) % 4,
        (addr % 4) + width <= 4,
{
}

/// A byte of a word of a line that holds memory as the hart sees it is the byte that the hart sees.
proof fn lemma_extract_byte(cache: CacheView<u32, u64>, bytes: Seq<u8>, addr: u32, width: u32, i: int)
    requires
        faithful(cache, bytes),
        width == 1 || width == 2 || width == 4,
        addr % width == 0,
        addr + width <= bytes.len(),
        cache.resident(addr / 4, 2, 4),
        0 <= i < width,
    ensures
        byte_of(cache.line(addr / 4, 2, 4).data[((addr / 4) % 16) as int], addr % 4 + i) == seen(
            cache,
            bytes,
            addr + i,
        ),
{
    let k = addr + i;
    lemma_within_word(addr, width, i as u32);
    lemma_byte_address(cache, k);
    lemma_byte_address(cache, addr as int);
    lemma_seen_in(cache, bytes, k);
    assert(tag_at(k) == tag_at(addr as int));
    assert(set_at(k) == set_at(addr as int));
    assert(holds_seen(cache.sets[set_at(k)], bytes, k));
}

/// What a load takes from a line that holds memory as the hart sees it is what the hart sees.
proof fn lemma_extract(cache: CacheView<u32, u64>, bytes: Seq<u8>, addr: u32, width: u32)
    requires
        faithful(cache, bytes),
        width == 1 || width == 2 || width == 4,
        addr % width == 0,
        addr + width <= bytes.len(),
        cache.resident(addr / 4, 2, 4),
    ensures
        crate::hart::mmu::extract(cache.line(addr / 4, 2, 4).data[((addr / 4) % 16) as int], addr, width)
            == seen_value(cache, bytes, addr, width),
{
    let word = cache.line(addr / 4, 2, 4).data[((addr / 4) % 16) as int];
    let taken = le_bytes(word, 4).subrange((addr % 4) as int, addr % 4 + width);
    let sees = Seq::new(width as nat, |i: int| seen(cache, bytes, addr + i));
    lemma_within_word(addr, width, 0);
    lemma_extract_byte(cache, bytes, addr, width, 0);
    assert(taken[0] == sees[0]);
    if width >= 2 {
        lemma_extract_byte(cache, bytes, addr, width, 1);
        assert(taken[1] == sees[1]);
    }
    if width == 4 {
        lemma_extract_byte(cache, bytes, addr, width, 2);
        lemma_extract_byte(cache, bytes, addr, width, 3);
        assert(taken[2] == sees[2]);
        assert(taken[3] == sees[3]);
    }
    assert(taken =~= sees);
}

/// The word of main memory at `addr` as the hart sees it.
pub open spec fn seen_word(cache: CacheView<u32, u64>, bytes: Seq<u8>, addr: u32) -> u32 {
    le_value(Seq::new(4, |i: int| seen(cache, bytes, addr + i)))
}

/// Once its line has left the cache, a word is in memory as the hart saw
/// it: a load over the bus gives what the hart stored last.
pub proof fn lemma_read_back(cache: CacheView<u32, u64>, bus: BusView, addr: u32)
    requires
        bus.wf(),
        addr % 4 == 0,
        cacheable(addr),
        addr + 4 <= bus.main.bytes.len(),
        !cache.resident(addr / 4, 2, 4),
    ensures
        bus.load(addr, 4) == Ok::<u32, MemoryError>(seen_word(cache, bus.main.bytes, addr)),
{
    assert(bus.target(addr) == Target::MainMemory);
    let word = Seq::new(4, |i: int| seen(cache, bus.main.bytes, addr + i));
    assert((addr + 0) / 4 == addr / 4 && (addr + 1) / 4 == addr / 4 && (addr + 2) / 4 == addr / 4 && (addr + 3) / 4
        == addr / 4);
    assert(word[0] == bus.main.bytes[addr + 0]);
    assert(word[1] == bus.main.bytes[addr + 1]);
    assert(word[2] == bus.main.bytes[addr + 2]);
    assert(word[3] == bus.main.bytes[addr + 3]);
    assert(word =~= bus.main.bytes.subrange(addr as int, addr + 4));
}

/// An access of a hart to a word of memory.
pub enum WordAccess {
    Load { addr: u32 },
    Store { addr: u32, val: u32 },
}

impl WordAccess {
    pub open spec fn addr(self) -> u32 {
        match self {
            WordAccess::Load { addr } => addr,
            WordAccess::Store { addr, .. } => addr,
        }
    }

    /// Whether the access is to a word of main memory below 2 GiB.
    pub open spec fn in_main(self, size: int) -> bool {
        &&& self.addr() % 4 == 0
        &&& cacheable(self.addr())
        &&& self.addr() + 4 <= size
    }
}

/// A management unit with the bus and the reservation cells.
pub struct Ran {
    pub mmu: MmuView,
    pub bus: BusView,
    pub cells: Seq<u32>,
}

impl Ran {
    /// The state after the accesses, one after the other.
    pub open spec fn after(self, accesses: Seq<WordAccess>) -> Ran
        decreases accesses.len(),
    {
        if accesses.len() == 0 {
            self
        } else {
            let before = self.after(accesses.drop_last());
            match accesses.last() {
                WordAccess::Load { addr } => {
                    let a = before.mmu.load(before.bus, before.cells, addr, 4);
                    Ran { mmu: a.mmu, bus: a.bus, cells: a.cells }
                },
                WordAccess::Store { addr, val } => {
                    let a = before.mmu.store(before.bus, before.cells, addr, 4, val);
                    Ran { mmu: a.mmu, bus: a.bus, cells: a.cells }
                },
            }
        }
    }

    /// The bytes of main memory as the hart sees them.
    pub open spec fn image(self) -> Seq<u8> {
        Seq::new(self.bus.main.bytes.len(), |k: int| seen(self.mmu.d_cache, self.bus.main.bytes, k))
    }

    /// The state is in order, with a main memory of `size` bytes.
    pub open spec fn ok(self, size: int) -> bool {
        &&& self.mmu.wf()
        &&& self.bus.wf()
        &&& self.bus.main.bytes.len() == size
        &&& lines_ok(self.mmu.d_cache, size)
        &&& faithful(self.mmu.d_cache, self.bus.main.bytes)
    }
}

/// The bytes after the stores among the accesses, one after the other.
pub open spec fn stored_image(bytes: Seq<u8>, accesses: Seq<WordAccess>) -> Seq<u8>
    decreases accesses.len(),
{
    if accesses.len() == 0 {
        bytes
    } else {
        match accesses.last() {
            WordAccess::Load { .. } => stored_image(bytes, accesses.drop_last()),
            WordAccess::Store { addr, val } => overwrite(
                stored_image(bytes, accesses.drop_last()),
                addr as int,
                le_bytes(val, 4),
            ),
        }
    }
}

/// The data cache never loses a store: after any loads and stores of words
/// of main memory through the management unit, the hart sees memory as the
/// stores left it, one after the other, however many lines came into the
/// cache and left it meanwhile.
pub proof fn lemma_accesses_coherent(start: Ran, accesses: Seq<WordAccess>)
    requires
        start.ok(start.bus.main.bytes.len() as int),
        forall|i: int| 0 <= i < accesses.len() ==> (#[trigger] accesses[i]).in_main(start.bus.main.bytes.len() as int),
    ensures
        start.after(accesses).ok(start.bus.main.bytes.len() as int),
        start.after(accesses).image() == stored_image(start.image(), accesses),
    decreases accesses.len(),
{
    let size = start.bus.main.bytes.len() as int;
    if accesses.len() == 0 {
    } else {
        let earlier = accesses.drop_last();
        assert forall|i: int| 0 <= i < earlier.len() implies (#[trigger] earlier[i]).in_main(size) by {
            assert(earlier[i] == accesses[i]);
        }
        lemma_accesses_coherent(start, earlier);
        let before = start.after(earlier);
        let last = accesses.last();
        assert(last == accesses[accesses.len() - 1]);
        assert(last.in_main(size));
        match last {
            WordAccess::Load { addr } => {
                lemma_load_coherent(before.mmu, before.bus, before.cells, addr, 4);
                assert(start.after(accesses).image() =~= before.image());
            },
            WordAccess::Store { addr, val } => {
                lemma_store_coherent(before.mmu, before.bus, before.cells, addr, 4, val);
                assert(start.after(accesses).image() =~= overwrite(before.image(), addr as int, le_bytes(val, 4)));
            },
        }
    }
}

/// What was stored reaches memory: after any loads and stores of words of
/// main memory through a management unit whose cache was empty, a word whose
/// line the cache does not hold any more is in memory as the stores left it,
/// and a load over the bus gives the value that was stored there last.
pub proof fn lemma_written_back(start: Ran, accesses: Seq<WordAccess>, addr: u32)
    requires
        start.ok(start.bus.main.bytes.len() as int),
        start.mmu.d_cache.is_empty(),
        forall|i: int| 0 <= i < accesses.len() ==> (#[trigger] accesses[i]).in_main(start.bus.main.bytes.len() as int),
        addr % 4 == 0,
        cacheable(addr),
        addr + 4 <= start.bus.main.bytes.len(),
        !start.after(accesses).mmu.d_cache.resident(addr / 4, 2, 4),
    ensures
        start.after(accesses).bus.load(addr, 4) == Ok::<u32, MemoryError>(
            le_value(stored_image(start.bus.main.bytes, accesses).subrange(addr as int, addr + 4)),
        ),
{
    let end = start.after(accesses);
    lemma_accesses_coherent(start, accesses);
    lemma_empty(start.mmu.d_cache, start.bus.main.bytes.len() as int);
    assert(start.image() =~= start.bus.main.bytes) by {
        assert forall|k: int| 0 <= k < start.bus.main.bytes.len() implies start.image()[k] == start.bus.main.bytes[k] by {
            assert(!start.mmu.d_cache.resident((k / 4) as u32, 2, 4));
        }
    }
    lemma_read_back(end.mmu.d_cache, end.bus, addr);
    let image = stored_image(start.bus.main.bytes, accesses);
    assert(Seq::new(4, |i: int| seen(end.mmu.d_cache, end.bus.main.bytes, addr + i)) =~= image.subrange(
        addr as int,
        addr + 4,
    )) by {
        assert(end.image()[addr + 0] == image[addr + 0]);
        assert(end.image()[addr + 1] == image[addr + 1]);
        assert(end.image()[addr + 2] == image[addr + 2]);
        assert(end.image()[addr + 3] == image[addr + 3]);
    }
}

/// The hart reads what it wrote: after any loads and stores of words of
/// main memory through the management unit, a load of a word gives the value
/// that was stored there last, or what memory held if nothing was stored
/// there, whether the word is in the cache or in memory.
pub proof fn lemma_load_after(start: Ran, accesses: Seq<WordAccess>, addr: u32)
    requires
        start.ok(start.bus.main.bytes.len() as int),
        forall|i: int| 0 <= i < accesses.len() ==> (#[trigger] accesses[i]).in_main(start.bus.main.bytes.len() as int),
        addr % 4 == 0,
        cacheable(addr),
        addr + 4 <= start.bus.main.bytes.len(),
    ensures
        ({
            let end = start.after(accesses);
            end.mmu.load(end.bus, end.cells, addr, 4).result == Ok::<u32, MmuError>(
                le_value(stored_image(start.image(), accesses).subrange(addr as int, addr + 4)),
            )
        }),
{
    let end = start.after(accesses);
    lemma_accesses_coherent(start, accesses);
    lemma_load_coherent(end.mmu, end.bus, end.cells, addr, 4);
    let image = stored_image(start.image(), accesses);
    assert(Seq::new(4, |i: int| seen(end.mmu.d_cache, end.bus.main.bytes, addr + i)) =~= image.subrange(
        addr as int,
        addr + 4,
    )) by {
        assert(end.image()[addr + 0] == image[addr + 0]);
        assert(end.image()[addr + 1] == image[addr + 1]);
        assert(end.image()[addr + 2] == image[addr + 2]);
        assert(end.image()[addr + 3] == image[addr + 3]);
    }
}

} // verus!
