//! Page-size-aware stage-1 translation for Relay's static AArch64 CPU.
use crate::relay_core::{failure, only_failed, GuestPageSize, RelayError};
use crate::runtime::{load_le, read_le};
use crate::text::{hex, push_hex};
use crate::vm::guest::{fits, refusal, GuestMemory, Ram};
use std::collections::BTreeMap;
use vstd::prelude::*;

verus! {

broadcast use vstd::std_specs::btree::group_btree_axioms;

#[derive(Debug, Clone, Copy, PartialEq, Eq, Structural)]
pub struct Access {
    pub read: bool,
    pub write: bool,
    pub execute: bool,
}

impl Access {
    /// Read and execute.
    pub fn rx() -> (r: Self)
        ensures
            r == (Access { read: true, write: false, execute: true }),
    {
        Access { read: true, write: false, execute: true }
    }

    /// Read and write.
    pub fn rw() -> (r: Self)
        ensures
            r == (Access { read: true, write: true, execute: false }),
    {
        Access { read: true, write: true, execute: false }
    }
}

#[derive(Debug, Clone, Copy, PartialEq, Eq, Structural)]
pub struct Mapping {
    pub physical: u64,
    pub access: Access,
}

/// Page-granular virtual-to-physical mappings with permissions.
pub struct Mmu {
    page_size: GuestPageSize,
    pages: BTreeMap<u64, Mapping>,
}

/// The pages `map` installs from `offset` on, and how it ends.
pub open spec fn map_from(
    pages: Map<u64, Mapping>,
    va: u64,
    pa: u64,
    bytes: u64,
    page: u64,
    access: Access,
    offset: int,
) -> (Map<u64, Mapping>, Result<(), Seq<char>>)
    decreases (if offset < bytes { bytes - offset } else { 0 }),
{
    if offset >= bytes || page == 0 || offset < 0 {
        (pages, Ok(()))
    } else if va + offset > u64::MAX {
        (pages, Err("MMU virtual mapping overflow"@))
    } else if pa + offset > u64::MAX {
        (pages, Err("MMU physical mapping overflow"@))
    } else {
        let next = pages.insert(
            (va + offset) as u64,
            Mapping { physical: (pa + offset) as u64, access },
        );
        if pages.contains_key((va + offset) as u64) {
            (next, Err("MMU mapping overlaps an existing page"@))
        } else {
            map_from(next, va, pa, bytes, page, access, offset + page)
        }
    }
}

/// Address `va + k` lies on a mapped page that carries `access` and sends it
/// to `pa + k`.
pub open spec fn maps_onto(pages: Map<u64, Mapping>, page: u32, va: u64, pa: u64, access: Access, k: u64) -> bool {
    let base = page_base((va + k) as u64, page);
    &&& va + k <= u64::MAX
    &&& pages.contains_key(base)
    &&& pages[base].access == access
    &&& pages[base].physical + ((va + k) - base) == pa + k
}

pub open spec fn page_base(va: u64, page: u32) -> u64 {
    va & !((page - 1) as u64)
}

pub open spec fn allowed(want: Access, have: Access) -> bool {
    !(want.read && !have.read) && !(want.write && !have.write) && !(want.execute && !have.execute)
}

pub open spec fn valid_granule(page: u32) -> bool {
    page == 4096 || page == 16384
}

/// The page bases of `x` at both granules, and the largest aligned addresses.
proof fn lemma_granule_bits(x: u64)
    by (bit_vector)
    ensures
        (x & !4095u64) == x - x % 4096,
        (x & !16383u64) == x - x % 16384,
        (x & !4095u64) <= x && x - (x & !4095u64) < 4096 && (x & !4095u64) % 4096 == 0,
        (x & !16383u64) <= x && x - (x & !16383u64) < 16384 && (x & !16383u64) % 16384 == 0,
        x % 4096 == 0 ==> x <= 0xFFFF_FFFF_FFFF_F000u64,
        x % 16384 == 0 ==> x <= 0xFFFF_FFFF_FFFF_C000u64,
{
}

proof fn lemma_base_offset(va: u64, page: u64)
    requires
        page == 4096 || page == 16384,
    ensures
        (va & !((page - 1) as u64)) <= va,
        va - (va & !((page - 1) as u64)) < page,
        (va & !((page - 1) as u64)) % page == 0,
{
    lemma_granule_bits(va);
}

impl Mmu {
    /// A supported granule, and every mapped physical page aligned to it.
    pub closed spec fn wf(&self) -> bool {
        &&& valid_granule(self.page_size.0)
        &&& forall|k: u64| #[trigger]
            self.pages@.contains_key(k) ==> self.pages@[k].physical % (self.page_size.0 as u64) == 0
    }

    /// The installed mappings, keyed by virtual page.
    pub closed spec fn view(&self) -> Map<u64, Mapping> {
        self.pages@
    }

    pub closed spec fn granule(&self) -> u32 {
        self.page_size.0
    }

    pub fn new(page_size: GuestPageSize) -> (r: Self)
        requires
            valid_granule(page_size.0),
        ensures
            r.wf(),
            r@ == Map::<u64, Mapping>::empty(),
            r.granule() == page_size.0,
    {
        Mmu { page_size, pages: BTreeMap::new() }
    }

    /// Map `bytes` from `virtual_address` to `physical_address`, page by page.
    /// The range must be non-empty and page aligned, and may not overlap an
    /// existing page; pages installed before a refusal stay installed.
    pub fn map(&mut self, virtual_address: u64, physical_address: u64, bytes: u64, access: Access) -> (r:
        Result<(), RelayError>)
        requires
            old(self).wf(),
        ensures
            final(self).wf(),
            only_failed(r),
            final(self).granule() == old(self).granule(),
            ({
                let page = old(self).granule();
                if bytes == 0 || virtual_address % (page as u64) != 0 || physical_address % (
                page as u64) != 0 || bytes % (page as u64) != 0 {
                    final(self)@ == old(self)@ && failure(r) == Err::<(), Seq<char>>(
                        "MMU mappings must be non-empty and page aligned"@,
                    )
                } else {
                    let (pages, outcome) = map_from(
                        old(self)@,
                        virtual_address,
                        physical_address,
                        bytes,
                        page as u64,
                        access,
                        0,
                    );
                    final(self)@ == pages && failure(r) == outcome
                }
            }),
            old(self)@.contains_key(virtual_address) ==> r is Err,
            r is Ok ==> forall|k: u64|
                k < bytes ==> #[trigger] maps_onto(
                    final(self)@,
                    old(self).granule(),
                    virtual_address,
                    physical_address,
                    access,
                    k,
                ),
    {
        let page = self.page_size.0 as u64;
        proof {
            crate::relay_core::lemma_page_alignment_pub(virtual_address);
            crate::relay_core::lemma_page_alignment_pub(physical_address);
        }
        if bytes == 0 || !self.page_size.is_aligned(virtual_address) || !self.page_size.is_aligned(
            physical_address,
        ) || bytes % page != 0 {
            return Err(
                RelayError::Failed(String::from_str("MMU mappings must be non-empty and page aligned")),
            );
        }
        let ghost start = self.pages@;
        let mut offset: u64 = 0;
        while offset < bytes
            invariant
                valid_granule(self.page_size.0),
                page == self.page_size.0,
                self.page_size == old(self).page_size,
                start == old(self)@,
                bytes > 0,
                virtual_address % page == 0,
                offset <= bytes,
                offset % page == 0,
                bytes % page == 0,
                physical_address % page == 0,
                forall|k: u64| #[trigger]
                    self.pages@.contains_key(k) ==> self.pages@[k].physical % page == 0,
                map_from(start, virtual_address, physical_address, bytes, page, access, 0)
                    == map_from(self.pages@, virtual_address, physical_address, bytes, page, access, offset as int),
            decreases bytes - offset,
        {
            let va = match virtual_address.checked_add(offset) {
                Some(v) => v,
                None => {
                    return Err(RelayError::Failed(String::from_str("MMU virtual mapping overflow")));
                },
            };
            let pa = match physical_address.checked_add(offset) {
                Some(p) => p,
                None => {
                    return Err(RelayError::Failed(String::from_str("MMU physical mapping overflow")));
                },
            };
            proof {
                vstd::arithmetic::div_mod::lemma_add_mod_noop(
                    physical_address as int,
                    offset as int,
                    page as int,
                );
                vstd::arithmetic::div_mod::lemma_add_mod_noop(offset as int, page as int, page as int);
                vstd::arithmetic::div_mod::lemma_mod_self_0(page as int);
                vstd::arithmetic::div_mod::lemma_small_mod(0, page as nat);
                assert(pa % page == 0);
            }
            let ghost before = self.pages@;
            let previous = self.pages.insert(va, Mapping { physical: pa, access });
            assert(self.pages@ == before.insert(va, Mapping { physical: pa, access }));
            assert forall|k: u64| #[trigger] self.pages@.contains_key(k) implies self.pages@[k].physical
                % page == 0 by {
                if k != va {
                    assert(before.contains_key(k));
                }
            }
            if previous.is_some() {
                return Err(
                    RelayError::Failed(String::from_str("MMU mapping overlaps an existing page")),
                );
            }
            if bytes - offset <= page {
                offset = bytes;
                proof {
                    assert(offset + page >= bytes);
                }
            } else {
                offset = offset + page;
            }
        }
        proof {
            assert(map_from(start, virtual_address, physical_address, bytes, page, access, 0)
                == (self.pages@, Ok::<(), Seq<char>>(())));
            assert forall|k: u64| k < bytes implies #[trigger] maps_onto(
                self@,
                old(self).granule(),
                virtual_address,
                physical_address,
                access,
                k,
            ) by {
                lemma_map_then_translate(
                    start,
                    self.page_size.0,
                    virtual_address,
                    physical_address,
                    bytes,
                    access,
                    k,
                );
            }
        }
        Ok(())
    }

    /// Translate a virtual address for an access, or fault.
    pub fn translate(&self, virtual_address: u64, access: Access) -> (r: Result<u64, RelayError>)
        requires
            self.wf(),
        ensures
            only_failed(r),
            ({
                let base = page_base(virtual_address, self.granule());
                if !self@.contains_key(base) {
                    failure(r) == Err::<u64, Seq<char>>("MMU translation fault"@)
                } else if !allowed(access, self@[base].access) {
                    failure(r) == Err::<u64, Seq<char>>("MMU permission fault"@)
                } else {
                    r == Ok::<u64, RelayError>(
                        (self@[base].physical + (virtual_address - base)) as u64,
                    )
                }
            }),
    {
        let page_bytes = self.page_size.0 as u64;
        let page = virtual_address & !(page_bytes - 1);
        proof {
            lemma_base_offset(virtual_address, page_bytes);
        }
        let offset = virtual_address - page;
        let mapping = match self.pages.get(&page) {
            Some(m) => *m,
            None => {
                return Err(RelayError::Failed(String::from_str("MMU translation fault")));
            },
        };
        if (access.read && !mapping.access.read) || (access.write && !mapping.access.write) || (
        access.execute && !mapping.access.execute) {
            return Err(RelayError::Failed(String::from_str("MMU permission fault")));
        }
        proof {
            assert(self.pages@.contains_key(page));
            assert(mapping.physical % page_bytes == 0);
            assert(mapping.physical + offset <= u64::MAX) by (nonlinear_arith)
                requires
                    mapping.physical % page_bytes == 0,
                    offset < page_bytes,
                    page_bytes == 4096 || page_bytes == 16384,
                    mapping.physical <= u64::MAX,
            {
                if page_bytes == 4096 {
                    assert(mapping.physical <= 0xffff_ffff_ffff_f000);
                } else {
                    assert(mapping.physical <= 0xffff_ffff_ffff_c000);
                }
            }
        }
        Ok(mapping.physical + offset)
    }
}


/// Bits of a descriptor that hold a physical address.
pub open spec fn pa_mask() -> u64 {
    0xffff_ffff_ffff
}

/// The virtual-address shift of a table level for a granule.
pub open spec fn level_shift(page: u32, level: int) -> u64 {
    if page == 4096 {
        (39 - 9 * level) as u64
    } else {
        (47 - 11 * level) as u64
    }
}

/// Entries per table for a granule.
pub open spec fn table_entries(page: u32) -> u64 {
    if page == 4096 {
        512
    } else {
        2048
    }
}

/// The rest of a stage-1 walk at `level` through the table at `table`.
pub open spec fn walk_from(memory: Ram, va: u64, table: u64, page: u32, level: int) -> Result<
    u64,
    Seq<char>,
>
    decreases 4 - level,
{
    if level >= 4 || level < 0 {
        Err("stage-1 page-table walk did not terminate"@)
    } else {
        let shift = level_shift(page, level);
        let index = (va >> shift) & ((table_entries(page) - 1) as u64);
        if table + index * 8 > u64::MAX {
            Err("MMU table address overflow"@)
        } else {
            let address = (table + index * 8) as u64;
            if !fits(memory, address, 8) {
                Err(refusal(memory, address, 8))
            } else {
                let d = load_le(memory.bytes, address as int);
                if d & 1 == 0 {
                    Err("stage-1 translation fault va=0x"@ + hex(va as nat))
                } else if level < 3 && d & 2 != 0 {
                    walk_from(memory, va, d & pa_mask() & !((page - 1) as u64), page, level + 1)
                } else {
                    let base_mask = !(((1u64 << shift) - 1) as u64);
                    Ok((d & pa_mask() & base_mask) | (va & !base_mask))
                }
            }
        }
    }
}

/// An EL1 stage-1 walk of `va` from the table `ttbr` names, in `memory`.
pub open spec fn stage1(memory: Ram, va: u64, ttbr: u64, page: u32) -> Result<u64, Seq<char>> {
    if !valid_granule(page) {
        Err("unsupported stage-1 granule"@)
    } else {
        walk_from(memory, va, ttbr & pa_mask() & !((page - 1) as u64), page, 0)
    }
}

/// Translate an EL1 stage-1 virtual address through guest-owned page tables.
/// Both supported granules use four levels; block descriptors are valid
/// before the final level and page descriptors are required at the final one.
pub fn walk_stage1(memory: &GuestMemory, virtual_address: u64, ttbr0_el1: u64, page_size: GuestPageSize) -> (r:
    Result<u64, RelayError>)
    ensures
        only_failed(r),
        failure(r) == stage1(memory.ram(), virtual_address, ttbr0_el1, page_size.0),
{
    let page = page_size.0;
    if page != 4096 && page != 16384 {
        return Err(RelayError::Failed(String::from_str("unsupported stage-1 granule")));
    }
    let entries: u64 = if page == 4096 { 512 } else { 2048 };
    let pmask: u64 = 0xffff_ffff_ffff;
    let mut table = ttbr0_el1 & pmask & !(page as u64 - 1);
    let mut level: u64 = 0;
    while level < 4
        invariant
            valid_granule(page),
            page == page_size.0,
            entries == table_entries(page),
            pmask == pa_mask(),
            level <= 4,
            stage1(memory.ram(), virtual_address, ttbr0_el1, page) == walk_from(
                memory.ram(),
                virtual_address,
                table,
                page,
                level as int,
            ),
        decreases 4 - level,
    {
        let shift: u64 = if page == 4096 { 39 - 9 * level } else { 47 - 11 * level };
        assert(shift == level_shift(page, level as int));
        let index = (virtual_address >> shift) & (entries - 1);
        assert(index < entries) by (bit_vector)
            requires
                index == (virtual_address >> shift) & ((entries - 1) as u64),
                entries == 512 || entries == 2048,
        ;
        let address = match table.checked_add(index * 8) {
            Some(a) => a,
            None => {
                return Err(RelayError::Failed(String::from_str("MMU table address overflow")));
            },
        };
        let mut raw = [0u8; 8];
        match memory.read(address, &mut raw) {
            Ok(()) => {},
            Err(e) => {
                return Err(e);
            },
        }
        let descriptor = read_le(&raw, 0);
        assert(descriptor == load_le(memory@, address as int));
        if descriptor & 1 == 0 {
            let mut message = String::from_str("stage-1 translation fault va=0x");
            push_hex(&mut message, virtual_address);
            return Err(RelayError::Failed(message));
        }
        if level < 3 && descriptor & 2 != 0 {
            table = descriptor & pmask & !(page as u64 - 1);
            level = level + 1;
            continue;
        }
        assert(1u64 << shift >= 1) by (bit_vector)
            requires
                shift < 64,
        ;
        let base_mask = !((1u64 << shift) - 1);
        return Ok((descriptor & pmask & base_mask) | (virtual_address & !base_mask));
    }
    Err(RelayError::Failed(String::from_str("stage-1 page-table walk did not terminate")))
}


/// Where the walk at `level` reads its descriptor for `va`.
pub open spec fn entry_address(va: u64, table: u64, page: u32, level: int) -> int {
    table + ((va >> level_shift(page, level)) & ((table_entries(page) - 1) as u64)) * 8
}

/// A walk that meets a valid block descriptor (or a page descriptor at the
/// last level) ends there: the output address is the descriptor's address
/// bits above the level's shift, with the bits of `va` below it, so every
/// address inside a block keeps its offset within the block.
pub proof fn lemma_walk_ends_at_block(memory: Ram, va: u64, table: u64, page: u32, level: int)
    requires
        valid_granule(page),
        0 <= level < 4,
        entry_address(va, table, page, level) <= u64::MAX,
        fits(memory, entry_address(va, table, page, level) as u64, 8),
        load_le(memory.bytes, entry_address(va, table, page, level)) & 1 != 0,
        level == 3 || load_le(memory.bytes, entry_address(va, table, page, level)) & 2 == 0,
    ensures
        ({
            let low = ((1u64 << level_shift(page, level)) - 1) as u64;
            let d = load_le(memory.bytes, entry_address(va, table, page, level));
            &&& walk_from(memory, va, table, page, level) is Ok
            &&& walk_from(memory, va, table, page, level)->Ok_0 & low == va & low
            &&& walk_from(memory, va, table, page, level)->Ok_0 & !low == d & pa_mask() & !low
        }),
{
    let low = ((1u64 << level_shift(page, level)) - 1) as u64;
    let x = load_le(memory.bytes, entry_address(va, table, page, level)) & pa_mask();
    let out = (x & !low) | (va & !!low);
    assert(out & low == va & low && out & !low == x & !low) by (bit_vector)
        requires
            out == (x & !low) | (va & !!low),
    ;
    assert(walk_from(memory, va, table, page, level) == Ok::<u64, Seq<char>>(out));
}

/// A mapping that succeeds keeps every page that was installed before it.
proof fn lemma_map_from_keeps(
    pages: Map<u64, Mapping>,
    va: u64,
    pa: u64,
    bytes: u64,
    page: u64,
    access: Access,
    offset: int,
    key: u64,
)
    requires
        map_from(pages, va, pa, bytes, page, access, offset).1 is Ok,
        pages.contains_key(key),
    ensures
        map_from(pages, va, pa, bytes, page, access, offset).0.contains_key(key),
        map_from(pages, va, pa, bytes, page, access, offset).0[key] == pages[key],
    decreases (if offset < bytes { bytes - offset } else { 0 }),
{
    if offset >= bytes || page == 0 || offset < 0 {
    } else {
        let next = pages.insert((va + offset) as u64, Mapping { physical: (pa + offset) as u64, access });
        lemma_map_from_keeps(next, va, pa, bytes, page, access, offset + page, key);
    }
}

/// A mapping that succeeds installs, for every page offset `o` from `offset`
/// on, the page at `va + o` onto `pa + o` with its access.
proof fn lemma_map_from_installs(
    pages: Map<u64, Mapping>,
    va: u64,
    pa: u64,
    bytes: u64,
    page: u64,
    access: Access,
    offset: int,
    o: int,
)
    requires
        map_from(pages, va, pa, bytes, page, access, offset).1 is Ok,
        page > 0,
        0 <= offset <= o < bytes,
        (o - offset) % (page as int) == 0,
    ensures
        va + o <= u64::MAX,
        pa + o <= u64::MAX,
        map_from(pages, va, pa, bytes, page, access, offset).0.contains_key((va + o) as u64),
        map_from(pages, va, pa, bytes, page, access, offset).0[(va + o) as u64] == (Mapping {
            physical: (pa + o) as u64,
            access,
        }),
    decreases bytes - offset,
{
    let next = pages.insert((va + offset) as u64, Mapping { physical: (pa + offset) as u64, access });
    if o == offset {
        lemma_map_from_keeps(next, va, pa, bytes, page, access, offset + page, (va + o) as u64);
    } else {
        assert((o - (offset + page)) % (page as int) == 0) by (nonlinear_arith)
            requires
                (o - offset) % (page as int) == 0,
                page > 0,
        ;
        assert(o >= offset + page) by (nonlinear_arith)
            requires
                (o - offset) % (page as int) == 0,
                o > offset,
                page > 0,
        ;
        lemma_map_from_installs(next, va, pa, bytes, page, access, offset + page, o);
    }
}

/// The page base of an address in a page-aligned range is the range start
/// plus the whole pages before the address.
proof fn lemma_page_base_in_range(va: u64, k: u64, page: u64)
    requires
        page == 4096 || page == 16384,
        va % page == 0,
        va + k <= u64::MAX,
    ensures
        page_base((va + k) as u64, page as u32) == va + (k - k % page),
        (k - k % page) % (page as int) == 0,
{
    let x = (va + k) as u64;
    assert(page_base(x, page as u32) == (x & !((page - 1) as u64)));
    lemma_granule_bits(x);
    let gi = page as int;
    vstd::arithmetic::div_mod::lemma_fundamental_div_mod(va as int, gi);
    vstd::arithmetic::div_mod::lemma_mod_multiples_vanish(va as int / gi, k as int, gi);
    assert(x % page == k % page);
    assert((k - k % page) % (page as int) == 0) by (nonlinear_arith)
        requires
            page > 0,
    ;
}

/// Mapping a page-aligned range that succeeds makes every address in it
/// translate, for every access the mapping allows, to the same offset in the
/// physical range.
pub proof fn lemma_map_then_translate(
    pages: Map<u64, Mapping>,
    page: u32,
    va: u64,
    pa: u64,
    bytes: u64,
    access: Access,
    k: u64,
)
    requires
        valid_granule(page),
        bytes != 0,
        va % (page as u64) == 0,
        pa % (page as u64) == 0,
        bytes % (page as u64) == 0,
        map_from(pages, va, pa, bytes, page as u64, access, 0).1 is Ok,
        k < bytes,
    ensures
        ({
            let m = map_from(pages, va, pa, bytes, page as u64, access, 0).0;
            let base = page_base((va + k) as u64, page);
            &&& va + k <= u64::MAX
            &&& m.contains_key(base)
            &&& m[base].access == access
            &&& m[base].physical + ((va + k) - base) == pa + k
        }),
{
    let g = page as u64;
    let o = (k - k % g) as int;
    assert(0 <= o <= k) by (nonlinear_arith)
        requires
            g > 0,
            o == k - k % g,
    ;
    assert(o % (g as int) == 0) by (nonlinear_arith)
        requires
            g > 0,
            o == k - k % g,
    ;
    lemma_map_from_installs(pages, va, pa, bytes, g, access, 0, o);
    let y = (va + o) as u64;
    assert(y % g == 0) by {
        let gi = g as int;
        vstd::arithmetic::div_mod::lemma_fundamental_div_mod(va as int, gi);
        vstd::arithmetic::div_mod::lemma_fundamental_div_mod(o, gi);
        let p = va as int / gi;
        let q = o / gi;
        assert(y == (p + q) * gi) by (nonlinear_arith)
            requires
                va == gi * p + 0,
                o == gi * q + 0,
                y == va + o,
        ;
        vstd::arithmetic::div_mod::lemma_mod_multiples_basic(p + q, gi);
    }
    lemma_granule_bits(y);
    lemma_page_base_in_range(va, k, g);
}

} // verus!
