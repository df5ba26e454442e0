//! Sparse virtio-block backend: an immutable base image plus a writable
//! overlay of whole sectors.
use crate::relay_core::{failure, only_failed, DiskResizePlan, RelayError};
use crate::runtime::{load_le, read_le};
use crate::vm::guest::{written, GuestMemory};
use crate::relay_core::error_text;
use crate::vm::virtio_mmio::{pop_spec, transport_wf, used_spec, Transport};
use std::collections::{BTreeMap, BTreeSet};
use vstd::prelude::*;

verus! {

broadcast use {vstd::std_specs::btree::group_btree_axioms, vstd::laws_cmp::group_laws_cmp};

pub const SECTOR_BYTES: usize = 512;
pub const GIB: u64 = 1024 * 1024 * 1024;

/// One guest descriptor of a request chain.
#[derive(Debug, Clone, Copy, PartialEq, Eq, Structural)]
pub struct Descriptor {
    pub address: u64,
    pub length: u32,
    pub writable: bool,
}

/// Little-endian `u32` at `a`.
pub open spec fn le32(m: Seq<u8>, a: int) -> u32 {
    (m[a] as u32) | ((m[a + 1] as u32) << 8u32) | ((m[a + 2] as u32) << 16u32) | ((m[a + 3] as u32)
        << 24u32)
}

pub open spec fn le16_at(m: Seq<u8>, a: int) -> u16 {
    (m[a] as u16) | ((m[a + 1] as u16) << 8u16)
}

/// The descriptor chain from `index` on, given the indices already visited.
pub open spec fn chain_from(
    memory: GuestMemory,
    table: u64,
    index: u16,
    count: u16,
    seen: Set<u16>,
    acc: Seq<Descriptor>,
) -> Result<Seq<Descriptor>, Seq<char>>
    decreases 33 - acc.len(),
{
    if seen.contains(index) {
        Err("virtio descriptor chain loop"@)
    } else if index >= count || acc.len() >= 32 {
        Err("virtio descriptor chain invalid"@)
    } else if table + index * 16 > u64::MAX {
        Err("virtio descriptor address overflow"@)
    } else if !memory.in_range((table + index * 16) as u64, 16) {
        Err(memory.access_error((table + index * 16) as u64, 16))
    } else {
        let a = table + index * 16;
        let flags = le16_at(memory@, a + 12);
        if flags & !3u16 != 0 {
            Err("unsupported virtio descriptor flags"@)
        } else {
            let next = acc.push(
                Descriptor {
                    address: load_le(memory@, a),
                    length: le32(memory@, a + 8),
                    writable: flags & 2 != 0,
                },
            );
            if flags & 1 == 0 {
                Ok(next)
            } else {
                chain_from(memory, table, le16_at(memory@, a + 14), count, seen.insert(index), next)
            }
        }
    }
}

/// Walk a descriptor chain of at most 32 entries, refusing loops and
/// descriptors outside a table of `count` entries.
pub fn parse_chain(memory: &GuestMemory, table: u64, head: u16, count: u16) -> (r: Result<
    Vec<Descriptor>,
    RelayError,
>)
    ensures
        only_failed(r),
        match r {
            Ok(chain) => chain_from(*memory, table, head, count, Set::empty(), Seq::empty())
                == Ok::<Seq<Descriptor>, Seq<char>>(chain@),
            Err(e) => chain_from(*memory, table, head, count, Set::empty(), Seq::empty())
                == Err::<Seq<Descriptor>, Seq<char>>(crate::relay_core::error_text(e)),
        },
{
    let mut chain: Vec<Descriptor> = Vec::new();
    let mut index = head;
    let mut seen: BTreeSet<u16> = BTreeSet::new();
    loop
        invariant
            chain@.len() <= 32,
            chain_from(*memory, table, head, count, Set::empty(), Seq::empty()) == chain_from(
                *memory,
                table,
                index,
                count,
                seen@,
                chain@,
            ),
        decreases 33 - chain@.len(),
    {
        if !seen.insert(index) {
            return Err(RelayError::Failed(String::from_str("virtio descriptor chain loop")));
        }
        if index >= count || chain.len() >= 32 {
            return Err(RelayError::Failed(String::from_str("virtio descriptor chain invalid")));
        }
        let address = match table.checked_add(index as u64 * 16) {
            Some(a) => a,
            None => {
                return Err(RelayError::Failed(String::from_str("virtio descriptor address overflow")));
            },
        };
        let mut raw = [0u8; 16];
        match memory.read(address, &mut raw) {
            Ok(()) => {},
            Err(e) => {
                return Err(e);
            },
        }
        let flags = (raw[12] as u16) | ((raw[13] as u16) << 8);
        assert(flags == le16_at(memory@, address + 12));
        if flags & !3 != 0 {
            return Err(RelayError::Failed(String::from_str("unsupported virtio descriptor flags")));
        }
        let descriptor_address = read_le(&raw, 0);
        assert(descriptor_address == load_le(memory@, address as int));
        let length = (raw[8] as u32) | ((raw[9] as u32) << 8) | ((raw[10] as u32) << 16) | ((
        raw[11] as u32) << 24);
        assert(length == le32(memory@, address + 8));
        chain.push(Descriptor { address: descriptor_address, length, writable: flags & 2 != 0 });
        if flags & 1 == 0 {
            return Ok(chain);
        }
        index = (raw[14] as u16) | ((raw[15] as u16) << 8);
        assert(index == le16_at(memory@, address + 14));
    }
}

/// A disk of `sectors` 512-byte sectors: the base image, zero beyond it, and
/// written sectors kept in the overlay.
pub struct BlockDevice {
    base: Vec<u8>,
    sectors: u64,
    overlay: BTreeMap<u64, [u8; 512]>,
}

/// Sector `s` of a base image: its bytes, zero padded.
pub open spec fn base_sector(base: Seq<u8>, s: int) -> Seq<u8> {
    Seq::new(512, |i: int| if s * 512 + i < base.len() { base[s * 512 + i] } else { 0u8 })
}

impl BlockDevice {
    pub closed spec fn capacity(&self) -> u64 {
        self.sectors
    }

    pub closed spec fn base_image(&self) -> Seq<u8> {
        self.base@
    }

    /// The sectors written since the device was created.
    pub closed spec fn written_sectors(&self) -> Map<u64, Seq<u8>> {
        self.overlay@.map_values(|d: [u8; 512]| d@)
    }

    /// What a read of sector `s` returns.
    pub open spec fn sector(&self, s: u64) -> Seq<u8> {
        if self.written_sectors().contains_key(s) {
            self.written_sectors()[s]
        } else {
            base_sector(self.base_image(), s as int)
        }
    }

    /// A disk of `size_gib` GiB over `base`; at least 4 GiB and no smaller than the base.
    pub fn new(base: Vec<u8>, size_gib: u32) -> (r: Result<Self, RelayError>)
        ensures
            only_failed(r),
            size_gib < 4 ==> failure(r) == Err::<BlockDevice, Seq<char>>(
                "MicroVM disk must be at least 4 GiB"@,
            ),
            size_gib >= 4 && base@.len() > size_gib * GIB ==> failure(r) == Err::<BlockDevice, Seq<char>>(
                "base image exceeds virtual disk capacity"@,
            ),
            size_gib >= 4 && base@.len() <= size_gib * GIB ==> (r matches Ok(d) && d.capacity() == size_gib
                * GIB / 512 && d.base_image() == base@ && d.written_sectors() == Map::<
                u64,
                Seq<u8>,
            >::empty()),
    {
        if size_gib < DiskResizePlan::MIN_GIB {
            return Err(RelayError::Failed(String::from_str("MicroVM disk must be at least 4 GiB")));
        }
        assert((size_gib as int) * (GIB as int) <= u64::MAX) by (nonlinear_arith)
            requires
                size_gib <= u32::MAX,
                GIB == 1073741824,
        ;
        let bytes = (size_gib as u64) * GIB;
        if base.len() as u64 > bytes {
            return Err(RelayError::Failed(String::from_str("base image exceeds virtual disk capacity")));
        }
        let d = BlockDevice { base, sectors: bytes / 512, overlay: BTreeMap::new() };
        assert(d.written_sectors() =~= Map::<u64, Seq<u8>>::empty());
        Ok(d)
    }

    pub fn sectors(&self) -> (r: u64)
        ensures
            r == self.capacity(),
    {
        self.sectors
    }

    /// Read one sector: the overlay's copy if it was written, else the base.
    pub fn read_sector(&self, sector: u64) -> (r: Result<[u8; 512], RelayError>)
        ensures
            only_failed(r),
            sector >= self.capacity() ==> failure(r) == Err::<[u8; 512], Seq<char>>(
                "virtio block read beyond disk"@,
            ),
            sector < self.capacity() && !self.written_sectors().contains_key(sector) && sector * 512
                > usize::MAX ==> failure(r) == Err::<[u8; 512], Seq<char>>(
                "virtio block address overflow"@,
            ),
            sector < self.capacity() && (self.written_sectors().contains_key(sector) || sector * 512
                <= usize::MAX) ==> (r matches Ok(d) && d@ == self.sector(sector)),
    {
        if sector >= self.sectors {
            return Err(RelayError::Failed(String::from_str("virtio block read beyond disk")));
        }
        match self.overlay.get(&sector) {
            Some(data) => {
                return Ok(*data);
            },
            None => {},
        }
        if sector > (usize::MAX / 512) as u64 {
            return Err(RelayError::Failed(String::from_str("virtio block address overflow")));
        }
        let start = (sector as usize) * 512;
        let mut data = [0u8; 512];
        let len = self.base.len();
        let mut i: usize = 0;
        while i < 512
            invariant
                i <= 512,
                start == sector * 512,
                len == self.base@.len(),
                forall|k: int| 0 <= k < i ==> data@[k] == base_sector(self.base@, sector as int)[k],
                forall|k: int| i <= k < 512 ==> data@[k] == 0,
            decreases 512 - i,
        {
            if start < len && i < len - start {
                data[i] = self.base[start + i];
            }
            i = i + 1;
        }
        assert(data@ =~= base_sector(self.base@, sector as int));
        Ok(data)
    }

    /// Write one sector into the overlay.
    pub fn write_sector(&mut self, sector: u64, data: [u8; 512]) -> (r: Result<(), RelayError>)
        ensures
            only_failed(r),
            final(self).capacity() == old(self).capacity(),
            final(self).base_image() == old(self).base_image(),
            sector >= old(self).capacity() ==> final(self).written_sectors() == old(self).written_sectors()
                && failure(r) == Err::<(), Seq<char>>("virtio block write beyond disk"@),
            sector < old(self).capacity() ==> r is Ok && final(self).written_sectors() == old(
                self,
            ).written_sectors().insert(sector, data@),
    {
        if sector >= self.sectors {
            return Err(RelayError::Failed(String::from_str("virtio block write beyond disk")));
        }
        self.overlay.insert(sector, data);
        assert(self.written_sectors() =~= old(self).written_sectors().insert(sector, data@));
        Ok(())
    }

    /// Grow the disk to a plan made for its current size.
    pub fn resize(&mut self, plan: DiskResizePlan) -> (r: Result<(), RelayError>)
        ensures
            only_failed(r),
            final(self).base_image() == old(self).base_image(),
            final(self).written_sectors() == old(self).written_sectors(),
            ({
                let current = (old(self).capacity() * 512 / (GIB as int)) as u32;
                if plan.current_gib != current || plan.target_gib < current {
                    final(self).capacity() == old(self).capacity() && failure(r) == Err::<
                        (),
                        Seq<char>,
                    >("disk resize plan no longer matches device"@)
                } else {
                    r is Ok && final(self).capacity() == plan.target_gib * GIB / 512
                }
            }),
    {
        let current = (self.sectors as u128 * 512 / GIB as u128) as u32;
        if plan.current_gib != current || plan.target_gib < current {
            return Err(
                RelayError::Failed(String::from_str("disk resize plan no longer matches device")),
            );
        }
        assert((plan.target_gib as int) * (GIB as int) <= u64::MAX) by (nonlinear_arith)
            requires
                plan.target_gib <= u32::MAX,
                GIB == 1073741824,
        ;
        self.sectors = (plan.target_gib as u64) * GIB / 512;
        Ok(())
    }
}


/// Why a request chain is refused, or `None` when it is served.
pub open spec fn request_check(d: BlockDevice, m: GuestMemory, chain: Seq<Descriptor>) -> Option<Seq<char>> {
    if chain.len() != 3 || chain[0].writable || chain[0].length < 16 || !chain[2].writable
        || chain[2].length < 1 {
        Some("invalid virtio block descriptor chain"@)
    } else if !m.in_range(chain[2].address, 1) {
        Some(m.access_error(chain[2].address, 1))
    } else if !m.in_range(chain[0].address, 16) {
        Some(m.access_error(chain[0].address, 16))
    } else {
        let h = chain[0].address as int;
        let kind = le32(m@, h);
        let sector = load_le(m@, h + 8);
        if chain[1].length != 512 {
            Some("virtio block currently requires one sector descriptor"@)
        } else if kind == 0 {
            if !chain[1].writable {
                Some("virtio block read buffer must be writable"@)
            } else if sector >= d.capacity() {
                Some("virtio block read beyond disk"@)
            } else if !d.written_sectors().contains_key(sector) && sector * 512 > usize::MAX {
                Some("virtio block address overflow"@)
            } else if !m.in_range(chain[1].address, 512) {
                Some(m.access_error(chain[1].address, 512))
            } else {
                None
            }
        } else if kind == 1 {
            if chain[1].writable {
                Some("virtio block write buffer must be readable"@)
            } else if !m.in_range(chain[1].address, 512) {
                Some(m.access_error(chain[1].address, 512))
            } else if sector >= d.capacity() {
                Some("virtio block write beyond disk"@)
            } else {
                None
            }
        } else {
            Some("virtio block request unsupported"@)
        }
    }
}

/// The overlay after serving an accepted request: a write stores its sector.
pub open spec fn served_sectors(d: BlockDevice, m: GuestMemory, chain: Seq<Descriptor>) -> Map<u64, Seq<u8>> {
    let h = chain[0].address as int;
    let data = chain[1].address as int;
    if le32(m@, h) == 0 {
        d.written_sectors()
    } else {
        d.written_sectors().insert(load_le(m@, h + 8), m@.subrange(data, data + 512))
    }
}

/// Guest RAM after serving an accepted request: a read fills the data buffer,
/// and either kind writes a zero status byte.
pub open spec fn served_memory(d: BlockDevice, m: GuestMemory, chain: Seq<Descriptor>) -> Seq<u8> {
    let h = chain[0].address as int;
    let status = chain[2].address as int;
    let data = chain[1].address as int;
    if le32(m@, h) == 0 {
        written(written(m@, data, d.sector(load_le(m@, h + 8))), status, seq![0u8])
    } else {
        written(m@, status, seq![0u8])
    }
}

impl BlockDevice {
    /// Serve a three-descriptor virtio-blk chain: request header, one data
    /// sector, status byte. Completion memory is checked before any disk or
    /// RAM write, so a refused request changes nothing.
    pub fn process(&mut self, memory: &mut GuestMemory, chain: &[Descriptor]) -> (r: Result<(), RelayError>)
        ensures
            only_failed(r),
            final(self).capacity() == old(self).capacity(),
            final(self).base_image() == old(self).base_image(),
            final(memory).size() == old(memory).size(),
            final(memory).page() == old(memory).page(),
            final(memory).geometry() == old(memory).geometry(),
            match request_check(*old(self), *old(memory), chain@) {
                Some(e) => failure(r) == Err::<(), Seq<char>>(e) && final(memory)@ == old(memory)@
                    && final(self).written_sectors() == old(self).written_sectors(),
                None => r is Ok && final(self).written_sectors() == served_sectors(
                    *old(self),
                    *old(memory),
                    chain@,
                ) && final(memory)@ == served_memory(*old(self), *old(memory), chain@),
            },
            request_check(*old(self), *old(memory), chain@) is None ==> ({
                let h = chain@[0].address as int;
                let s = load_le(old(memory)@, h + 8);
                let data = chain@[1].address as int;
                let status = chain@[2].address as int;
                &&& le32(old(memory)@, h) == 1 ==> final(self).sector(s) == old(memory)@.subrange(
                    data,
                    data + 512,
                )
                &&& le32(old(memory)@, h) == 0 ==> forall|i: int|
                    0 <= i < 512 && data + i != status ==> #[trigger] final(memory)@[data + i] == old(
                        self,
                    ).sector(s)[i]
                &&& final(memory)@[status] == 0
            }),
    {
        if chain.len() != 3 || chain[0].writable || chain[0].length < 16 || !chain[2].writable
            || chain[2].length < 1 {
            return Err(
                RelayError::Failed(String::from_str("invalid virtio block descriptor chain")),
            );
        }
        let mut status = [0u8; 1];
        match memory.read(chain[2].address, &mut status) {
            Ok(()) => {},
            Err(e) => {
                return Err(e);
            },
        }
        let mut header = [0u8; 16];
        match memory.read(chain[0].address, &mut header) {
            Ok(()) => {},
            Err(e) => {
                return Err(e);
            },
        }
        let kind = (header[0] as u32) | ((header[1] as u32) << 8) | ((header[2] as u32) << 16) | ((
        header[3] as u32) << 24);
        assert(kind == le32(memory@, chain@[0].address as int));
        let sector = read_le(&header, 8);
        assert(sector == load_le(memory@, chain@[0].address + 8));
        if chain[1].length != 512 {
            return Err(
                RelayError::Failed(
                    String::from_str("virtio block currently requires one sector descriptor"),
                ),
            );
        }
        if kind == 0 {
            if !chain[1].writable {
                return Err(
                    RelayError::Failed(String::from_str("virtio block read buffer must be writable")),
                );
            }
            let data = match self.read_sector(sector) {
                Ok(d) => d,
                Err(e) => {
                    return Err(e);
                },
            };
            match memory.write(chain[1].address, &data) {
                Ok(()) => {},
                Err(e) => {
                    return Err(e);
                },
            }
        } else if kind == 1 {
            if chain[1].writable {
                return Err(
                    RelayError::Failed(String::from_str("virtio block write buffer must be readable")),
                );
            }
            let mut data = [0u8; 512];
            match memory.read(chain[1].address, &mut data) {
                Ok(()) => {},
                Err(e) => {
                    return Err(e);
                },
            }
            match self.write_sector(sector, data) {
                Ok(()) => {},
                Err(e) => {
                    return Err(e);
                },
            }
        } else {
            return Err(RelayError::Failed(String::from_str("virtio block request unsupported")));
        }
        let done = [0u8; 1];
        assert(done@ =~= seq![0u8]);
        match memory.write(chain[2].address, &done) {
            Ok(()) => {},
            Err(e) => {
                return Err(e);
            },
        }
        proof {
            lemma_served_request(*old(self), *old(memory), chain@, *self, memory@);
        }
        Ok(())
    }

    /// Drain queue zero after a guest notification, serving each request and
    /// publishing its used entry. On success the available ring is empty.
    pub fn process_notified_queue(&mut self, transport: &mut Transport, memory: &mut GuestMemory) -> (r:
        Result<usize, RelayError>)
        requires
            transport_wf(*old(transport)),
        ensures
            only_failed(r),
            transport_wf(*final(transport)),
            drain_outcome(
                *old(self),
                *old(transport),
                *old(memory),
                *final(self),
                *final(transport),
                *final(memory),
                r,
            ),
    {
        match transport.take_notification() {
            Some(q) => {
                if q != 0 {
                    return Err(RelayError::Failed(String::from_str("virtio block queue is not zero")));
                }
            },
            None => {
                return Ok(0);
            },
        }
        let ghost start: DrainState = (*self, *transport, *memory);
        let ghost mut trace: Seq<DrainState> = seq![start];
        let mut completed: usize = 0;
        loop
            invariant
                transport_wf(*transport),
                memory.size() == old(memory).size(),
                self.capacity() == old(self).capacity(),
                self.base_image() == old(self).base_image(),
                transport.notified_queue is None,
                completed > 0 ==> transport.interrupt_status & 1 != 0,
                old(transport).notified_queue == Some(0u32),
                start == drain_start(*old(self), *old(transport), *old(memory)),
                trace.len() == completed + 1,
                trace[0] == start,
                trace.last() == (*self, *transport, *memory),
                forall|i: int|
                    0 <= i < trace.len() - 1 ==> #[trigger] drain_step(
                        trace[i],
                        trace[i + 1],
                        Ok::<bool, Seq<char>>(true),
                    ),
            decreases usize::MAX - completed,
        {
            let ghost d0 = *self;
            let ghost t0 = *transport;
            let ghost m0 = *memory;
            let head = match transport.pop_available(memory) {
                Ok(Some(h)) => h,
                Ok(None) => {
                    assert(crate::vm::virtio_mmio::pop_spec(*transport, *memory).1 == Ok::<Option<u16>, Seq<char>>(None));
                    assert(drain_step((d0, t0, m0), (*self, *transport, *memory), Ok::<bool, Seq<char>>(false)));
                    assert(drain_trace(trace, start, (*self, *transport, *memory), Ok::<usize, RelayError>(completed)));
                    return Ok(completed);
                },
                Err(e) => {
                    let r: Result<usize, RelayError> = Err(e);
                    assert(drain_step((d0, t0, m0), (*self, *transport, *memory), Err::<bool, Seq<char>>(error_text(e))));
                    assert(drain_trace(trace, start, (*self, *transport, *memory), r));
                    return r;
                },
            };
            let ghost tp = *transport;
            let chain = match parse_chain(memory, transport.descriptor_table(), head, transport.queue_size()) {
                Ok(c) => c,
                Err(e) => {
                    let r: Result<usize, RelayError> = Err(e);
                    assert(drain_step((d0, t0, m0), (*self, *transport, *memory), Err::<bool, Seq<char>>(error_text(e))));
                    assert(drain_trace(trace, start, (*self, *transport, *memory), r));
                    return r;
                },
            };
            match self.process(memory, chain.as_slice()) {
                Ok(()) => {},
                Err(e) => {
                    let r: Result<usize, RelayError> = Err(e);
                    assert(drain_step((d0, t0, m0), (*self, *transport, *memory), Err::<bool, Seq<char>>(error_text(e))));
                    assert(drain_trace(trace, start, (*self, *transport, *memory), r));
                    return r;
                },
            }
            let bytes_written = match completion_length(&chain) {
                Some(n) => n,
                None => {
                    let r: Result<usize, RelayError> = Err(
                        RelayError::Failed(String::from_str("virtio block completion length overflow")),
                    );
                    assert(drain_step((d0, t0, m0), (*self, *transport, *memory), Err::<bool, Seq<char>>(error_text(r->Err_0))));
                    assert(drain_trace(trace, start, (*self, *transport, *memory), r));
                    return r;
                },
            };
            match transport.complete(memory, head, bytes_written) {
                Ok(()) => {},
                Err(e) => {
                    let r: Result<usize, RelayError> = Err(e);
                    assert(drain_step((d0, t0, m0), (*self, *transport, *memory), Err::<bool, Seq<char>>(error_text(e))));
                    assert(drain_trace(trace, start, (*self, *transport, *memory), r));
                    return r;
                },
            }
            proof {
                let before = tp.interrupt_status;
                let after = transport.interrupt_status;
                assert(after & 1 != 0) by (bit_vector)
                    requires
                        after == before | 1u32,
                ;
                assert(drain_step((d0, t0, m0), (*self, *transport, *memory), Ok::<bool, Seq<char>>(true)));
                trace = trace.push((*self, *transport, *memory));
            }
            if completed == usize::MAX {
                let r: Result<usize, RelayError> = Err(
                    RelayError::Failed(String::from_str("virtio block completion count overflow")),
                );
                assert(drain_trace(trace, start, (*self, *transport, *memory), r));
                return r;
            }
            completed = completed + 1;
        }
    }
}

/// The bytes a chain hands to the device to write: the summed lengths of its
/// device-writable descriptors.
pub open spec fn writable_total(chain: Seq<Descriptor>) -> int
    decreases chain.len(),
{
    if chain.len() == 0 {
        0
    } else {
        writable_total(chain.drop_last()) + if chain.last().writable {
            chain.last().length as int
        } else {
            0
        }
    }
}

proof fn lemma_writable_total_grows(chain: Seq<Descriptor>, i: int, j: int)
    requires
        0 <= i <= j <= chain.len(),
    ensures
        writable_total(chain.take(i)) <= writable_total(chain.take(j)),
    decreases j - i,
{
    if i < j {
        assert(chain.take(j).drop_last() =~= chain.take(j - 1));
        lemma_writable_total_grows(chain, i, j - 1);
    }
}

/// The device, its transport and guest RAM, as one drain pass sees them.
pub type DrainState = (BlockDevice, Transport, GuestMemory);

/// The bytes a served chain reports as written, or `None` when they do not fit
/// in the used ring's 32-bit length.
fn completion_length(chain: &Vec<Descriptor>) -> (r: Option<u32>)
    ensures
        r == if writable_total(chain@) > u32::MAX {
            None::<u32>
        } else {
            Some(writable_total(chain@) as u32)
        },
{
    let mut bytes_written: u32 = 0;
    let mut k: usize = 0;
    while k < chain.len()
        invariant
            k <= chain@.len(),
            bytes_written == writable_total(chain@.take(k as int)),
        decreases chain@.len() - k,
    {
        assert(chain@.take(k + 1).drop_last() =~= chain@.take(k as int));
        if chain[k].writable {
            bytes_written = match bytes_written.checked_add(chain[k].length) {
                Some(b) => b,
                None => {
                    proof {
                        lemma_writable_total_grows(chain@, k + 1, chain@.len() as int);
                        assert(chain@.take(chain@.len() as int) =~= chain@);
                    }
                    return None;
                },
            };
        }
        k = k + 1;
    }
    assert(chain@.take(chain@.len() as int) =~= chain@);
    Some(bytes_written)
}

/// What draining queue zero after a notification does to the device `d0`, its
/// transport `t0` and guest RAM `m0`, giving `d1`, `t1`, `m1` and the result `r`.
pub open spec fn drain_outcome(
    d0: BlockDevice,
    t0: Transport,
    m0: GuestMemory,
    d1: BlockDevice,
    t1: Transport,
    m1: GuestMemory,
    r: Result<usize, RelayError>,
) -> bool {
    &&& m1.size() == m0.size()
    &&& d1.capacity() == d0.capacity()
    &&& d1.base_image() == d0.base_image()
    &&& t1.notified_queue is None
    &&& t0.notified_queue is None ==> {
        &&& r == Ok::<usize, RelayError>(0)
        &&& t1 == t0
        &&& m1@ == m0@
        &&& d1.written_sectors() == d0.written_sectors()
    }
    &&& (t0.notified_queue is Some && t0.notified_queue->0 != 0) ==> {
        &&& failure(r) == Err::<usize, Seq<char>>("virtio block queue is not zero"@)
        &&& t1 == Transport { notified_queue: None, ..t0 }
        &&& m1@ == m0@
        &&& d1.written_sectors() == d0.written_sectors()
    }
    &&& (r is Ok && t0.notified_queue is Some) ==> pop_spec(t1, m1).1 == Ok::<Option<u16>, Seq<char>>(
        None,
    )
    &&& (r is Ok && r->Ok_0 > 0) ==> t1.interrupt_status & 1 != 0
    &&& t0.notified_queue == Some(0u32) ==> exists|trace: Seq<DrainState>|
        #[trigger] drain_trace(trace, drain_start(d0, t0, m0), (d1, t1, m1), r)
}

/// Where a drain begins: the notification taken, nothing else changed.
pub open spec fn drain_start(d: BlockDevice, t: Transport, m: GuestMemory) -> DrainState {
    (d, Transport { notified_queue: None, ..t }, m)
}

/// One pass of the drain loop from `a` to `b`. `Ok(true)`: the next available
/// chain was served and published; `Ok(false)`: the ring was empty and nothing
/// changed; `Err(e)`: the pass stopped with `e`, leaving what it had done.
pub open spec fn drain_step(a: DrainState, b: DrainState, outcome: Result<bool, Seq<char>>) -> bool {
    let (d0, t0, m0) = a;
    let (d1, t1, m1) = b;
    let (tp, popped) = pop_spec(t0, m0);
    &&& d1.capacity() == d0.capacity()
    &&& d1.base_image() == d0.base_image()
    &&& m1.size() == m0.size()
    &&& m1.page() == m0.page()
    &&& m1.geometry() == m0.geometry()
    &&& match popped {
        Err(e) => outcome == Err::<bool, Seq<char>>(e) && t1 == t0 && m1@ == m0@
            && d1.written_sectors() == d0.written_sectors(),
        Ok(None) => outcome == Ok::<bool, Seq<char>>(false) && t1 == t0 && m1@ == m0@
            && d1.written_sectors() == d0.written_sectors(),
        Ok(Some(head)) => match chain_from(
            m0,
            t0.queue.descriptor_table,
            head,
            t0.queue.size,
            Set::empty(),
            Seq::empty(),
        ) {
            Err(e) => outcome == Err::<bool, Seq<char>>(e) && t1 == tp && m1@ == m0@
                && d1.written_sectors() == d0.written_sectors(),
            Ok(chain) => match request_check(d0, m0, chain) {
                Some(e) => outcome == Err::<bool, Seq<char>>(e) && t1 == tp && m1@ == m0@
                    && d1.written_sectors() == d0.written_sectors(),
                None => {
                    &&& d1.written_sectors() == served_sectors(d0, m0, chain)
                    &&& if writable_total(chain) > u32::MAX {
                        &&& outcome == Err::<bool, Seq<char>>(
                            "virtio block completion length overflow"@,
                        )
                        &&& t1 == tp
                        &&& m1@ == served_memory(d0, m0, chain)
                    } else {
                        exists|mp: GuestMemory|
                            {
                                let u = #[trigger] used_spec(
                                    tp,
                                    mp,
                                    head,
                                    writable_total(chain) as u32,
                                );
                                &&& mp@ == served_memory(d0, m0, chain)
                                &&& mp.size() == m0.size()
                                &&& t1 == u.0
                                &&& m1@ == u.1
                                &&& outcome == match u.2 {
                                    Some(e) => Err::<bool, Seq<char>>(e),
                                    None => Ok::<bool, Seq<char>>(true),
                                }
                            }
                    }
                },
            },
        },
    }
}

/// A drain from `start` to `end`: every pass but the last served a request,
/// and the last found the ring empty, stopped with the error returned, or
/// served one request more than the count can hold.
pub open spec fn drain_trace(
    trace: Seq<DrainState>,
    start: DrainState,
    end: DrainState,
    r: Result<usize, RelayError>,
) -> bool {
    &&& trace.len() >= 1
    &&& trace[0] == start
    &&& forall|i: int|
        0 <= i < trace.len() - 1 ==> #[trigger] drain_step(
            trace[i],
            trace[i + 1],
            Ok::<bool, Seq<char>>(true),
        )
    &&& {
        let last = trace.last();
        let n = trace.len() - 1;
        ||| (drain_step(last, end, Ok::<bool, Seq<char>>(false)) && n <= usize::MAX && r
            == Ok::<usize, RelayError>(n as usize))
        ||| (r is Err && drain_step(last, end, Err::<bool, Seq<char>>(error_text(r->Err_0))))
        ||| (n == usize::MAX + 1 && end == last && failure(r) == Err::<usize, Seq<char>>(
            "virtio block completion count overflow"@,
        ))
    }
}

/// A sector reads back what was last written to it; a write leaves every other
/// sector as it read before, and the base image is never changed.
pub proof fn lemma_block_read_after_write(
    before: BlockDevice,
    after: BlockDevice,
    s: u64,
    data: Seq<u8>,
    t: u64,
)
    requires
        after.base_image() == before.base_image(),
        after.written_sectors() == before.written_sectors().insert(s, data),
    ensures
        after.sector(s) == data,
        t != s ==> after.sector(t) == before.sector(t),
{
}

/// Serving an accepted request: a write (type 1) stores the 512 guest bytes of
/// its data buffer as its sector, so that sector then reads them back; a read
/// (type 0) leaves the disk as it was and copies the sector into the data
/// buffer; either kind sets the status byte to zero. No other sector changes,
/// and no other guest byte.
pub proof fn lemma_served_request(
    d: BlockDevice,
    m: GuestMemory,
    chain: Seq<Descriptor>,
    after: BlockDevice,
    memory_after: Seq<u8>,
)
    requires
        request_check(d, m, chain) is None,
        after.base_image() == d.base_image(),
        after.written_sectors() == served_sectors(d, m, chain),
        memory_after == served_memory(d, m, chain),
    ensures
        ({
            let h = chain[0].address as int;
            let s = load_le(m@, h + 8);
            let data = chain[1].address as int;
            let status = chain[2].address as int;
            &&& le32(m@, h) == 1 ==> after.sector(s) == m@.subrange(data, data + 512)
            &&& le32(m@, h) == 0 ==> after.sector(s) == d.sector(s)
            &&& forall|t: u64| t != s ==> #[trigger] after.sector(t) == d.sector(t)
            &&& memory_after.len() == m@.len()
            &&& memory_after[status] == 0
            &&& le32(m@, h) == 0 ==> forall|i: int|
                0 <= i < 512 && data + i != status ==> #[trigger] memory_after[data + i] == d.sector(
                    s,
                )[i]
            &&& forall|k: int|
                0 <= k < m@.len() && k != status && (le32(m@, h) == 1 || !(data <= k < data + 512))
                    ==> #[trigger] memory_after[k] == m@[k]
        }),
{
    let h = chain[0].address as int;
    let s = load_le(m@, h + 8);
    let data = chain[1].address as int;
    if le32(m@, h) == 1 {
        lemma_block_read_after_write(d, after, s, m@.subrange(data, data + 512), s);
        assert forall|t: u64| t != s implies #[trigger] after.sector(t) == d.sector(t) by {
            lemma_block_read_after_write(d, after, s, m@.subrange(data, data + 512), t);
        }
    }
}

/// A new device reads its base image, zero padded past its end.
pub proof fn lemma_fresh_device_reads_base(d: BlockDevice, s: u64)
    requires
        d.written_sectors() == Map::<u64, Seq<u8>>::empty(),
    ensures
        d.sector(s) == base_sector(d.base_image(), s as int),
{
}

} // verus!
