//! Fixed MMIO windows: the PL011 early console and one virtio-block device.
//! RAM remains solely in `GuestMemory`.
use crate::relay_core::{failure, only_failed, RelayError};
use crate::text::{hex, push_hex};
use crate::vm::guest::GuestMemory;
use crate::vm::virtio_block::{drain_outcome, BlockDevice};
use crate::vm::virtio_mmio::{reg_read, reg_write, transport_wf, Transport};
use vstd::prelude::*;

verus! {

pub const PL011_BASE: u64 = 0x0900_0000;
pub const PL011_SIZE: u64 = 0x1000;
pub const VIRTIO_BLOCK_BASE: u64 = 0x0a00_0000;
pub const VIRTIO_MMIO_SIZE: u64 = 0x1000;
pub const UART_DR: u64 = 0;
pub const UART_FR: u64 = 0x18;

pub struct Bus {
    console: Vec<u8>,
    block_transport: Option<Transport>,
    block: Option<BlockDevice>,
}

pub open spec fn in_pl011(address: u64) -> bool {
    PL011_BASE <= address < PL011_BASE + PL011_SIZE
}

pub open spec fn in_virtio(address: u64) -> bool {
    VIRTIO_BLOCK_BASE <= address < VIRTIO_BLOCK_BASE + VIRTIO_MMIO_SIZE
}

pub open spec fn unmapped(kind: Seq<char>, address: u64) -> Seq<char> {
    "StaticCpu unmapped MMIO "@ + kind + " 0x"@ + hex(address as nat)
}

impl Bus {
    /// Bytes the guest wrote to the PL011 data register.
    pub closed spec fn console_view(&self) -> Seq<u8> {
        self.console@
    }

    pub closed spec fn transport(&self) -> Option<Transport> {
        self.block_transport
    }

    pub closed spec fn disk(&self) -> Option<BlockDevice> {
        self.block
    }

    pub open spec fn wf(&self) -> bool {
        self.transport() matches Some(t) ==> transport_wf(t)
    }

    /// What a 32-bit MMIO read at `address` returns.
    pub open spec fn read_spec(&self, address: u64) -> Result<u32, Seq<char>> {
        if address % 4 != 0 {
            Err(unmapped("read"@, address))
        } else if in_pl011(address) {
            Ok(0)
        } else if in_virtio(address) {
            let offset = (address - VIRTIO_BLOCK_BASE) as u64;
            if offset == 0x0fc {
                Ok(0)
            } else if offset == 0x100 || offset == 0x104 {
                match self.disk() {
                    None => Err("virtio block is not attached"@),
                    Some(d) => Ok(
                        if offset == 0x100 {
                            d.capacity() as u32
                        } else {
                            (d.capacity() >> 32u64) as u32
                        },
                    ),
                }
            } else {
                match self.transport() {
                    None => Err("virtio block is not attached"@),
                    Some(t) => reg_read(t, offset),
                }
            }
        } else {
            Err(unmapped("read"@, address))
        }
    }

    /// A bus with only the PL011 console attached.
    pub fn new() -> (r: Self)
        ensures
            r.wf(),
            r.console_view() == Seq::<u8>::empty(),
            r.transport() is None,
            r.disk() is None,
    {
        Bus { console: Vec::new(), block_transport: None, block: None }
    }

    /// A bus with a virtio-block device over `block` at the virtio window.
    pub fn with_block(block: BlockDevice) -> (r: Self)
        ensures
            r.wf(),
            r.console_view() == Seq::<u8>::empty(),
            r.transport() == Some(Transport::new_spec(2, 1u64 << 32u64, 256)),
            r.disk() == Some(block),
    {
        let t = Transport::new(2, 1u64 << 32, 256);
        Bus { console: Vec::new(), block_transport: Some(t), block: Some(block) }
    }

    /// Whether `address` lies in an attached MMIO window.
    pub fn handles(&self, address: u64) -> (r: bool)
        ensures
            r == (in_pl011(address) || (self.transport() is Some && in_virtio(address))),
    {
        (PL011_BASE <= address && address < PL011_BASE + PL011_SIZE) || (
        self.block_transport.is_some() && VIRTIO_BLOCK_BASE <= address && address
            < VIRTIO_BLOCK_BASE + VIRTIO_MMIO_SIZE)
    }

    pub fn read32(&self, address: u64) -> (r: Result<u32, RelayError>)
        ensures
            only_failed(r),
            failure(r) == self.read_spec(address),
    {
        if address & 3 != 0 {
            assert(address & 3 != 0 ==> address % 4 != 0) by (bit_vector);
            return Err(RelayError::Failed(unmapped_message("StaticCpu unmapped MMIO read 0x", address)));
        }
        assert(address & 3 == 0 ==> address % 4 == 0) by (bit_vector);
        if PL011_BASE <= address && address < PL011_BASE + PL011_SIZE {
            return Ok(0);
        }
        if VIRTIO_BLOCK_BASE <= address && address < VIRTIO_BLOCK_BASE + VIRTIO_MMIO_SIZE {
            let offset = address - VIRTIO_BLOCK_BASE;
            if offset == 0x0fc {
                return Ok(0);
            }
            if offset == 0x100 || offset == 0x104 {
                return match &self.block {
                    None => Err(RelayError::Failed(String::from_str("virtio block is not attached"))),
                    Some(d) => {
                        let sectors = d.sectors();
                        Ok(
                            if offset == 0x100 {
                                sectors as u32
                            } else {
                                (sectors >> 32) as u32
                            },
                        )
                    },
                };
            }
            return match &self.block_transport {
                None => Err(RelayError::Failed(String::from_str("virtio block is not attached"))),
                Some(t) => t.read(offset),
            };
        }
        Err(RelayError::Failed(unmapped_message("StaticCpu unmapped MMIO read 0x", address)))
    }

    pub fn write32(&mut self, address: u64, value: u32) -> (r: Result<(), RelayError>)
        requires
            old(self).wf(),
        ensures
            final(self).wf(),
            only_failed(r),
            final(self).disk() == old(self).disk(),
            address % 4 != 0 || !(in_pl011(address) || in_virtio(address)) ==> {
                &&& *final(self) == *old(self)
                &&& failure(r) == Err::<(), Seq<char>>(unmapped("write"@, address))
            },
            address % 4 == 0 && in_pl011(address) ==> r is Ok && final(self).transport() == old(
                self,
            ).transport() && final(self).console_view() == (if address == PL011_BASE + UART_DR {
                old(self).console_view().push(value as u8)
            } else {
                old(self).console_view()
            }),
            address % 4 == 0 && in_virtio(address) ==> final(self).console_view() == old(
                self,
            ).console_view() && match old(self).transport() {
                None => final(self).transport() is None && failure(r) == Err::<(), Seq<char>>(
                    "virtio block is not attached"@,
                ),
                Some(t) => match reg_write(t, (address - VIRTIO_BLOCK_BASE) as u64, value) {
                    Ok(n) => r is Ok && final(self).transport() == Some(n),
                    Err(m) => final(self).transport() == Some(t) && failure(r) == Err::<
                        (),
                        Seq<char>,
                    >(m),
                },
            },
    {
        if address & 3 != 0 {
            assert(address & 3 != 0 ==> address % 4 != 0) by (bit_vector);
            return Err(RelayError::Failed(unmapped_message("StaticCpu unmapped MMIO write 0x", address)));
        }
        assert(address & 3 == 0 ==> address % 4 == 0) by (bit_vector);
        if PL011_BASE <= address && address < PL011_BASE + PL011_SIZE {
            if address - PL011_BASE == UART_DR {
                self.console.push(value as u8);
            }
            return Ok(());
        }
        if VIRTIO_BLOCK_BASE <= address && address < VIRTIO_BLOCK_BASE + VIRTIO_MMIO_SIZE {
            return match self.block_transport {
                None => Err(RelayError::Failed(String::from_str("virtio block is not attached"))),
                Some(t) => {
                    let mut t = t;
                    let r = t.write(address - VIRTIO_BLOCK_BASE, value);
                    proof {
                        crate::vm::virtio_mmio::lemma_write_keeps_wf(
                            self.block_transport->0,
                            (address - VIRTIO_BLOCK_BASE) as u64,
                            value,
                        );
                    }
                    self.block_transport = Some(t);
                    r
                },
            };
        }
        Err(RelayError::Failed(unmapped_message("StaticCpu unmapped MMIO write 0x", address)))
    }

    /// Serve the block queue after a notification; the number of completed requests.
    pub fn service(&mut self, memory: &mut GuestMemory) -> (r: Result<usize, RelayError>)
        requires
            old(self).wf(),
        ensures
            final(self).wf(),
            only_failed(r),
            final(self).console_view() == old(self).console_view(),
            final(memory).size() == old(memory).size(),
            old(self).transport() is None || old(self).disk() is None ==> r == Ok::<usize, RelayError>(
                0,
            ) && *final(self) == *old(self) && final(memory)@ == old(memory)@,
            old(self).transport() is Some && old(self).disk() is Some ==> {
                &&& final(self).transport() is Some
                &&& final(self).disk() is Some
                &&& drain_outcome(
                    old(self).disk()->0,
                    old(self).transport()->0,
                    *old(memory),
                    final(self).disk()->0,
                    final(self).transport()->0,
                    *final(memory),
                    r,
                )
            },
    {
        if self.block_transport.is_none() || self.block.is_none() {
            return Ok(0);
        }
        let mut block: Option<BlockDevice> = None;
        std::mem::swap(&mut block, &mut self.block);
        let mut transport = match self.block_transport {
            Some(t) => t,
            None => {
                assert(false);
                Transport::new(0, 0, 0)
            },
        };
        let mut device = match block {
            Some(d) => d,
            None => {
                assert(false);
                return Ok(0);
            },
        };
        let r = device.process_notified_queue(&mut transport, memory);
        self.block_transport = Some(transport);
        self.block = Some(device);
        r
    }

    pub fn console(&self) -> (r: &[u8])
        ensures
            r@ == self.console_view(),
    {
        self.console.as_slice()
    }
}

fn unmapped_message(prefix: &str, address: u64) -> (r: String)
    requires
        prefix@ == "StaticCpu unmapped MMIO read 0x"@ || prefix@ == "StaticCpu unmapped MMIO write 0x"@,
    ensures
        prefix@ == "StaticCpu unmapped MMIO read 0x"@ ==> r@ == unmapped("read"@, address),
        prefix@ == "StaticCpu unmapped MMIO write 0x"@ ==> r@ == unmapped("write"@, address),
{
    proof {
        reveal_strlit("StaticCpu unmapped MMIO read 0x");
        reveal_strlit("StaticCpu unmapped MMIO write 0x");
        reveal_strlit("StaticCpu unmapped MMIO ");
        reveal_strlit("read");
        reveal_strlit("write");
        reveal_strlit(" 0x");
        assert("StaticCpu unmapped MMIO read 0x"@ =~= "StaticCpu unmapped MMIO "@ + "read"@ + " 0x"@);
        assert("StaticCpu unmapped MMIO write 0x"@ =~= "StaticCpu unmapped MMIO "@ + "write"@ + " 0x"@);
    }
    let mut out = String::from_str(prefix);
    push_hex(&mut out, address);
    out
}

} // verus!
