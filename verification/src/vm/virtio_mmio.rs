//! Virtio 1.0 MMIO transport and split-ring ownership for one queue.
use crate::relay_core::{failure, only_failed, RelayError};
use crate::text::{hex, push_hex};
use crate::vm::guest::{written, GuestMemory};
use vstd::prelude::*;

verus! {

pub const MAGIC: u32 = 0x7472_6976;
pub const VERSION: u32 = 2;
pub const VENDOR_RELAY: u32 = 0x5757;
pub const STATUS_ACKNOWLEDGE: u32 = 1;
pub const STATUS_DRIVER: u32 = 2;
pub const STATUS_DRIVER_OK: u32 = 4;
pub const STATUS_FEATURES_OK: u32 = 8;
pub const STATUS_FAILED: u32 = 128;
pub const INTERRUPT_USED_BUFFER: u32 = 1;

/// The split ring of queue zero, as the driver configured it.
#[derive(Debug, Clone, Copy, PartialEq, Eq, Structural)]
pub struct Queue {
    pub size: u16,
    pub ready: bool,
    pub descriptor_table: u64,
    pub available_ring: u64,
    pub used_ring: u64,
    pub last_available: u16,
}

pub open spec fn empty_queue() -> Queue {
    Queue {
        size: 0,
        ready: false,
        descriptor_table: 0,
        available_ring: 0,
        used_ring: 0,
        last_available: 0,
    }
}

/// Device-side registers of one virtio-mmio device.
#[derive(Debug, Clone, Copy, PartialEq, Eq, Structural)]
pub struct Transport {
    pub device_id: u32,
    pub features: u64,
    pub status: u32,
    pub device_feature_select: u32,
    pub driver_features: u64,
    pub driver_feature_select: u32,
    pub queue_select: u32,
    pub queue_num_max: u16,
    pub queue: Queue,
    pub notified_queue: Option<u32>,
    pub interrupt_status: u32,
}

pub open spec fn unsupported_text(kind: Seq<char>, offset: u64) -> Seq<char> {
    "virtio-mmio "@ + kind + " unsupported 0x"@ + hex(offset as nat)
}

/// What a 32-bit register read at `offset` returns.
pub open spec fn reg_read(t: Transport, offset: u64) -> Result<u32, Seq<char>> {
    if offset == 0x000 {
        Ok(MAGIC)
    } else if offset == 0x004 {
        Ok(VERSION)
    } else if offset == 0x008 {
        Ok(t.device_id)
    } else if offset == 0x00c {
        Ok(VENDOR_RELAY)
    } else if offset == 0x010 {
        if t.device_feature_select == 0 {
            Ok(t.features as u32)
        } else if t.device_feature_select == 1 {
            Ok((t.features >> 32u64) as u32)
        } else {
            Ok(0)
        }
    } else if offset == 0x034 {
        Ok(if t.queue_select == 0 { t.queue_num_max as u32 } else { 0 })
    } else if offset == 0x044 {
        Ok(if t.queue_select == 0 && t.queue.ready { 1 } else { 0 })
    } else if offset == 0x060 {
        Ok(t.interrupt_status)
    } else if offset == 0x070 {
        Ok(t.status)
    } else {
        Err(unsupported_text("read"@, offset))
    }
}

pub open spec fn layout_ok(q: Queue) -> bool {
    q.size != 0 && q.descriptor_table % 16 == 0 && q.available_ring % 2 == 0 && q.used_ring % 4 == 0
}

pub open spec fn is_power_of_two(v: u32) -> bool {
    v != 0 && v & ((v - 1) as u32) == 0
}

/// A write to the status register: reset, or a monotone step of the driver handshake.
pub open spec fn status_write(t: Transport, value: u32) -> Result<Transport, Seq<char>> {
    if value == 0 {
        Ok(
            Transport {
                status: 0,
                driver_features: 0,
                queue: empty_queue(),
                notified_queue: None,
                interrupt_status: 0,
                ..t
            },
        )
    } else if value & !(1u32 | 2 | 4 | 8 | 128) != 0 {
        Err("virtio status contains reserved bits"@)
    } else if value | t.status != value {
        Err("virtio status bits cannot be cleared without reset"@)
    } else if value & STATUS_FEATURES_OK != 0 && t.driver_features & !t.features != 0 {
        Err("virtio driver accepted unsupported features"@)
    } else if value & STATUS_DRIVER_OK != 0 && value & 11 != 11 {
        Err("virtio driver-ready sequence invalid"@)
    } else if value & STATUS_DRIVER_OK != 0 && !layout_ok(t.queue) {
        Err("virtio queue layout invalid"@)
    } else if value & STATUS_DRIVER_OK != 0 && !t.queue.ready {
        Err("virtio driver-ready without queue"@)
    } else {
        Ok(Transport { status: value, ..t })
    }
}

pub open spec fn with_low(target: u64, value: u32) -> u64 {
    (target & 0xffff_ffff_0000_0000) | (value as u64)
}

pub open spec fn with_high(target: u64, value: u32) -> u64 {
    (target & 0x0000_0000_ffff_ffff) | ((value as u64) << 32u64)
}

pub open spec fn with_queue(t: Transport, q: Queue) -> Transport {
    Transport { queue: q, ..t }
}

/// What a 32-bit register write at `offset` does; a refused write changes nothing.
pub open spec fn reg_write(t: Transport, offset: u64, value: u32) -> Result<Transport, Seq<char>> {
    let q = t.queue;
    let ring_register = offset == 0x080 || offset == 0x084 || offset == 0x090 || offset == 0x094
        || offset == 0x0a0 || offset == 0x0a4;
    if offset == 0x014 {
        Ok(Transport { device_feature_select: value, ..t })
    } else if offset == 0x020 {
        if t.driver_feature_select == 0 {
            Ok(Transport { driver_features: with_low(t.driver_features, value), ..t })
        } else if t.driver_feature_select == 1 {
            Ok(Transport { driver_features: with_high(t.driver_features, value), ..t })
        } else {
            Err("virtio feature selector invalid"@)
        }
    } else if offset == 0x024 {
        Ok(Transport { driver_feature_select: value, ..t })
    } else if offset == 0x030 {
        Ok(Transport { queue_select: value, ..t })
    } else if (offset == 0x038 || offset == 0x044 || ring_register) && t.queue_select != 0 {
        Err("virtio queue selector invalid"@)
    } else if offset == 0x038 {
        if value == 0 || value > t.queue_num_max || !is_power_of_two(value) {
            Err("virtio queue size invalid"@)
        } else {
            Ok(with_queue(t, Queue { size: value as u16, ..q }))
        }
    } else if offset == 0x044 {
        if value > 1 {
            Err("virtio queue-ready value invalid"@)
        } else if value == 1 && !layout_ok(q) {
            Err("virtio queue layout invalid"@)
        } else {
            Ok(with_queue(t, Queue { ready: value == 1, ..q }))
        }
    } else if offset == 0x050 {
        if value != 0 || !q.ready || t.status & STATUS_DRIVER_OK == 0 {
            Err("virtio notification for unavailable queue"@)
        } else {
            Ok(Transport { notified_queue: Some(value), ..t })
        }
    } else if offset == 0x064 {
        Ok(Transport { interrupt_status: t.interrupt_status & !value, ..t })
    } else if offset == 0x070 {
        status_write(t, value)
    } else if offset == 0x080 {
        Ok(with_queue(t, Queue { descriptor_table: with_low(q.descriptor_table, value), ..q }))
    } else if offset == 0x084 {
        Ok(with_queue(t, Queue { descriptor_table: with_high(q.descriptor_table, value), ..q }))
    } else if offset == 0x090 {
        Ok(with_queue(t, Queue { available_ring: with_low(q.available_ring, value), ..q }))
    } else if offset == 0x094 {
        Ok(with_queue(t, Queue { available_ring: with_high(q.available_ring, value), ..q }))
    } else if offset == 0x0a0 {
        Ok(with_queue(t, Queue { used_ring: with_low(q.used_ring, value), ..q }))
    } else if offset == 0x0a4 {
        Ok(with_queue(t, Queue { used_ring: with_high(q.used_ring, value), ..q }))
    } else {
        Err(unsupported_text("write"@, offset))
    }
}

/// Little-endian `u16` at `address`.
pub open spec fn le16(memory: Seq<u8>, address: int) -> u16 {
    (memory[address] as u16) | ((memory[address + 1] as u16) << 8u16)
}

pub open spec fn le16_bytes(v: u16) -> Seq<u8> {
    seq![(v & 0xff) as u8, (v >> 8u16) as u8]
}

pub open spec fn le32_bytes(v: u32) -> Seq<u8> {
    seq![(v & 0xff) as u8, ((v >> 8u32) & 0xff) as u8, ((v >> 16u32) & 0xff) as u8, (v >> 24u32) as u8]
}

pub open spec fn operational(t: Transport) -> bool {
    t.queue.ready && t.status & STATUS_DRIVER_OK != 0
}

fn queue_error<T>(message: &str) -> (r: Result<T, RelayError>)
    ensures
        only_failed(r),
        failure(r) == Err::<T, Seq<char>>(message@),
{
    Err(RelayError::Failed(String::from_str(message)))
}

/// Read a little-endian `u16` from guest memory.
pub fn read_u16(memory: &GuestMemory, address: u64) -> (r: Result<u16, RelayError>)
    ensures
        only_failed(r),
        memory.in_range(address, 2) ==> r == Ok::<u16, RelayError>(le16(memory@, address as int)),
        !memory.in_range(address, 2) ==> failure(r) == Err::<u16, Seq<char>>(
            memory.access_error(address, 2),
        ),
{
    let mut raw = [0u8; 2];
    match memory.read(address, &mut raw) {
        Ok(()) => {},
        Err(e) => {
            return Err(e);
        },
    }
    Ok((raw[0] as u16) | ((raw[1] as u16) << 8))
}

fn u16_bytes(v: u16) -> (r: [u8; 2])
    ensures
        r@ == le16_bytes(v),
{
    let r = [(v & 0xff) as u8, (v >> 8) as u8];
    assert(r@ =~= le16_bytes(v));
    r
}

fn u32_bytes(v: u32) -> (r: [u8; 4])
    ensures
        r@ == le32_bytes(v),
{
    let r = [(v & 0xff) as u8, ((v >> 8) & 0xff) as u8, ((v >> 16) & 0xff) as u8, (v >> 24) as u8];
    assert(r@ =~= le32_bytes(v));
    r
}

impl Transport {
    /// The register file of a freshly reset device.
    pub open spec fn new_spec(device_id: u32, features: u64, queue_num_max: u32) -> Transport {
        Transport {
            device_id,
            features,
            status: 0,
            device_feature_select: 0,
            driver_features: 0,
            driver_feature_select: 0,
            queue_select: 0,
            queue_num_max: if queue_num_max > 0xffff { 0xffff } else { queue_num_max as u16 },
            queue: empty_queue(),
            notified_queue: None,
            interrupt_status: 0,
        }
    }

    pub fn new(device_id: u32, features: u64, queue_num_max: u32) -> (r: Self)
        ensures
            r == Transport::new_spec(device_id, features, queue_num_max),
            r == (Transport {
                device_id,
                features,
                status: 0,
                device_feature_select: 0,
                driver_features: 0,
                driver_feature_select: 0,
                queue_select: 0,
                queue_num_max: if queue_num_max > 0xffff { 0xffff } else { queue_num_max as u16 },
                queue: empty_queue(),
                notified_queue: None,
                interrupt_status: 0,
            }),
    {
        Transport {
            device_id,
            features,
            status: 0,
            device_feature_select: 0,
            driver_features: 0,
            driver_feature_select: 0,
            queue_select: 0,
            queue_num_max: if queue_num_max > 0xffff {
                0xffff
            } else {
                queue_num_max as u16
            },
            queue: Queue {
                size: 0,
                ready: false,
                descriptor_table: 0,
                available_ring: 0,
                used_ring: 0,
                last_available: 0,
            },
            notified_queue: None,
            interrupt_status: 0,
        }
    }

    pub fn read(&self, offset: u64) -> (r: Result<u32, RelayError>)
        ensures
            only_failed(r),
            failure(r) == reg_read(*self, offset),
    {
        if offset == 0x000 {
            Ok(MAGIC)
        } else if offset == 0x004 {
            Ok(VERSION)
        } else if offset == 0x008 {
            Ok(self.device_id)
        } else if offset == 0x00c {
            Ok(VENDOR_RELAY)
        } else if offset == 0x010 {
            if self.device_feature_select == 0 {
                Ok(self.features as u32)
            } else if self.device_feature_select == 1 {
                Ok((self.features >> 32) as u32)
            } else {
                Ok(0)
            }
        } else if offset == 0x034 {
            Ok(
                if self.queue_select == 0 {
                    self.queue_num_max as u32
                } else {
                    0
                },
            )
        } else if offset == 0x044 {
            Ok(
                if self.queue_select == 0 && self.queue.ready {
                    1
                } else {
                    0
                },
            )
        } else if offset == 0x060 {
            Ok(self.interrupt_status)
        } else if offset == 0x070 {
            Ok(self.status)
        } else {
            let mut message = String::from_str("virtio-mmio read unsupported 0x");
            push_hex(&mut message, offset);
            proof {
                reveal_strlit("virtio-mmio read unsupported 0x");
                reveal_strlit("virtio-mmio ");
                reveal_strlit("read");
                reveal_strlit(" unsupported 0x");
                assert("virtio-mmio read unsupported 0x"@ =~= "virtio-mmio "@ + "read"@ + " unsupported 0x"@);
            }
            Err(RelayError::Failed(message))
        }
    }

    fn validate_queue_configuration(&self) -> (r: Result<(), RelayError>)
        ensures
            only_failed(r),
            layout_ok(self.queue) ==> r is Ok,
            !layout_ok(self.queue) ==> failure(r) == Err::<(), Seq<char>>("virtio queue layout invalid"@),
    {
        if self.queue.size == 0 || self.queue.descriptor_table % 16 != 0 || self.queue.available_ring
            % 2 != 0 || self.queue.used_ring % 4 != 0 {
            return queue_error("virtio queue layout invalid");
        }
        Ok(())
    }

    fn set_status(&mut self, value: u32) -> (r: Result<(), RelayError>)
        ensures
            only_failed(r),
            match status_write(*old(self), value) {
                Ok(t) => r is Ok && *final(self) == t,
                Err(m) => *final(self) == *old(self) && failure(r) == Err::<(), Seq<char>>(m),
            },
    {
        if value == 0 {
            self.status = 0;
            self.driver_features = 0;
            self.queue = Queue {
                size: 0,
                ready: false,
                descriptor_table: 0,
                available_ring: 0,
                used_ring: 0,
                last_available: 0,
            };
            self.notified_queue = None;
            self.interrupt_status = 0;
            return Ok(());
        }
        if value & !(STATUS_ACKNOWLEDGE | STATUS_DRIVER | STATUS_DRIVER_OK | STATUS_FEATURES_OK
            | STATUS_FAILED) != 0 {
            return queue_error("virtio status contains reserved bits");
        }
        if value | self.status != value {
            return queue_error("virtio status bits cannot be cleared without reset");
        }
        if value & STATUS_FEATURES_OK != 0 && self.driver_features & !self.features != 0 {
            return queue_error("virtio driver accepted unsupported features");
        }
        if value & STATUS_DRIVER_OK != 0 {
            let required = STATUS_ACKNOWLEDGE | STATUS_DRIVER | STATUS_FEATURES_OK;
            assert(required == 11) by (bit_vector)
                requires
                    required == 1u32 | 2u32 | 8u32,
            ;
            if value & required != required {
                return queue_error("virtio driver-ready sequence invalid");
            }
            match self.validate_queue_configuration() {
                Ok(()) => {},
                Err(e) => {
                    return Err(e);
                },
            }
            if !self.queue.ready {
                return queue_error("virtio driver-ready without queue");
            }
        }
        self.status = value;
        Ok(())
    }

    /// A 32-bit register write from the guest.
    pub fn write(&mut self, offset: u64, value: u32) -> (r: Result<(), RelayError>)
        ensures
            only_failed(r),
            match reg_write(*old(self), offset, value) {
                Ok(t) => r is Ok && *final(self) == t,
                Err(m) => *final(self) == *old(self) && failure(r) == Err::<(), Seq<char>>(m),
            },
    {
        let ring_register = offset == 0x080 || offset == 0x084 || offset == 0x090 || offset == 0x094
            || offset == 0x0a0 || offset == 0x0a4;
        if offset == 0x014 {
            self.device_feature_select = value;
        } else if offset == 0x020 {
            if self.driver_feature_select == 0 {
                self.driver_features = (self.driver_features & 0xffff_ffff_0000_0000) | (value as u64);
            } else if self.driver_feature_select == 1 {
                self.driver_features = (self.driver_features & 0x0000_0000_ffff_ffff) | ((value as u64)
                    << 32);
            } else {
                return queue_error("virtio feature selector invalid");
            }
        } else if offset == 0x024 {
            self.driver_feature_select = value;
        } else if offset == 0x030 {
            self.queue_select = value;
        } else if (offset == 0x038 || offset == 0x044 || ring_register) && self.queue_select != 0 {
            return queue_error("virtio queue selector invalid");
        } else if offset == 0x038 {
            if value == 0 || value > self.queue_num_max as u32 || value & (value - 1) != 0 {
                return queue_error("virtio queue size invalid");
            }
            self.queue.size = value as u16;
        } else if offset == 0x044 {
            if value > 1 {
                return queue_error("virtio queue-ready value invalid");
            }
            if value == 1 {
                match self.validate_queue_configuration() {
                    Ok(()) => {},
                    Err(e) => {
                        return Err(e);
                    },
                }
            }
            self.queue.ready = value == 1;
        } else if offset == 0x050 {
            if value != 0 || !self.queue.ready || self.status & STATUS_DRIVER_OK == 0 {
                return queue_error("virtio notification for unavailable queue");
            }
            self.notified_queue = Some(value);
        } else if offset == 0x064 {
            self.interrupt_status = self.interrupt_status & !value;
        } else if offset == 0x070 {
            return self.set_status(value);
        } else if offset == 0x080 {
            self.queue.descriptor_table = (self.queue.descriptor_table & 0xffff_ffff_0000_0000) | (
            value as u64);
        } else if offset == 0x084 {
            self.queue.descriptor_table = (self.queue.descriptor_table & 0x0000_0000_ffff_ffff) | ((
            value as u64) << 32);
        } else if offset == 0x090 {
            self.queue.available_ring = (self.queue.available_ring & 0xffff_ffff_0000_0000) | (
            value as u64);
        } else if offset == 0x094 {
            self.queue.available_ring = (self.queue.available_ring & 0x0000_0000_ffff_ffff) | ((
            value as u64) << 32);
        } else if offset == 0x0a0 {
            self.queue.used_ring = (self.queue.used_ring & 0xffff_ffff_0000_0000) | (value as u64);
        } else if offset == 0x0a4 {
            self.queue.used_ring = (self.queue.used_ring & 0x0000_0000_ffff_ffff) | ((value as u64)
                << 32);
        } else {
            let mut message = String::from_str("virtio-mmio write unsupported 0x");
            push_hex(&mut message, offset);
            proof {
                reveal_strlit("virtio-mmio write unsupported 0x");
                reveal_strlit("virtio-mmio ");
                reveal_strlit("write");
                reveal_strlit(" unsupported 0x");
                assert("virtio-mmio write unsupported 0x"@ =~= "virtio-mmio "@ + "write"@
                    + " unsupported 0x"@);
            }
            return Err(RelayError::Failed(message));
        }
        Ok(())
    }

    /// The pending notification, cleared.
    pub fn take_notification(&mut self) -> (r: Option<u32>)
        ensures
            r == old(self).notified_queue,
            *final(self) == (Transport { notified_queue: None, ..*old(self) }),
    {
        let r = self.notified_queue;
        self.notified_queue = None;
        r
    }

    pub fn descriptor_table(&self) -> (r: u64)
        ensures
            r == self.queue.descriptor_table,
    {
        self.queue.descriptor_table
    }

    pub fn queue_size(&self) -> (r: u16)
        ensures
            r == self.queue.size,
    {
        self.queue.size
    }

    fn require_operational(&self) -> (r: Result<(), RelayError>)
        ensures
            only_failed(r),
            operational(*self) ==> r is Ok,
            !operational(*self) ==> failure(r) == Err::<(), Seq<char>>("virtio queue is not operational"@),
    {
        if !self.queue.ready || self.status & STATUS_DRIVER_OK == 0 {
            return queue_error("virtio queue is not operational");
        }
        Ok(())
    }
}


/// The standing rule of the register file: a ready queue has a size.
pub open spec fn transport_wf(t: Transport) -> bool {
    t.queue.ready ==> t.queue.size != 0
}

/// Every accepted register write keeps the standing rule.
pub proof fn lemma_write_keeps_wf(t: Transport, offset: u64, value: u32)
    requires
        transport_wf(t),
    ensures
        reg_write(t, offset, value) matches Ok(n) ==> transport_wf(n),
{
}

/// Status bits only accumulate: an accepted write either resets the device
/// or keeps every status bit that was set.
pub proof fn lemma_status_is_monotone(t: Transport, offset: u64, value: u32)
    ensures
        reg_write(t, offset, value) matches Ok(n) ==> (n.status == 0 || n.status | t.status
            == n.status),
{
    let s = t.status;
    assert(s | s == s) by (bit_vector);
    assert(value | s == value ==> value | s == value);
}

/// A write of zero to the status register resets the device: status, driver
/// features, the queue, the pending notification and the interrupt status are
/// cleared. Any other write is refused, changing nothing, exactly when it holds
/// a reserved bit, clears a bit already set, accepts features the device does
/// not offer, or sets DRIVER_OK without ACKNOWLEDGE, DRIVER and FEATURES_OK or
/// without a ready queue of valid layout; an accepted write reads back.
pub proof fn lemma_status_write(t: Transport, v: u32)
    ensures
        v == 0 ==> reg_write(t, 0x070, v) == Ok::<Transport, Seq<char>>(
            Transport {
                status: 0,
                driver_features: 0,
                queue: empty_queue(),
                notified_queue: None,
                interrupt_status: 0,
                ..t
            },
        ),
        v != 0 ==> (reg_write(t, 0x070, v) is Err <==> (v & !(1u32 | 2 | 4 | 8 | 128) != 0 || v
            | t.status != v || (v & STATUS_FEATURES_OK != 0 && t.driver_features & !t.features != 0)
            || (v & STATUS_DRIVER_OK != 0 && (v & 11 != 11 || !layout_ok(t.queue)
            || !t.queue.ready)))),
        reg_write(t, 0x070, v) matches Ok(n) ==> reg_read(n, 0x070) == Ok::<u32, Seq<char>>(v),
{
}

/// Reading a 16-bit ring field, or why it cannot be read.
pub open spec fn ring_u16(memory: GuestMemory, address: int) -> Result<u16, Seq<char>> {
    if address > u64::MAX {
        Err("virtio ring address overflow"@)
    } else if !memory.in_range(address as u64, 2) {
        Err(memory.access_error(address as u64, 2))
    } else {
        Ok(le16(memory@, address))
    }
}

/// What `pop_available` does: the transport after it, and its result.
pub open spec fn pop_spec(t: Transport, memory: GuestMemory) -> (Transport, Result<Option<u16>, Seq<char>>) {
    let q = t.queue;
    if !operational(t) {
        (t, Err("virtio queue is not operational"@))
    } else {
        match ring_u16(memory, q.available_ring + 2) {
            Err(e) => (t, Err(e)),
            Ok(index) => if index.wrapping_sub(q.last_available) > q.size {
                (t, Err("virtio available ring advanced beyond queue size"@))
            } else if q.last_available == index {
                (t, Ok(None))
            } else {
                match ring_u16(memory, q.available_ring + 4 + (q.last_available % q.size) * 2) {
                    Err(e) => (t, Err(e)),
                    Ok(head) => if head >= q.size {
                        (t, Err("virtio available head is outside descriptor table"@))
                    } else {
                        (
                            with_queue(t, Queue { last_available: q.last_available.wrapping_add(1), ..q }),
                            Ok(Some(head)),
                        )
                    },
                }
            },
        }
    }
}

/// Guest memory after a three-step write chain, stopping at the first refused step.
pub open spec fn write_chain(memory: GuestMemory, steps: Seq<(int, Seq<u8>)>) -> (Seq<u8>, Option<Seq<char>>)
    decreases steps.len(),
{
    if steps.len() == 0 {
        (memory@, None)
    } else {
        let (before, failed) = write_chain(memory, steps.drop_last());
        let (address, data) = steps.last();
        if failed is Some {
            (before, failed)
        } else if address > u64::MAX {
            (before, Some("virtio ring address overflow"@))
        } else if !memory.in_range(address as u64, data.len()) {
            (before, Some(memory.access_error(address as u64, data.len())))
        } else {
            (written(before, address, data), None)
        }
    }
}

/// What `complete` does: the transport and guest RAM after publishing `head`
/// with `bytes_written` on the used ring, and why it stopped, if it did.
pub open spec fn used_spec(t: Transport, memory: GuestMemory, head: u16, bytes_written: u32) -> (
    Transport,
    Seq<u8>,
    Option<Seq<char>>,
) {
    let q = t.queue;
    if !operational(t) {
        (t, memory@, Some("virtio queue is not operational"@))
    } else if head >= q.size {
        (t, memory@, Some("virtio used head is outside descriptor table"@))
    } else {
        match ring_u16(memory, q.used_ring + 2) {
            Err(e) => (t, memory@, Some(e)),
            Ok(used) => {
                let element = q.used_ring + 4 + (used % q.size) * 8;
                let (after, failed) = write_chain(
                    memory,
                    seq![
                        (element, le32_bytes(head as u32)),
                        (element + 4, le32_bytes(bytes_written)),
                        (q.used_ring + 2, le16_bytes(used.wrapping_add(1))),
                    ],
                );
                match failed {
                    Some(e) => (t, after, Some(e)),
                    None => (
                        Transport { interrupt_status: t.interrupt_status | INTERRUPT_USED_BUFFER, ..t },
                        after,
                        None,
                    ),
                }
            },
        }
    }
}

impl Transport {
    /// Take the next available descriptor head, if the driver published one.
    pub fn pop_available(&mut self, memory: &GuestMemory) -> (r: Result<Option<u16>, RelayError>)
        requires
            transport_wf(*old(self)),
        ensures
            transport_wf(*final(self)),
            only_failed(r),
            (*final(self), failure(r)) == pop_spec(*old(self), *memory),
    {
        match self.require_operational() {
            Ok(()) => {},
            Err(e) => {
                return Err(e);
            },
        }
        let index_address = match self.queue.available_ring.checked_add(2) {
            Some(a) => a,
            None => {
                return queue_error("virtio ring address overflow");
            },
        };
        let available_index = match read_u16(memory, index_address) {
            Ok(v) => v,
            Err(e) => {
                return Err(e);
            },
        };
        if available_index.wrapping_sub(self.queue.last_available) > self.queue.size {
            return queue_error("virtio available ring advanced beyond queue size");
        }
        if self.queue.last_available == available_index {
            return Ok(None);
        }
        let slot = self.queue.last_available % self.queue.size;
        let head_address = match self.queue.available_ring.checked_add(4 + (slot as u64) * 2) {
            Some(a) => a,
            None => {
                return queue_error("virtio ring address overflow");
            },
        };
        let head = match read_u16(memory, head_address) {
            Ok(v) => v,
            Err(e) => {
                return Err(e);
            },
        };
        if head >= self.queue.size {
            return queue_error("virtio available head is outside descriptor table");
        }
        self.queue.last_available = self.queue.last_available.wrapping_add(1);
        Ok(Some(head))
    }

    /// Publish `head` as used with `bytes_written` and raise the used-buffer interrupt.
    pub fn complete(&mut self, memory: &mut GuestMemory, head: u16, bytes_written: u32) -> (r: Result<
        (),
        RelayError,
    >)
        requires
            transport_wf(*old(self)),
        ensures
            transport_wf(*final(self)),
            only_failed(r),
            final(memory).size() == old(memory).size(),
            final(memory).page() == old(memory).page(),
            final(memory).geometry() == old(memory).geometry(),
            (*final(self), final(memory)@) == (
                used_spec(*old(self), *old(memory), head, bytes_written).0,
                used_spec(*old(self), *old(memory), head, bytes_written).1,
            ),
            match used_spec(*old(self), *old(memory), head, bytes_written).2 {
                Some(e) => failure(r) == Err::<(), Seq<char>>(e),
                None => r is Ok,
            },
    {
        match self.require_operational() {
            Ok(()) => {},
            Err(e) => {
                return Err(e);
            },
        }
        if head >= self.queue.size {
            return queue_error("virtio used head is outside descriptor table");
        }
        let ghost m0 = *memory;
        proof {
            reveal_with_fuel(write_chain, 4);
        }
        let index_address = match self.queue.used_ring.checked_add(2) {
            Some(a) => a,
            None => {
                return queue_error("virtio ring address overflow");
            },
        };
        let used_index = match read_u16(memory, index_address) {
            Ok(v) => v,
            Err(e) => {
                return Err(e);
            },
        };
        let slot = used_index % self.queue.size;
        let ghost steps = seq![
            (self.queue.used_ring + 4 + (slot as int) * 8, le32_bytes(head as u32)),
            (self.queue.used_ring + 4 + (slot as int) * 8 + 4, le32_bytes(bytes_written)),
            (self.queue.used_ring + 2, le16_bytes(used_index.wrapping_add(1))),
        ];
        assert(steps.drop_last().drop_last().drop_last() =~= Seq::<(int, Seq<u8>)>::empty());
        assert(steps.drop_last().drop_last() =~= seq![steps[0]]);
        assert(steps.drop_last() =~= seq![steps[0], steps[1]]);
        let element = match self.queue.used_ring.checked_add(4 + (slot as u64) * 8) {
            Some(a) => a,
            None => {
                return queue_error("virtio ring address overflow");
            },
        };
        match memory.write(element, &u32_bytes(head as u32)) {
            Ok(()) => {},
            Err(e) => {
                return Err(e);
            },
        }
        let second = match element.checked_add(4) {
            Some(a) => a,
            None => {
                return queue_error("virtio ring address overflow");
            },
        };
        match memory.write(second, &u32_bytes(bytes_written)) {
            Ok(()) => {},
            Err(e) => {
                return Err(e);
            },
        }
        match memory.write(index_address, &u16_bytes(used_index.wrapping_add(1))) {
            Ok(()) => {},
            Err(e) => {
                return Err(e);
            },
        }
        self.interrupt_status = self.interrupt_status | INTERRUPT_USED_BUFFER;
        Ok(())
    }
}

} // verus!
