//! Guest physical memory and guest artifact checks. Accepting a manifest is
//! kept apart from booting it: staged artifacts are never mistaken for a boot.
use crate::relay_core::{
    error_text, failure, hex_digit_value, hex_value, is_hex_digit, manifest_check, only_failed,
    GuestArtifact, GuestManifest, GuestPageSize, HostPageSize, RelayError,
};
use crate::text::{decimal, hex, push_decimal, push_hex};
use crate::vm::dtb::{build, build_result};
use crate::vm::page_translate::{arena_bytes, PageTranslate};
use sha2::{Digest, Sha256};
use vstd::prelude::*;

verus! {

/// Guest artifacts staged for a Linux boot: guest RAM, the verified kernel
/// and initrd, and the rootfs, whose bytes stay out of guest RAM.
pub struct LoadedGuest {
    pub page_size: GuestPageSize,
    pub memory: GuestMemory,
    pub kernel: Vec<u8>,
    pub initrd: Option<Vec<u8>>,
    pub rootfs: Vec<u8>,
    pub rootfs_path: String,
}

/// AArch64 Linux entry registers and physical placements. This state does not
/// execute the kernel.
#[derive(Debug, Clone, PartialEq, Eq)]
pub struct LinuxBootState {
    pub entry_pc: u64,
    pub dtb_address: u64,
    pub initrd_address: Option<u64>,
    pub command_line: String,
    pub dtb_bytes: usize,
}

pub const DTB_ADDRESS: u64 = 0x40000;

pub const KERNEL_ADDRESS: u64 = 0x80000;

/// Bounded guest physical memory backed by one host arena.
#[derive(Debug)]
pub struct GuestMemory {
    page_size: GuestPageSize,
    translate: PageTranslate,
    /// Guest RAM bytes; the arena may be larger when rounded to host pages.
    guest_bytes: usize,
    bytes: Vec<u8>,
}

/// Guest RAM as a value: arena bytes and the guest RAM size.
pub struct Ram {
    pub bytes: Seq<u8>,
    pub size: nat,
}

/// Whether `[address, address + len)` lies in guest RAM and the arena.
pub open spec fn fits(r: Ram, address: u64, len: nat) -> bool {
    address + len <= r.size && address + len <= r.bytes.len()
}

/// What an access of `len` bytes at `address` reports when it is refused.
pub open spec fn refusal(r: Ram, address: u64, len: nat) -> Seq<char> {
    if address > usize::MAX {
        "guest address does not fit this host"@
    } else {
        range_error(address, len, r.size)
    }
}

/// The message of an access outside guest RAM.
pub open spec fn range_error(address: u64, len: nat, memory: nat) -> Seq<char> {
    "guest physical memory access out of range address=0x"@ + hex(address as nat) + " len="@
        + decimal(len) + " memory=0x"@ + hex(memory)
}

impl GuestMemory {
    /// Guest RAM lies within the arena.
    #[verifier::type_invariant]
    closed spec fn arena_covers_ram(&self) -> bool {
        self.guest_bytes <= self.bytes@.len()
    }

    /// The arena contents.
    pub closed spec fn view(&self) -> Seq<u8> {
        self.bytes@
    }

    /// Guest RAM size in bytes.
    pub closed spec fn size(&self) -> nat {
        self.guest_bytes as nat
    }

    pub closed spec fn geometry(&self) -> PageTranslate {
        self.translate
    }

    pub closed spec fn page(&self) -> GuestPageSize {
        self.page_size
    }

    /// The arena contents with the guest RAM size.
    pub open spec fn ram(&self) -> Ram {
        Ram { bytes: self@, size: self.size() }
    }

    /// Whether `[address, address + len)` lies in guest RAM and the arena.
    pub open spec fn in_range(&self, address: u64, len: nat) -> bool {
        fits(self.ram(), address, len)
    }

    /// What an access of `len` bytes at `address` reports when it is refused.
    pub open spec fn access_error(&self, address: u64, len: nat) -> Seq<char> {
        refusal(self.ram(), address, len)
    }

    /// Guest RAM of `bytes` bytes for a host whose page size the caller observed.
    pub fn allocate(page_size: GuestPageSize, host_page_bytes: u32, bytes: u64) -> (r: Result<Self, RelayError>)
        requires
            page_size.0 > 0,
        ensures
            only_failed(r),
            r is Ok <==> allocation_fits(
                PageTranslate { guest: page_size, host: HostPageSize::detect_spec(host_page_bytes) },
                bytes,
            ),
            r is Err ==> failure(r) == allocation_failure(
                PageTranslate { guest: page_size, host: HostPageSize::detect_spec(host_page_bytes) },
                bytes,
            ),
            r matches Ok(m) ==> m@.len() == arena_bytes(
                PageTranslate { guest: page_size, host: HostPageSize::detect_spec(host_page_bytes) },
                bytes,
            )->Ok_0,
            r matches Ok(m) ==> m.size() == bytes && m@.len() >= bytes && m.page() == page_size
                && forall|i: int| 0 <= i < m@.len() ==> m@[i] == 0,
    {
        GuestMemory::allocate_on_host(page_size, HostPageSize::detect(host_page_bytes), bytes)
    }

    /// Allocate guest RAM mapped onto an explicit host page size.
    pub fn allocate_on_host(page_size: GuestPageSize, host: HostPageSize, bytes: u64) -> (r: Result<
        Self,
        RelayError,
    >)
        requires
            page_size.0 > 0,
            host.0 > 0,
        ensures
            only_failed(r),
            r is Ok <==> allocation_fits(PageTranslate { guest: page_size, host }, bytes),
            !allocation_fits(PageTranslate { guest: page_size, host }, bytes) ==> failure(r)
                == allocation_failure(PageTranslate { guest: page_size, host }, bytes),
            r matches Ok(m) ==> {
                &&& m.size() == bytes
                &&& m@.len() == arena_bytes(PageTranslate { guest: page_size, host }, bytes)->Ok_0
                &&& m.page() == page_size
                &&& m.geometry() == (PageTranslate { guest: page_size, host })
                &&& (host.0 == 4096 || host.0 == 16384) ==> m@.len() >= bytes
                &&& forall|i: int| 0 <= i < m@.len() ==> m@[i] == 0
            },
    {
        let translate = match PageTranslate::new(page_size, host) {
            Ok(t) => t,
            Err(e) => {
                return Err(e);
            },
        };
        let arena = match translate.host_arena_bytes(bytes) {
            Ok(a) => a,
            Err(e) => {
                return Err(e);
            },
        };
        if bytes > usize::MAX as u64 {
            return Err(RelayError::Failed(String::from_str("guest memory does not fit this host")));
        }
        if arena > usize::MAX as u64 {
            return Err(
                RelayError::Failed(String::from_str("host arena does not fit this process")),
            );
        }
        let arena_len = arena as usize;
        let mut data: Vec<u8> = Vec::new();
        let mut i: usize = 0;
        while i < arena_len
            invariant
                i <= arena_len,
                data@.len() == i,
                forall|k: int| 0 <= k < i ==> data@[k] == 0,
            decreases arena_len - i,
        {
            data.push(0);
            i = i + 1;
        }
        proof {
            let x = (bytes + host.0 - 1) as u64;
            let m = (host.0 - 1) as u64;
            assert((x & !m) + (x & m) == x && (x & m) <= m) by (bit_vector);
        }
        Ok(GuestMemory { page_size, translate, guest_bytes: bytes as usize, bytes: data })
    }

    pub fn len(&self) -> (r: usize)
        ensures
            r == self.size(),
            self.size() <= self@.len(),
    {
        proof {
            use_type_invariant(self);
        }
        self.guest_bytes
    }

    pub fn host_arena_len(&self) -> (r: usize)
        ensures
            r == self@.len(),
    {
        self.bytes.len()
    }

    pub fn page_size(&self) -> (r: GuestPageSize)
        ensures
            r == self.page(),
    {
        self.page_size
    }

    pub fn translate(&self) -> (r: PageTranslate)
        ensures
            r == self.geometry(),
    {
        self.translate
    }

    fn range(&self, address: u64, len: usize) -> (r: Result<usize, RelayError>)
        ensures
            only_failed(r),
            match r {
                Ok(start) => start == address && self.in_range(address, len as nat),
                Err(e) => !self.in_range(address, len as nat) && error_text_of(e) == self.access_error(
                    address,
                    len as nat,
                ),
            },
    {
        if address > usize::MAX as u64 {
            return Err(RelayError::Failed(String::from_str("guest address does not fit this host")));
        }
        let start = address as usize;
        if start > usize::MAX - len || start + len > self.guest_bytes || start + len > self.bytes.len() {
            let mut message = String::from_str("guest physical memory access out of range address=0x");
            push_hex(&mut message, address);
            message.append(" len=");
            push_decimal(&mut message, len as u64);
            message.append(" memory=0x");
            push_hex(&mut message, self.guest_bytes as u64);
            return Err(RelayError::Failed(message));
        }
        Ok(start)
    }

    /// Copy `out.len()` bytes of guest RAM at `address` into `out`.
    pub fn read(&self, address: u64, out: &mut [u8]) -> (r: Result<(), RelayError>)
        ensures
            only_failed(r),
            r is Ok <==> self.in_range(address, old(out)@.len()),
            r is Ok <==> address + old(out)@.len() <= self.size(),
            self.size() <= self@.len(),
            r is Ok ==> final(out)@ == self@.subrange(
                address as int,
                address + old(out)@.len(),
            ),
            r is Err ==> final(out)@ == old(out)@ && failure(r) == Err::<(), Seq<char>>(
                self.access_error(address, old(out)@.len()),
            ),
    {
        proof {
            use_type_invariant(self);
        }
        let len = out.len();
        let start = match self.range(address, len) {
            Ok(s) => s,
            Err(e) => {
                return Err(e);
            },
        };
        let mut i: usize = 0;
        while i < len
            invariant
                i <= len,
                len == out@.len(),
                start + len <= self.bytes@.len(),
                start + len <= usize::MAX,
                forall|k: int| 0 <= k < i ==> out@[k] == self.bytes@[start + k],
            decreases len - i,
        {
            out[i] = self.bytes[start + i];
            i = i + 1;
        }
        assert(out@ =~= self@.subrange(address as int, address + len));
        Ok(())
    }

    /// Copy `input` into guest RAM at `address`.
    pub fn write(&mut self, address: u64, input: &[u8]) -> (r: Result<(), RelayError>)
        ensures
            only_failed(r),
            r is Ok <==> old(self).in_range(address, input@.len()),
            r is Ok <==> address + input@.len() <= old(self).size(),
            r is Ok ==> final(self)@ == written(old(self)@, address as int, input@),
            r is Err ==> final(self)@ == old(self)@ && failure(r) == Err::<(), Seq<char>>(
                old(self).access_error(address, input@.len()),
            ),
            final(self).size() == old(self).size(),
            final(self).page() == old(self).page(),
            final(self).geometry() == old(self).geometry(),
    {
        proof {
            use_type_invariant(&*self);
        }
        let len = input.len();
        let start = match self.range(address, len) {
            Ok(s) => s,
            Err(e) => {
                return Err(e);
            },
        };
        let ghost before = self.bytes@;
        let mut i: usize = 0;
        while i < len
            invariant
                i <= len,
                len == input@.len(),
                start + len <= before.len(),
                start + len <= usize::MAX,
                self.page_size == old(self).page_size,
                self.translate == old(self).translate,
                self.guest_bytes == old(self).guest_bytes,
                self.guest_bytes <= before.len(),
                self.bytes@.len() == before.len(),
                forall|k: int|
                    0 <= k < self.bytes@.len() ==> #[trigger] self.bytes@[k] == if start <= k < start + i {
                        input@[k - start]
                    } else {
                        before[k]
                    },
            decreases len - i,
        {
            self.bytes[start + i] = input[i];
            i = i + 1;
        }
        assert(self.bytes@ =~= written(before, start as int, input@));
        Ok(())
    }
}

/// `memory` with `data` written at `address`.
pub open spec fn written(memory: Seq<u8>, address: int, data: Seq<u8>) -> Seq<u8> {
    Seq::new(
        memory.len(),
        |k: int|
            if address <= k < address + data.len() {
                data[k - address]
            } else {
                memory[k]
            },
    )
}

pub open spec fn error_text_of(e: RelayError) -> Seq<char> {
    crate::relay_core::error_text(e)
}

impl HostPageSize {
    pub open spec fn detect_spec(host_page_bytes: u32) -> HostPageSize {
        HostPageSize(if host_page_bytes == 16384 { 16384u32 } else { 4096u32 })
    }
}

/// Whether guest RAM of `bytes` bytes can be allocated on this geometry.
pub open spec fn allocation_fits(t: PageTranslate, bytes: u64) -> bool {
    arena_bytes(t, bytes) is Ok && bytes <= usize::MAX && arena_bytes(t, bytes)->Ok_0 <= usize::MAX
}

pub open spec fn allocation_failure(t: PageTranslate, bytes: u64) -> Result<GuestMemory, Seq<char>> {
    if arena_bytes(t, bytes) is Err {
        Err(arena_bytes(t, bytes)->Err_0)
    } else if bytes > usize::MAX {
        Err("guest memory does not fit this host"@)
    } else {
        Err("host arena does not fit this process"@)
    }
}

/// A read of what was just written gives the written bytes back, and bytes
/// outside the written range keep their values.
pub proof fn lemma_read_after_write(memory: Seq<u8>, address: int, data: Seq<u8>)
    requires
        0 <= address,
        address + data.len() <= memory.len(),
    ensures
        written(memory, address, data).subrange(address, address + data.len()) == data,
        written(memory, address, data).len() == memory.len(),
        forall|k: int|
            0 <= k < memory.len() && !(address <= k < address + data.len()) ==> #[trigger] written(
                memory,
                address,
                data,
            )[k] == memory[k],
{
    assert(written(memory, address, data).subrange(address, address + data.len()) =~= data);
}

/// Guest RAM after the writes `writes`, in order, each at its address.
pub open spec fn after_writes(memory: Seq<u8>, writes: Seq<(int, Seq<u8>)>) -> Seq<u8>
    decreases writes.len(),
{
    if writes.len() == 0 {
        memory
    } else {
        written(after_writes(memory, writes.drop_last()), writes.last().0, writes.last().1)
    }
}

/// Whether `[a, a + n)` and `[b, b + m)` share no byte.
pub open spec fn disjoint(a: int, n: int, b: int, m: int) -> bool {
    a + n <= b || b + m <= a
}

/// Bytes written at `address` read back unchanged after any later writes
/// that do not overlap them.
pub proof fn lemma_read_after_later_writes(
    memory: Seq<u8>,
    address: int,
    data: Seq<u8>,
    writes: Seq<(int, Seq<u8>)>,
)
    requires
        0 <= address,
        address + data.len() <= memory.len(),
        forall|i: int|
            0 <= i < writes.len() ==> disjoint(
                address,
                data.len() as int,
                #[trigger] writes[i].0,
                writes[i].1.len() as int,
            ),
    ensures
        after_writes(written(memory, address, data), writes).subrange(
            address,
            address + data.len(),
        ) == data,
        after_writes(written(memory, address, data), writes).len() == memory.len(),
    decreases writes.len(),
{
    lemma_read_after_write(memory, address, data);
    if writes.len() > 0 {
        let rest = writes.drop_last();
        assert forall|i: int| 0 <= i < rest.len() implies disjoint(
            address,
            data.len() as int,
            #[trigger] rest[i].0,
            rest[i].1.len() as int,
        ) by {
            assert(rest[i] == writes[i]);
        }
        lemma_read_after_later_writes(memory, address, data, rest);
        let before = after_writes(written(memory, address, data), rest);
        let (b, e) = writes.last();
        assert(disjoint(address, data.len() as int, writes[writes.len() - 1].0, writes[writes.len() - 1].1.len() as int));
        assert(written(before, b, e).subrange(address, address + data.len()) =~= before.subrange(
            address,
            address + data.len(),
        ));
    }
}


/// The SHA-256 digest of `data`.
pub uninterp spec fn sha256(data: Seq<u8>) -> Seq<u8>;

/// `Sha256::digest` of sha2: the 32-byte SHA-256 digest of `data`, which
/// depends on `data` alone.
#[verifier::external_body]
pub(crate) fn sha256_digest(data: &[u8]) -> (r: Vec<u8>)
    ensures
        r@ == sha256(data@),
        r@.len() == 32,
{
    Sha256::digest(data).to_vec()
}

#[verifier::external_type_specification]
#[verifier::external_body]
pub struct ExSha256(Sha256);

/// The bytes a sha2 `Sha256` hasher has been fed since it was created.
pub uninterp spec fn hasher_input(h: Sha256) -> Seq<u8>;

/// `Sha256::new` of sha2: a hasher that has been fed nothing.
#[verifier::external_body]
fn hasher_new() -> (r: Sha256)
    ensures
        hasher_input(r) == Seq::<u8>::empty(),
{
    Sha256::new()
}

/// `Digest::update` of sha2: feeds `chunk` after what the hasher was fed.
#[verifier::external_body]
fn hasher_update(h: &mut Sha256, chunk: &[u8])
    ensures
        hasher_input(*final(h)) == hasher_input(*old(h)) + chunk@,
{
    h.update(chunk)
}

/// `Digest::finalize` of sha2: the SHA-256 digest of everything fed.
#[verifier::external_body]
fn hasher_finalize(h: Sha256) -> (r: Vec<u8>)
    ensures
        r@ == sha256(hasher_input(h)),
        r@.len() == 32,
{
    h.finalize().to_vec()
}

/// A file measured chunk by chunk as it is read: the bytes seen so far, their
/// count and their running SHA-256.
pub struct Sha256Stream {
    hasher: Sha256,
    count: u64,
    seen: Ghost<Seq<u8>>,
}

impl Sha256Stream {
    /// The bytes fed so far.
    pub closed spec fn consumed(&self) -> Seq<u8> {
        self.seen@
    }

    pub closed spec fn wf(&self) -> bool {
        &&& hasher_input(self.hasher) == self.seen@
        &&& self.count as nat == self.seen@.len()
    }

    pub fn new() -> (r: Self)
        ensures
            r.wf(),
            r.consumed() == Seq::<u8>::empty(),
    {
        Sha256Stream { hasher: hasher_new(), count: 0, seen: Ghost(Seq::empty()) }
    }

    /// Feed the next chunk of the file.
    pub fn update(&mut self, chunk: &[u8])
        requires
            old(self).wf(),
            old(self).consumed().len() + chunk@.len() <= u64::MAX,
        ensures
            final(self).wf(),
            final(self).consumed() == old(self).consumed() + chunk@,
    {
        hasher_update(&mut self.hasher, chunk);
        self.count = self.count + chunk.len() as u64;
        self.seen = Ghost(self.seen@ + chunk@);
    }

    /// The length and digest of everything fed.
    pub fn finish(self) -> (r: ArtifactDigest)
        requires
            self.wf(),
        ensures
            r.bytes == self.consumed().len(),
            r.sha256@ == sha256(self.consumed()),
    {
        ArtifactDigest { bytes: self.count, sha256: hasher_finalize(self.hasher) }
    }
}

/// What a file was measured to hold: its length and its SHA-256 digest.
pub struct ArtifactDigest {
    pub bytes: u64,
    pub sha256: Vec<u8>,
}

/// Whether `text` spells the digest `d` in hexadecimal, in either case.
pub open spec fn digest_matches(d: Seq<u8>, text: Seq<char>) -> bool {
    &&& text.len() == 2 * d.len()
    &&& forall|k: int|
        0 <= k < d.len() ==> {
            &&& is_hex_digit(#[trigger] text[2 * k])
            &&& is_hex_digit(text[2 * k + 1])
            &&& hex_value(text[2 * k]) * 16 + hex_value(text[2 * k + 1]) == d[k]
        }
}

/// What checking a measured artifact against its manifest entry answers.
pub open spec fn artifact_verdict(name: Seq<char>, a: GuestArtifact, size: u64, digest: Seq<u8>) -> Result<
    (),
    Seq<char>,
> {
    if size != a.bytes {
        Err("guest "@ + name + " size differs from manifest"@)
    } else if !digest_matches(digest, a.sha256@) {
        Err("guest "@ + name + " sha256 differs from manifest"@)
    } else {
        Ok(())
    }
}

/// The verdict on artifact bytes that were read, or the read's failure.
pub open spec fn read_verdict(name: Seq<char>, a: GuestArtifact, read: Result<Vec<u8>, RelayError>) -> Result<
    (),
    Seq<char>,
> {
    match read {
        Ok(bytes) => artifact_verdict(name, a, bytes@.len() as u64, sha256(bytes@)),
        Err(e) => Err(error_text(e)),
    }
}

/// The verdict on a measured artifact, or the measurement's failure.
pub open spec fn measure_verdict(
    name: Seq<char>,
    a: GuestArtifact,
    measured: Result<ArtifactDigest, RelayError>,
) -> Result<(), Seq<char>> {
    match measured {
        Ok(m) => artifact_verdict(name, a, m.bytes, m.sha256@),
        Err(e) => Err(error_text(e)),
    }
}

pub(crate) fn digest_matches_text(d: &[u8], text: &str) -> (r: bool)
    ensures
        r == digest_matches(d@, text@),
{
    let n = d.len();
    let text_len = text.unicode_len();
    if n > usize::MAX / 2 || text_len != 2 * n {
        return false;
    }
    let mut k: usize = 0;
    while k < n
        invariant
            k <= n,
            n == d@.len(),
            2 * n <= usize::MAX,
            text@.len() == 2 * n,
            forall|j: int|
                0 <= j < k ==> {
                    &&& is_hex_digit(#[trigger] text@[2 * j])
                    &&& is_hex_digit(text@[2 * j + 1])
                    &&& hex_value(text@[2 * j]) * 16 + hex_value(text@[2 * j + 1]) == d@[j]
                },
        decreases n - k,
    {
        let high = match hex_digit_value(text.get_char(2 * k)) {
            Some(v) => v,
            None => {
                return false;
            },
        };
        let low = match hex_digit_value(text.get_char(2 * k + 1)) {
            Some(v) => v,
            None => {
                return false;
            },
        };
        if (high as u16) * 16 + (low as u16) != d[k] as u16 {
            return false;
        }
        k = k + 1;
    }
    assert(digest_matches(d@, text@));
    true
}

fn guest_text(name: &str, tail: &str) -> (r: String)
    ensures
        r@ == "guest "@ + name@ + tail@,
{
    let mut out = String::from_str("guest ");
    out.append(name);
    out.append(tail);
    out
}

/// Check a measured artifact: its length first, then its digest.
pub fn check_artifact(name: &str, artifact: &GuestArtifact, size: u64, digest: &[u8]) -> (r: Result<
    (),
    RelayError,
>)
    ensures
        only_failed(r),
        failure(r) == artifact_verdict(name@, *artifact, size, digest@),
{
    if size != artifact.bytes {
        return Err(RelayError::Failed(guest_text(name, " size differs from manifest")));
    }
    if !digest_matches_text(digest, artifact.sha256.as_str()) {
        return Err(RelayError::Failed(guest_text(name, " sha256 differs from manifest")));
    }
    Ok(())
}

/// Check artifact bytes in memory against their manifest entry.
pub fn verify_bytes(name: &str, artifact: &GuestArtifact, bytes: &[u8]) -> (r: Result<
    (),
    RelayError,
>)
    ensures
        only_failed(r),
        failure(r) == artifact_verdict(name@, *artifact, bytes@.len() as u64, sha256(bytes@)),
{
    if bytes.len() as u64 != artifact.bytes {
        return Err(RelayError::Failed(guest_text(name, " size differs from manifest")));
    }
    let digest = sha256_digest(bytes);
    check_artifact(name, artifact, bytes.len() as u64, digest.as_slice())
}

/// Check an artifact that was measured on disk; a failed measurement stands.
pub fn verify_artifact(
    name: &str,
    artifact: &GuestArtifact,
    measured: Result<ArtifactDigest, RelayError>,
) -> (r: Result<(), RelayError>)
    ensures
        failure(r) == measure_verdict(name@, *artifact, measured),
        measured is Ok ==> only_failed(r),
{
    match measured {
        Ok(m) => check_artifact(name, artifact, m.bytes, m.sha256.as_slice()),
        Err(e) => Err(e),
    }
}

fn verify_read(name: &str, artifact: &GuestArtifact, read: Result<Vec<u8>, RelayError>) -> (r: Result<
    Vec<u8>,
    RelayError,
>)
    ensures
        r is Ok <==> read_verdict(name@, *artifact, read) is Ok,
        r is Err ==> read_verdict(name@, *artifact, read) == Err::<(), Seq<char>>(
            error_text(r->Err_0),
        ),
        read is Ok ==> only_failed(r),
        r matches Ok(v) ==> read matches Ok(b) && v@ == b@,
{
    match read {
        Ok(bytes) => match verify_bytes(name, artifact, bytes.as_slice()) {
            Ok(()) => Ok(bytes),
            Err(e) => Err(e),
        },
        Err(e) => Err(e),
    }
}

/// What `validate_artifacts` answers: the manifest's own checks, then the
/// kernel, rootfs and initrd measurements, in that order.
pub open spec fn artifacts_verdict(
    m: GuestManifest,
    kernel: Result<ArtifactDigest, RelayError>,
    rootfs: Result<ArtifactDigest, RelayError>,
    initrd: Option<Result<ArtifactDigest, RelayError>>,
) -> Result<GuestPageSize, Seq<char>> {
    if manifest_check(m) is Err {
        Err(manifest_check(m)->Err_0)
    } else if measure_verdict("kernel"@, m.kernel, kernel) is Err {
        Err(measure_verdict("kernel"@, m.kernel, kernel)->Err_0)
    } else if measure_verdict("rootfs"@, m.rootfs, rootfs) is Err {
        Err(measure_verdict("rootfs"@, m.rootfs, rootfs)->Err_0)
    } else if m.initrd is Some && measure_verdict("initrd"@, m.initrd->0, initrd->0) is Err {
        Err(measure_verdict("initrd"@, m.initrd->0, initrd->0)->Err_0)
    } else {
        manifest_check(m)
    }
}

/// Check the bundle's files, as measured on disk, without allocating guest RAM
/// or loading the rootfs. `initrd` is the initrd's measurement exactly when
/// the manifest names one.
pub fn validate_artifacts(
    manifest: &GuestManifest,
    kernel: Result<ArtifactDigest, RelayError>,
    rootfs: Result<ArtifactDigest, RelayError>,
    initrd: Option<Result<ArtifactDigest, RelayError>>,
) -> (r: Result<GuestPageSize, RelayError>)
    requires
        manifest.initrd is Some <==> initrd is Some,
    ensures
        failure(r) == artifacts_verdict(*manifest, kernel, rootfs, initrd),
{
    let page_size = match manifest.validate() {
        Ok(p) => p,
        Err(e) => {
            return Err(e);
        },
    };
    match verify_artifact("kernel", &manifest.kernel, kernel) {
        Ok(()) => {},
        Err(e) => {
            return Err(e);
        },
    }
    match verify_artifact("rootfs", &manifest.rootfs, rootfs) {
        Ok(()) => {},
        Err(e) => {
            return Err(e);
        },
    }
    match (&manifest.initrd, initrd) {
        (Some(a), Some(measured)) => match verify_artifact("initrd", a, measured) {
            Ok(()) => {},
            Err(e) => {
                return Err(e);
            },
        },
        _ => {},
    }
    Ok(page_size)
}

/// What `load` answers: the manifest's checks, the kernel, rootfs and initrd
/// bytes against their entries, then the guest RAM allocation.
pub open spec fn load_verdict(
    m: GuestManifest,
    kernel: Result<Vec<u8>, RelayError>,
    initrd: Option<Result<Vec<u8>, RelayError>>,
    rootfs: Result<Vec<u8>, RelayError>,
    host_page_bytes: u32,
) -> Result<GuestPageSize, Seq<char>> {
    let t = PageTranslate {
        guest: GuestPageSize(m.page_size),
        host: HostPageSize::detect_spec(host_page_bytes),
    };
    if manifest_check(m) is Err {
        Err(manifest_check(m)->Err_0)
    } else if read_verdict("kernel"@, m.kernel, kernel) is Err {
        Err(read_verdict("kernel"@, m.kernel, kernel)->Err_0)
    } else if read_verdict("rootfs"@, m.rootfs, rootfs) is Err {
        Err(read_verdict("rootfs"@, m.rootfs, rootfs)->Err_0)
    } else if m.initrd is Some && read_verdict("initrd"@, m.initrd->0, initrd->0) is Err {
        Err(read_verdict("initrd"@, m.initrd->0, initrd->0)->Err_0)
    } else if !allocation_fits(t, m.memory_bytes) {
        Err(allocation_failure(t, m.memory_bytes)->Err_0)
    } else {
        manifest_check(m)
    }
}

/// Check the bundle's files as read into memory and allocate guest RAM for
/// them. `initrd` is the initrd as read exactly when the manifest names one.
pub fn load(
    manifest: &GuestManifest,
    kernel: Result<Vec<u8>, RelayError>,
    initrd: Option<Result<Vec<u8>, RelayError>>,
    rootfs: Result<Vec<u8>, RelayError>,
    host_page_bytes: u32,
) -> (r: Result<LoadedGuest, RelayError>)
    requires
        manifest.initrd is Some <==> initrd is Some,
    ensures
        r is Ok <==> load_verdict(*manifest, kernel, initrd, rootfs, host_page_bytes) is Ok,
        r is Err ==> load_verdict(*manifest, kernel, initrd, rootfs, host_page_bytes) == Err::<
            GuestPageSize,
            Seq<char>,
        >(error_text(r->Err_0)),
        r matches Ok(g) ==> {
            &&& g.page_size == GuestPageSize(manifest.page_size)
            &&& g.memory.size() == manifest.memory_bytes
            &&& g.memory.page() == g.page_size
            &&& g.memory@.len() >= manifest.memory_bytes
            &&& forall|i: int| 0 <= i < g.memory@.len() ==> g.memory@[i] == 0
            &&& kernel matches Ok(k) && g.kernel@ == k@
            &&& rootfs matches Ok(f) && g.rootfs@ == f@
            &&& match initrd {
                Some(read) => read matches Ok(i) && g.initrd matches Some(gi) && gi@ == i@,
                None => g.initrd is None,
            }
            &&& g.rootfs_path@ == manifest.rootfs.path@
        },
{
    let page_size = match manifest.validate() {
        Ok(p) => p,
        Err(e) => {
            return Err(e);
        },
    };
    let kernel = match verify_read("kernel", &manifest.kernel, kernel) {
        Ok(k) => k,
        Err(e) => {
            return Err(e);
        },
    };
    let rootfs = match verify_read("rootfs", &manifest.rootfs, rootfs) {
        Ok(f) => f,
        Err(e) => {
            return Err(e);
        },
    };
    let initrd = match (&manifest.initrd, initrd) {
        (Some(a), Some(read)) => match verify_read("initrd", a, read) {
            Ok(i) => Some(i),
            Err(e) => {
                return Err(e);
            },
        },
        _ => None,
    };
    let memory = match GuestMemory::allocate(page_size, host_page_bytes, manifest.memory_bytes) {
        Ok(m) => m,
        Err(e) => {
            return Err(e);
        },
    };
    Ok(
        LoadedGuest {
            page_size,
            memory,
            kernel,
            initrd,
            rootfs,
            rootfs_path: manifest.rootfs.path.clone(),
        },
    )
}

/// `v` rounded up to a multiple of `a`, unless that overflows.
pub open spec fn align_up_spec(v: u64, a: u64) -> Option<u64> {
    if v + a - 1 > u64::MAX {
        None
    } else {
        Some((v + a - 1 - (v + a - 1) % (a as int)) as u64)
    }
}

fn align_up(value: u64, alignment: u64) -> (r: Result<u64, RelayError>)
    requires
        alignment == 4096 || alignment == 16384,
    ensures
        only_failed(r),
        match align_up_spec(value, alignment) {
            Some(v) => r == Ok::<u64, RelayError>(v),
            None => r is Err && error_text(r->Err_0) == "guest address alignment overflow"@,
        },
{
    match value.checked_add(alignment - 1) {
        Some(v) => {
            Ok(v - v % alignment)
        },
        None => Err(RelayError::Failed(String::from_str("guest address alignment overflow"))),
    }
}

/// Guest RAM after staging, with the initrd address and the DTB.
pub struct Staged {
    pub memory: Seq<u8>,
    pub initrd_address: Option<u64>,
    pub dtb: Seq<u8>,
}

pub open spec fn opt_bytes(o: Option<Vec<u8>>) -> Option<Seq<u8>> {
    match o {
        Some(v) => Some(v@),
        None => None,
    }
}

/// The DTB built for the staged RAM `r`, written below the kernel.
pub open spec fn dtb_stage(
    r: Ram,
    initrd_address: Option<u64>,
    range: Option<(u64, u64)>,
    memory_bytes: u64,
    command_line: Seq<char>,
) -> Result<Staged, Seq<char>> {
    match build_result(memory_bytes, command_line, range) {
        Err(e) => Err(e),
        Ok(d) => if DTB_ADDRESS + d.len() > KERNEL_ADDRESS {
            Err("Relay DTB and kernel layout overlap"@)
        } else if !fits(r, DTB_ADDRESS, d.len()) {
            Err(refusal(r, DTB_ADDRESS, d.len()))
        } else {
            Ok(Staged { memory: written(r.bytes, DTB_ADDRESS as int, d), initrd_address, dtb: d })
        },
    }
}

/// The initrd, if any, on the first page boundary after the kernel.
pub open spec fn initrd_stage(
    r: Ram,
    kernel_end: u64,
    initrd: Option<Seq<u8>>,
    page: u64,
    memory_bytes: u64,
    command_line: Seq<char>,
) -> Result<Staged, Seq<char>> {
    match initrd {
        None => dtb_stage(r, None, None, memory_bytes, command_line),
        Some(i) => match align_up_spec(kernel_end, page) {
            None => Err("guest address alignment overflow"@),
            Some(a) => if !fits(r, a, i.len()) {
                Err(refusal(r, a, i.len()))
            } else if a + i.len() > u64::MAX {
                Err("guest initrd placement overflow"@)
            } else {
                dtb_stage(
                    Ram { bytes: written(r.bytes, a as int, i), size: r.size },
                    Some(a),
                    Some((a, (a + i.len()) as u64)),
                    memory_bytes,
                    command_line,
                )
            },
        },
    }
}

/// Kernel at `KERNEL_ADDRESS`, initrd after it, DTB at `DTB_ADDRESS`.
pub open spec fn staging(
    r: Ram,
    kernel: Seq<u8>,
    initrd: Option<Seq<u8>>,
    page: u64,
    memory_bytes: u64,
    command_line: Seq<char>,
) -> Result<Staged, Seq<char>> {
    if KERNEL_ADDRESS + kernel.len() > u64::MAX {
        Err("guest kernel placement overflow"@)
    } else if !fits(r, KERNEL_ADDRESS, kernel.len()) {
        Err(refusal(r, KERNEL_ADDRESS, kernel.len()))
    } else {
        initrd_stage(
            Ram { bytes: written(r.bytes, KERNEL_ADDRESS as int, kernel), size: r.size },
            (KERNEL_ADDRESS + kernel.len()) as u64,
            initrd,
            page,
            memory_bytes,
            command_line,
        )
    }
}

fn stage_dtb(
    memory: &mut GuestMemory,
    initrd_address: Option<u64>,
    range: Option<(u64, u64)>,
    memory_bytes: u64,
    command_line: &str,
) -> (r: Result<usize, RelayError>)
    ensures
        only_failed(r),
        final(memory).size() == old(memory).size(),
        final(memory).page() == old(memory).page(),
        final(memory).geometry() == old(memory).geometry(),
        match dtb_stage(old(memory).ram(), initrd_address, range, memory_bytes, command_line@) {
            Ok(st) => r == Ok::<usize, RelayError>(st.dtb.len() as usize) && final(memory)@
                == st.memory,
            Err(t) => r is Err && error_text(r->Err_0) == t,
        },
{
    let dtb = match build(memory_bytes, command_line, range) {
        Ok(d) => d,
        Err(e) => {
            return Err(e);
        },
    };
    if DTB_ADDRESS + dtb.len() as u64 > KERNEL_ADDRESS {
        return Err(RelayError::Failed(String::from_str("Relay DTB and kernel layout overlap")));
    }
    match memory.write(DTB_ADDRESS, dtb.as_slice()) {
        Ok(()) => {},
        Err(e) => {
            return Err(e);
        },
    }
    Ok(dtb.len())
}

fn stage(
    memory: &mut GuestMemory,
    kernel: &[u8],
    initrd: &Option<Vec<u8>>,
    page: u64,
    memory_bytes: u64,
    command_line: &str,
) -> (r: Result<(Option<u64>, usize), RelayError>)
    requires
        page == 4096 || page == 16384,
    ensures
        only_failed(r),
        final(memory).size() == old(memory).size(),
        final(memory).page() == old(memory).page(),
        final(memory).geometry() == old(memory).geometry(),
        match staging(old(memory).ram(), kernel@, opt_bytes(*initrd), page, memory_bytes, command_line@) {
            Ok(st) => r == Ok::<(Option<u64>, usize), RelayError>(
                (st.initrd_address, st.dtb.len() as usize),
            ) && final(memory)@ == st.memory,
            Err(t) => r is Err && error_text(r->Err_0) == t,
        },
{
    if kernel.len() as u64 > u64::MAX - KERNEL_ADDRESS {
        return Err(RelayError::Failed(String::from_str("guest kernel placement overflow")));
    }
    let kernel_end = KERNEL_ADDRESS + kernel.len() as u64;
    match memory.write(KERNEL_ADDRESS, kernel) {
        Ok(()) => {},
        Err(e) => {
            return Err(e);
        },
    }
    match initrd {
        None => match stage_dtb(memory, None, None, memory_bytes, command_line) {
            Ok(n) => Ok((None, n)),
            Err(e) => Err(e),
        },
        Some(i) => {
            let address = match align_up(kernel_end, page) {
                Ok(a) => a,
                Err(e) => {
                    return Err(e);
                },
            };
            match memory.write(address, i.as_slice()) {
                Ok(()) => {},
                Err(e) => {
                    return Err(e);
                },
            }
            if i.len() as u64 > u64::MAX - address {
                return Err(RelayError::Failed(String::from_str("guest initrd placement overflow")));
            }
            let end = address + i.len() as u64;
            match stage_dtb(memory, Some(address), Some((address, end)), memory_bytes, command_line) {
                Ok(n) => Ok((Some(address), n)),
                Err(e) => Err(e),
            }
        },
    }
}

/// The checks `prepare_linux_boot` makes before staging: the manifest, the
/// kernel and initrd as read, the rootfs as measured, then guest RAM.
pub open spec fn boot_verdict(
    m: GuestManifest,
    kernel: Result<Vec<u8>, RelayError>,
    initrd: Option<Result<Vec<u8>, RelayError>>,
    rootfs: Result<ArtifactDigest, RelayError>,
    host_page_bytes: u32,
) -> Result<GuestPageSize, Seq<char>> {
    let t = PageTranslate {
        guest: GuestPageSize(m.page_size),
        host: HostPageSize::detect_spec(host_page_bytes),
    };
    if manifest_check(m) is Err {
        Err(manifest_check(m)->Err_0)
    } else if read_verdict("kernel"@, m.kernel, kernel) is Err {
        Err(read_verdict("kernel"@, m.kernel, kernel)->Err_0)
    } else if m.initrd is Some && read_verdict("initrd"@, m.initrd->0, initrd->0) is Err {
        Err(read_verdict("initrd"@, m.initrd->0, initrd->0)->Err_0)
    } else if measure_verdict("rootfs"@, m.rootfs, rootfs) is Err {
        Err(measure_verdict("rootfs"@, m.rootfs, rootfs)->Err_0)
    } else if !allocation_fits(t, m.memory_bytes) {
        Err(allocation_failure(t, m.memory_bytes)->Err_0)
    } else {
        manifest_check(m)
    }
}

/// Fresh guest RAM for the manifest: zeros over the whole host arena.
pub open spec fn fresh_ram(m: GuestManifest, host_page_bytes: u32) -> Ram {
    let t = PageTranslate {
        guest: GuestPageSize(m.page_size),
        host: HostPageSize::detect_spec(host_page_bytes),
    };
    Ram {
        bytes: Seq::new(arena_bytes(t, m.memory_bytes)->Ok_0 as nat, |i: int| 0u8),
        size: m.memory_bytes as nat,
    }
}

/// The bytes of a read that succeeded.
pub open spec fn read_bytes(read: Result<Vec<u8>, RelayError>) -> Seq<u8> {
    read->Ok_0@
}

pub open spec fn initrd_bytes(initrd: Option<Result<Vec<u8>, RelayError>>) -> Option<Seq<u8>> {
    match initrd {
        Some(read) => Some(read->Ok_0@),
        None => None,
    }
}

/// Verify the boot artifacts and stage the kernel, initrd and DTB in one
/// guest RAM arena at fixed AArch64 Linux addresses. The rootfs stays out of
/// RAM: it is checked as measured on disk and later backs virtio-block.
/// `initrd` is the initrd as read exactly when the manifest names one.
pub fn prepare_linux_boot(
    manifest: &GuestManifest,
    kernel: Result<Vec<u8>, RelayError>,
    initrd: Option<Result<Vec<u8>, RelayError>>,
    rootfs: Result<ArtifactDigest, RelayError>,
    host_page_bytes: u32,
) -> (r: Result<(LoadedGuest, LinuxBootState), RelayError>)
    requires
        manifest.initrd is Some <==> initrd is Some,
    ensures
        boot_verdict(*manifest, kernel, initrd, rootfs, host_page_bytes) is Err ==> r is Err
            && error_text(r->Err_0) == boot_verdict(
            *manifest,
            kernel,
            initrd,
            rootfs,
            host_page_bytes,
        )->Err_0,
        boot_verdict(*manifest, kernel, initrd, rootfs, host_page_bytes) is Ok ==> match staging(
            fresh_ram(*manifest, host_page_bytes),
            read_bytes(kernel),
            initrd_bytes(initrd),
            manifest.page_size as u64,
            manifest.memory_bytes,
            manifest.command_line@,
        ) {
            Err(t) => r is Err && error_text(r->Err_0) == t,
            Ok(st) => r matches Ok((g, b)) && {
                &&& g.page_size == GuestPageSize(manifest.page_size)
                &&& g.memory@ == st.memory
                &&& g.memory.size() == manifest.memory_bytes
                &&& g.memory.page() == g.page_size
                &&& g.kernel@ == read_bytes(kernel)
                &&& opt_bytes(g.initrd) == initrd_bytes(initrd)
                &&& g.rootfs@.len() == 0
                &&& g.rootfs_path@ == manifest.rootfs.path@
                &&& b.entry_pc == KERNEL_ADDRESS
                &&& b.dtb_address == DTB_ADDRESS
                &&& b.initrd_address == st.initrd_address
                &&& b.command_line@ == manifest.command_line@
                &&& b.dtb_bytes == st.dtb.len()
            },
        },
{
    let page_size = match manifest.validate() {
        Ok(p) => p,
        Err(e) => {
            return Err(e);
        },
    };
    let kernel = match verify_read("kernel", &manifest.kernel, kernel) {
        Ok(k) => k,
        Err(e) => {
            return Err(e);
        },
    };
    let initrd = match (&manifest.initrd, initrd) {
        (Some(a), Some(read)) => match verify_read("initrd", a, read) {
            Ok(i) => Some(i),
            Err(e) => {
                return Err(e);
            },
        },
        _ => None,
    };
    match verify_artifact("rootfs", &manifest.rootfs, rootfs) {
        Ok(()) => {},
        Err(e) => {
            return Err(e);
        },
    }
    let mut memory = match GuestMemory::allocate(page_size, host_page_bytes, manifest.memory_bytes) {
        Ok(m) => m,
        Err(e) => {
            return Err(e);
        },
    };
    assert(memory@ =~= fresh_ram(*manifest, host_page_bytes).bytes);
    assert(memory.ram() == fresh_ram(*manifest, host_page_bytes));
    let (initrd_address, dtb_bytes) = match stage(
        &mut memory,
        kernel.as_slice(),
        &initrd,
        page_size.bytes() as u64,
        manifest.memory_bytes,
        manifest.command_line.as_str(),
    ) {
        Ok(placed) => placed,
        Err(e) => {
            return Err(e);
        },
    };
    let guest = LoadedGuest {
        page_size,
        memory,
        kernel,
        initrd,
        rootfs: Vec::new(),
        rootfs_path: manifest.rootfs.path.clone(),
    };
    let boot = LinuxBootState {
        entry_pc: KERNEL_ADDRESS,
        dtb_address: DTB_ADDRESS,
        initrd_address,
        command_line: manifest.command_line.clone(),
        dtb_bytes,
    };
    Ok((guest, boot))
}

} // verus!
