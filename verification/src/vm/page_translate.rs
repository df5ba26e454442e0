//! Host and guest page geometry for one Relay StaticCpu. Either guest page
//! size maps onto the host process page size without a second VM product.
use crate::relay_core::{aligned_to, failure, only_failed, GuestPageSize, HostPageSize, RelayError};
use crate::text::{decimal, push_decimal, with_decimal};
use vstd::prelude::*;

verus! {

/// Maps guest physical addresses into a host-backed arena.
#[derive(Debug, Clone, Copy, PartialEq, Eq, Structural)]
pub struct PageTranslate {
    pub guest: GuestPageSize,
    pub host: HostPageSize,
}

/// `n` rounded up to a multiple of `page`, when `page` is a power of two.
pub open spec fn round_up(n: u64, page: u32) -> int {
    ((n + page - 1) as u64 & !((page - 1) as u64)) as int
}

/// Arena bytes for `guest_bytes` of guest RAM, or why there are none.
pub open spec fn arena_bytes(t: PageTranslate, guest_bytes: u64) -> Result<u64, Seq<char>> {
    if guest_bytes == 0 {
        Err("guest memory size must be non-zero"@)
    } else if !aligned_to(guest_bytes, t.guest.0) {
        Err("guest memory size must be guest-page aligned"@)
    } else if guest_bytes + t.host.0 - 1 > u64::MAX {
        Err("host arena size overflow"@)
    } else {
        Ok(round_up(guest_bytes, t.host.0) as u64)
    }
}

/// `guest-<g>k-on-host-<h>k`.
pub open spec fn pair_text(t: PageTranslate) -> Seq<char> {
    "guest-"@ + decimal((t.guest.0 / 1024) as nat) + "k-on-host-"@ + decimal((t.host.0 / 1024) as nat)
        + "k"@
}

proof fn lemma_round_up(n: u64, page: u64)
    requires
        page == 4096 || page == 16384,
        n + page - 1 <= u64::MAX,
    ensures
        ((n + page - 1) as u64 & !((page - 1) as u64)) >= n,
        ((n + page - 1) as u64 & !((page - 1) as u64)) % page == 0,
        ((n + page - 1) as u64 & !((page - 1) as u64)) < n + page,
{
    let m = (n + page - 1) as u64;
    if page == 4096 {
        assert((m & !4095u64) % 4096 == 0 && (m & !4095u64) <= m && m - (m & !4095u64) < 4096)
            by (bit_vector);
    } else {
        assert((m & !16383u64) % 16384 == 0 && (m & !16383u64) <= m && m - (m & !16383u64) < 16384)
            by (bit_vector);
    }
}

impl PageTranslate {
    /// Pair a guest and a host geometry. Both sizes are already validated, so
    /// this succeeds; it stays fallible so new geometries fail closed here.
    pub fn new(guest: GuestPageSize, host: HostPageSize) -> (r: Result<Self, RelayError>)
        ensures
            r == Ok::<PageTranslate, RelayError>(PageTranslate { guest, host }),
    {
        Ok(PageTranslate { guest, host })
    }

    /// Pair `guest` with the host page size the caller observed.
    pub fn detect_host(guest: GuestPageSize, host_page_bytes: u32) -> (r: Result<Self, RelayError>)
        ensures
            r == Ok::<PageTranslate, RelayError>(
                PageTranslate { guest, host: HostPageSize(if host_page_bytes == 16384 { 16384u32 } else { 4096u32 }) },
            ),
    {
        PageTranslate::new(guest, HostPageSize::detect(host_page_bytes))
    }

    /// Bytes of host arena needed to hold `guest_bytes` of guest RAM, rounded
    /// up to a whole host page.
    pub fn host_arena_bytes(self, guest_bytes: u64) -> (r: Result<u64, RelayError>)
        requires
            self.guest.0 > 0,
            self.host.0 > 0,
        ensures
            only_failed(r),
            failure(r) == arena_bytes(self, guest_bytes),
            (self.host.0 == 4096 || self.host.0 == 16384) ==> (r matches Ok(a) ==> (a >= guest_bytes
                && a % (self.host.0 as u64) == 0 && a < guest_bytes + self.host.0)),
    {
        if guest_bytes == 0 {
            return Err(RelayError::Failed(String::from_str("guest memory size must be non-zero")));
        }
        if !self.guest.is_aligned(guest_bytes) {
            return Err(
                RelayError::Failed(String::from_str("guest memory size must be guest-page aligned")),
            );
        }
        let host = self.host.0 as u64;
        let sum = match guest_bytes.checked_add(host - 1) {
            Some(s) => s,
            None => {
                return Err(RelayError::Failed(String::from_str("host arena size overflow")));
            },
        };
        let rounded = sum & !(host - 1);
        proof {
            if self.host.0 == 4096 || self.host.0 == 16384 {
                lemma_round_up(guest_bytes, host);
            }
        }
        Ok(rounded)
    }

    /// Guest physical address to byte offset in the host arena: the identity
    /// for the supported pairs (guest pages pack into larger host pages, or
    /// span several smaller ones).
    pub fn guest_to_host_offset(self, gpa: u64) -> (r: Result<u64, RelayError>)
        ensures
            r == Ok::<u64, RelayError>(gpa),
    {
        Ok(gpa)
    }

    /// How many host pages cover one guest page.
    pub fn host_pages_per_guest_page(self) -> (r: u32)
        requires
            self.host.0 > 0,
        ensures
            r == (if self.guest.0 >= self.host.0 { self.guest.0 / self.host.0 } else { 1 }),
    {
        let g = self.guest.0;
        let h = self.host.0;
        if g >= h {
            g / h
        } else {
            1
        }
    }

    /// How many guest pages fit in one host page (1 when guest >= host).
    pub fn guest_pages_per_host_page(self) -> (r: u32)
        requires
            self.guest.0 > 0,
        ensures
            r == (if self.host.0 >= self.guest.0 { self.host.0 / self.guest.0 } else { 1 }),
    {
        let g = self.guest.0;
        let h = self.host.0;
        if h >= g {
            h / g
        } else {
            1
        }
    }

    pub fn pair_label(self) -> (r: String)
        ensures
            r@ == pair_text(self),
    {
        let mut out = with_decimal("guest-", (self.guest.0 / 1024) as u64);
        out.append("k-on-host-");
        push_decimal(&mut out, (self.host.0 / 1024) as u64);
        out.append("k");
        out
    }
}

} // verus!
