//! Filesystem layers: decompression, the diff_id, and every archive entry's path,
//! type, hard-link target and whiteout.
use vstd::prelude::*;
use std::io::Read;
use crate::relay_core::{answers, failed, failed_with, fails_with, RelayError};
use crate::relay_oci::{sha256_hex, sha256_hex_of, Descriptor};
use crate::text::{ends_with, str_ends_with};
use crate::vm::guest::{digest_matches, digest_matches_text, sha256, sha256_digest};

verus! {

// ---------------------------------------------------------------------------
// Archive paths
// ---------------------------------------------------------------------------

/// What a scan of a relative path has found so far: its components joined by
/// `/` (a leading `.` kept, later `.` and empty ones dropped, as `Path` compares
/// them), whether a `..` occurs, and the last normal component.
pub type PathScan = (Seq<u8>, bool, Option<Seq<u8>>);

pub open spec fn separator(out: Seq<u8>) -> Seq<u8> {
    if out.len() == 0 {
        seq![]
    } else {
        seq![47u8]
    }
}

/// Add the segment `seg`; `first` holds while no `/` has been seen.
pub open spec fn flush(acc: PathScan, seg: Seq<u8>, first: bool) -> PathScan {
    if seg.len() == 0 {
        acc
    } else if seg == seq![46u8] {
        if first {
            (seq![46u8], acc.1, acc.2)
        } else {
            acc
        }
    } else if seg == seq![46u8, 46u8] {
        (acc.0 + separator(acc.0) + seg, true, acc.2)
    } else {
        (acc.0 + separator(acc.0) + seg, acc.1, Some(seg))
    }
}

pub open spec fn scan(p: Seq<u8>, i: int, acc: PathScan, seg: Seq<u8>, first: bool) -> PathScan
    decreases p.len() - i,
{
    if i >= p.len() {
        flush(acc, seg, first)
    } else if p[i] == 47u8 {
        scan(p, i + 1, flush(acc, seg, first), seq![], false)
    } else {
        scan(p, i + 1, acc, seg.push(p[i]), first)
    }
}

pub open spec fn path_scan(p: Seq<u8>) -> PathScan {
    scan(p, 0, (seq![], false, None), seq![], true)
}

/// Whether an archive path is empty, absolute, or climbs with `..`.
pub open spec fn escapes(p: Seq<u8>) -> bool {
    p.len() == 0 || p[0] == 47u8 || path_scan(p).1
}

/// Two archive paths name the same file when their keys are equal.
pub open spec fn path_key(p: Seq<u8>) -> Seq<u8> {
    path_scan(p).0
}

/// The last normal component of a path, as `Path::file_name` gives it.
pub open spec fn file_name(p: Seq<u8>) -> Option<Seq<u8>> {
    path_scan(p).2
}

fn bytes_eq(a: &Vec<u8>, b: &[u8]) -> (r: bool)
    ensures
        r == (a@ == b@),
{
    if a.len() != b.len() {
        return false;
    }
    let mut i: usize = 0;
    while i < a.len()
        invariant
            a@.len() == b@.len(),
            i <= a@.len(),
            forall|j: int| 0 <= j < i ==> a@[j] == b@[j],
        decreases a@.len() - i,
    {
        if a[i] != b[i] {
            return false;
        }
        i = i + 1;
    }
    assert(a@ =~= b@);
    true
}

fn flush_exec(acc: &mut (Vec<u8>, bool, Option<Vec<u8>>), seg: Vec<u8>, first: bool)
    ensures
        (final(acc).0@, final(acc).1, opt_view(final(acc).2)) == flush(
            (old(acc).0@, old(acc).1, opt_view(old(acc).2)),
            seg@,
            first,
        ),
{
    if seg.len() == 0 {
        return;
    }
    if seg.len() == 1 && seg[0] == 46u8 {
        assert(seg@ =~= seq![46u8]);
        if first {
            let mut dot: Vec<u8> = Vec::new();
            dot.push(46u8);
            acc.0 = dot;
            assert(acc.0@ =~= seq![46u8]);
        }
        return;
    }
    assert(seg@ != seq![46u8]);
    let parent = seg.len() == 2 && seg[0] == 46u8 && seg[1] == 46u8;
    assert(parent == (seg@ == seq![46u8, 46u8])) by {
        if seg@ == seq![46u8, 46u8] {
            assert(seg@[0] == 46u8 && seg@[1] == 46u8);
        }
        if parent {
            assert(seg@ =~= seq![46u8, 46u8]);
        }
    }
    let ghost before = acc.0@;
    if acc.0.len() > 0 {
        acc.0.push(47u8);
    }
    assert(acc.0@ =~= before + separator(before));
    let mut i: usize = 0;
    let ghost mid = acc.0@;
    while i < seg.len()
        invariant
            i <= seg@.len(),
            acc.0@ == mid + seg@.subrange(0, i as int),
            acc.1 == old(acc).1,
            acc.2 == old(acc).2,
        decreases seg@.len() - i,
    {
        acc.0.push(seg[i]);
        i = i + 1;
        assert(seg@.subrange(0, i as int) =~= seg@.subrange(0, i - 1).push(seg@[i - 1]));
    }
    assert(seg@.subrange(0, i as int) =~= seg@);
    if parent {
        acc.1 = true;
    } else {
        acc.2 = Some(seg);
    }
}

pub open spec fn opt_view(o: Option<Vec<u8>>) -> Option<Seq<u8>> {
    match o {
        Some(v) => Some(v@),
        None => None,
    }
}

/// Scan an archive path: its key, whether `..` occurs, and its file name.
fn scan_path(p: &[u8]) -> (r: (Vec<u8>, bool, Option<Vec<u8>>))
    ensures
        (r.0@, r.1, opt_view(r.2)) == path_scan(p@),
{
    let mut acc: (Vec<u8>, bool, Option<Vec<u8>>) = (Vec::new(), false, None);
    let mut seg: Vec<u8> = Vec::new();
    let mut first = true;
    let mut i: usize = 0;
    assert((acc.0@, acc.1, opt_view(acc.2)) =~= (seq![], false, None::<Seq<u8>>));
    while i < p.len()
        invariant
            i <= p@.len(),
            scan(p@, i as int, (acc.0@, acc.1, opt_view(acc.2)), seg@, first) == path_scan(p@),
        decreases p@.len() - i,
    {
        if p[i] == 47u8 {
            let done = seg;
            seg = Vec::new();
            flush_exec(&mut acc, done, first);
            first = false;
        } else {
            seg.push(p[i]);
        }
        i = i + 1;
    }
    flush_exec(&mut acc, seg, first);
    acc
}

/// Refuse an archive path that is empty, absolute or climbs out of the root.
pub fn validate_archive_path(path: &[u8], name: &str) -> (r: Result<(), RelayError>)
    ensures
        !escapes(path@) ==> r is Ok,
        escapes(path@) ==> fails_with(r, "OCI "@ + name@ + " path escapes the container root"@),
{
    let escaping = if path.len() == 0 || path[0] == 47u8 {
        true
    } else {
        scan_path(path).1
    };
    if escaping {
        let mut message = String::from_str("OCI ");
        message.append(name);
        message.append(" path escapes the container root");
        return Err(RelayError::Failed(message));
    }
    Ok(())
}

// ---------------------------------------------------------------------------
// Archive entries
// ---------------------------------------------------------------------------

/// The type bytes of the entries a layer may hold.
pub const ENTRY_FILE: u8 = 48;

pub const ENTRY_HARD_LINK: u8 = 49;

pub const ENTRY_SYMLINK: u8 = 50;

pub const ENTRY_DIRECTORY: u8 = 53;

/// One archive entry: its path, its type byte and its link target.
pub struct TarEntry {
    pub path: Vec<u8>,
    pub kind: u8,
    pub link: Option<Vec<u8>>,
}

/// The entries of an archive, in order, and the error that ended the listing
/// early, if one did.
pub struct TarListing {
    pub entries: Vec<TarEntry>,
    pub error: Option<String>,
}

pub type EntryView = (Seq<u8>, u8, Option<Seq<u8>>);

pub open spec fn entry_view(e: TarEntry) -> EntryView {
    (e.path@, e.kind, opt_view(e.link))
}

pub open spec fn listing_view(l: TarListing) -> (Seq<EntryView>, Option<Seq<char>>) {
    (
        l.entries@.map_values(|e: TarEntry| entry_view(e)),
        match l.error {
            Some(e) => Some(e@),
            None => None,
        },
    )
}

/// What tar's reader lists of an archive: each entry's path bytes, type byte
/// and link-name bytes, in order, and the text of the error that ended the
/// listing, if any. It depends on the archive's bytes alone.
pub uninterp spec fn tar_listing(archive: Seq<u8>) -> (Seq<EntryView>, Option<Seq<char>>);

/// `Archive::entries` of tar over the bytes, each entry's `path_bytes`,
/// `header().entry_type().as_byte()` and `link_name_bytes`, until the iterator
/// ends; an entry error ends it (the iterator yields nothing after one). On a
/// new archive `entries` cannot fail, so the listing is always given.
#[verifier::external_body]
fn list_archive(archive: &[u8]) -> (r: Result<TarListing, String>)
    ensures
        r is Ok,
        listing_view(r->Ok_0) == tar_listing(archive@),
{
    let mut reader = tar::Archive::new(std::io::Cursor::new(archive));
    let entries = reader.entries().map_err(|error| error.to_string())?;
    let mut listing = TarListing { entries: Vec::new(), error: None };
    for entry in entries {
        match entry {
            Ok(entry) => listing.entries.push(TarEntry {
                path: entry.path_bytes().into_owned(),
                kind: entry.header().entry_type().as_byte(),
                link: entry.link_name_bytes().map(|link| link.into_owned()),
            }),
            Err(error) => listing.error = Some(error.to_string()),
        }
    }
    Ok(listing)
}

/// `std::str::from_utf8`: whether the bytes are UTF-8.
#[verifier::external_body]
pub(crate) fn is_utf8(bytes: &[u8]) -> (r: bool)
    ensures
        r == vstd::utf8::valid_utf8(bytes@),
{
    std::str::from_utf8(bytes).is_ok()
}

pub open spec fn whiteout_prefix() -> Seq<u8> {
    seq![46u8, 119u8, 104u8, 46u8]
}

pub open spec fn opaque_whiteout() -> Seq<u8> {
    whiteout_prefix() + whiteout_prefix() + seq![46u8, 111u8, 112u8, 113u8]
}

pub open spec fn starts_with(s: Seq<u8>, prefix: Seq<u8>) -> bool {
    s.len() >= prefix.len() && s.subrange(0, prefix.len() as int) == prefix
}

/// The whiteout rules for an entry named `name` of type `kind`.
pub open spec fn whiteout_check(name: Option<Seq<u8>>, kind: u8) -> Result<(), Seq<char>> {
    match name {
        Some(n) => if vstd::utf8::valid_utf8(n) && starts_with(n, whiteout_prefix()) {
            let w = n.subrange(4, n.len() as int);
            if w.len() == 0 || (starts_with(w, whiteout_prefix()) && n != opaque_whiteout()) {
                Err("OCI layer contains an invalid whiteout"@)
            } else if kind != ENTRY_FILE {
                Err("OCI whiteout must be a regular file"@)
            } else {
                Ok(())
            }
        } else {
            Ok(())
        },
        None => Ok(()),
    }
}

/// One entry against the keys of the entries before it: its key, or the
/// message that refuses it.
pub open spec fn entry_check(e: EntryView, seen: Seq<Seq<u8>>) -> Result<Seq<u8>, Seq<char>> {
    if escapes(e.0) {
        Err("OCI "@ + "layer"@ + " path escapes the container root"@)
    } else if seen.contains(path_key(e.0)) {
        Err("OCI layer contains a duplicate path"@)
    } else if !(e.1 == ENTRY_FILE || e.1 == ENTRY_DIRECTORY || e.1 == ENTRY_SYMLINK || e.1
        == ENTRY_HARD_LINK) {
        Err("OCI layer contains an unsupported special file"@)
    } else if e.1 == ENTRY_HARD_LINK && e.2 is None {
        Err("OCI hard link has no target"@)
    } else if e.1 == ENTRY_HARD_LINK && escapes(e.2->Some_0) {
        Err("OCI "@ + "hard link"@ + " path escapes the container root"@)
    } else {
        match whiteout_check(file_name(e.0), e.1) {
            Err(m) => Err(m),
            Ok(_) => Ok(path_key(e.0)),
        }
    }
}

/// The entries from `i` on, each against the keys of those before it.
pub open spec fn entries_check(entries: Seq<EntryView>, i: int, seen: Seq<Seq<u8>>) -> Result<
    (),
    Seq<char>,
>
    decreases entries.len() - i,
{
    if i < 0 || i >= entries.len() {
        Ok(())
    } else {
        match entry_check(entries[i], seen) {
            Err(m) => Err(m),
            Ok(key) => entries_check(entries, i + 1, seen.push(key)),
        }
    }
}

/// Whether a listing's entries pass, then whether it ended cleanly.
pub open spec fn listing_check(listing: (Seq<EntryView>, Option<Seq<char>>)) -> Result<
    (),
    Seq<char>,
> {
    match entries_check(listing.0, 0, seq![]) {
        Err(m) => Err(m),
        Ok(_) => match listing.1 {
            Some(e) => Err("invalid OCI layer entry: "@ + e),
            None => Ok(()),
        },
    }
}

/// What an unpacked layer must be: its SHA-256 the config's diff_id, and its
/// archive entries sound.
pub open spec fn content_check(unpacked: Seq<u8>, diff_id: Seq<char>) -> Result<(), Seq<char>> {
    match sha256_hex_of(diff_id) {
        None => Err("OCI config diff_id is not sha256"@),
        Some(h) => if !digest_matches(sha256(unpacked), h) {
            Err("OCI layer diff_id differs from uncompressed content"@)
        } else {
            listing_check(tar_listing(unpacked))
        },
    }
}

fn key_seen(seen: &Vec<Vec<u8>>, key: &Vec<u8>) -> (r: bool)
    ensures
        r == seen@.map_values(|k: Vec<u8>| k@).contains(key@),
{
    let ghost keys = seen@.map_values(|k: Vec<u8>| k@);
    let mut i: usize = 0;
    while i < seen.len()
        invariant
            keys == seen@.map_values(|k: Vec<u8>| k@),
            i <= seen@.len(),
            forall|j: int| 0 <= j < i ==> keys[j] != key@,
        decreases seen@.len() - i,
    {
        if bytes_eq(key, seen[i].as_slice()) {
            assert(keys[i as int] == key@);
            return true;
        }
        i = i + 1;
    }
    proof {
        if keys.contains(key@) {
            let j = choose|j: int| 0 <= j < keys.len() && keys[j] == key@;
            assert(keys[j] != key@);
        }
    }
    false
}

fn check_whiteout(name: &Option<Vec<u8>>, kind: u8) -> (r: Result<(), RelayError>)
    ensures
        match whiteout_check(opt_view(*name), kind) {
            Ok(_) => r is Ok,
            Err(m) => fails_with(r, m),
        },
{
    match name {
        None => Ok(()),
        Some(n) => {
            let prefixed = n.len() >= 4 && n[0] == 46u8 && n[1] == 119u8 && n[2] == 104u8 && n[3]
                == 46u8;
            assert(prefixed == starts_with(n@, whiteout_prefix())) by {
                if starts_with(n@, whiteout_prefix()) {
                    assert(n@.subrange(0, 4)[0] == 46u8);
                    assert(n@.subrange(0, 4)[1] == 119u8);
                    assert(n@.subrange(0, 4)[2] == 104u8);
                    assert(n@.subrange(0, 4)[3] == 46u8);
                }
                if prefixed {
                    assert(n@.subrange(0, 4) =~= whiteout_prefix());
                }
            }
            if !prefixed || !is_utf8(n.as_slice()) {
                return Ok(());
            }
            let len = n.len();
            let empty = len == 4;
            let nested = len >= 8 && n[4] == 46u8 && n[5] == 119u8 && n[6] == 104u8 && n[7] == 46u8;
            let opaque = len == 12 && nested && n[8] == 46u8 && n[9] == 111u8 && n[10] == 112u8 && n[11]
                == 113u8;
            proof {
                let w = n@.subrange(4, n@.len() as int);
                assert(nested == starts_with(w, whiteout_prefix())) by {
                    if starts_with(w, whiteout_prefix()) {
                        assert(w.subrange(0, 4)[0] == w[0]);
                        assert(w.subrange(0, 4)[1] == w[1]);
                        assert(w.subrange(0, 4)[2] == w[2]);
                        assert(w.subrange(0, 4)[3] == w[3]);
                    }
                    if nested {
                        assert(w.subrange(0, 4) =~= whiteout_prefix());
                    }
                }
                assert(opaque == (n@ == opaque_whiteout())) by {
                    if n@ == opaque_whiteout() {
                        assert(n@[8] == opaque_whiteout()[8]);
                        assert(n@[9] == opaque_whiteout()[9]);
                        assert(n@[10] == opaque_whiteout()[10]);
                        assert(n@[11] == opaque_whiteout()[11]);
                    }
                    if opaque {
                        assert(n@ =~= opaque_whiteout());
                    }
                }
            }
            if empty || (nested && !opaque) {
                return failed("OCI layer contains an invalid whiteout");
            }
            if kind != ENTRY_FILE {
                return failed("OCI whiteout must be a regular file");
            }
            Ok(())
        },
    }
}

fn check_entry(e: &TarEntry, seen: &Vec<Vec<u8>>) -> (r: Result<Vec<u8>, RelayError>)
    ensures
        match entry_check(entry_view(*e), seen@.map_values(|k: Vec<u8>| k@)) {
            Ok(key) => r is Ok && r->Ok_0@ == key,
            Err(m) => fails_with(r, m),
        },
{
    validate_archive_path(e.path.as_slice(), "layer")?;
    let (key, _, name) = scan_path(e.path.as_slice());
    if key_seen(seen, &key) {
        return failed("OCI layer contains a duplicate path");
    }
    let kind = e.kind;
    if !(kind == ENTRY_FILE || kind == ENTRY_DIRECTORY || kind == ENTRY_SYMLINK || kind
        == ENTRY_HARD_LINK) {
        return failed("OCI layer contains an unsupported special file");
    }
    if kind == ENTRY_HARD_LINK {
        match &e.link {
            None => return failed("OCI hard link has no target"),
            Some(target) => {
                validate_archive_path(target.as_slice(), "hard link")?;
            },
        }
    }
    check_whiteout(&name, kind)?;
    Ok(key)
}

/// Check a listing's entries in order, then how the listing ended.
pub fn check_listing(listing: &TarListing) -> (r: Result<(), RelayError>)
    ensures
        match listing_check(listing_view(*listing)) {
            Ok(_) => r is Ok,
            Err(m) => fails_with(r, m),
        },
{
    let ghost entries = listing_view(*listing).0;
    let mut seen: Vec<Vec<u8>> = Vec::new();
    let mut i: usize = 0;
    assert(seen@.map_values(|k: Vec<u8>| k@) =~= Seq::<Seq<u8>>::empty());
    while i < listing.entries.len()
        invariant
            entries == listing.entries@.map_values(|e: TarEntry| entry_view(e)),
            i <= entries.len(),
            entries_check(entries, i as int, seen@.map_values(|k: Vec<u8>| k@)) == entries_check(
                entries,
                0,
                seq![],
            ),
        decreases entries.len() - i,
    {
        let key = check_entry(&listing.entries[i], &seen)?;
        let ghost before = seen@.map_values(|k: Vec<u8>| k@);
        seen.push(key);
        assert(seen@.map_values(|k: Vec<u8>| k@) =~= before.push(key@));
        i = i + 1;
    }
    assert(seen@.map_values(|k: Vec<u8>| k@) =~= seen@.map_values(|k: Vec<u8>| k@));
    match &listing.error {
        Some(e) => failed_with("invalid OCI layer entry: ", e.as_str()),
        None => Ok(()),
    }
}

/// Check an unpacked layer against the config's diff_id, then its entries.
pub fn check_layer_content(unpacked: &[u8], diff_id: &str) -> (r: Result<(), RelayError>)
    ensures
        match content_check(unpacked@, diff_id@) {
            Ok(_) => r is Ok,
            Err(m) => fails_with(r, m),
        },
{
    let expected = match sha256_hex(diff_id) {
        None => return failed("OCI config diff_id is not sha256"),
        Some(h) => h,
    };
    let actual = sha256_digest(unpacked);
    if !digest_matches_text(actual.as_slice(), expected.as_str()) {
        return failed("OCI layer diff_id differs from uncompressed content");
    }
    match list_archive(unpacked) {
        Err(e) => failed_with("invalid OCI layer tar: ", e.as_str()),
        Ok(listing) => check_listing(&listing),
    }
}

// ---------------------------------------------------------------------------
// Decompression
// ---------------------------------------------------------------------------

/// What gzip decoding yields of `bytes`: the decoded bytes, or the text of the
/// reader's error. It depends on `bytes` alone.
pub uninterp spec fn gzip_decoded(bytes: Seq<u8>) -> Result<Seq<u8>, Seq<char>>;

/// What zstd decoding yields of `bytes`: the decoded bytes, or the text of the
/// reader's error. It depends on `bytes` alone.
pub uninterp spec fn zstd_decoded(bytes: Seq<u8>) -> Result<Seq<u8>, Seq<char>>;

pub open spec fn decoded_view(r: Result<Vec<u8>, String>) -> Result<Seq<u8>, Seq<char>> {
    match r {
        Ok(v) => Ok(v@),
        Err(e) => Err(e@),
    }
}

/// `GzDecoder` of flate2 over the bytes, read to the end.
#[verifier::external_body]
fn gunzip(bytes: &[u8]) -> (r: Result<Vec<u8>, String>)
    ensures
        decoded_view(r) == gzip_decoded(bytes@),
{
    let mut out = Vec::new();
    match flate2::read::GzDecoder::new(std::io::Cursor::new(bytes)).read_to_end(&mut out) {
        Ok(_) => Ok(out),
        Err(error) => Err(error.to_string()),
    }
}

/// How zstd decoding went: the decoder could not be created (its context could
/// not be allocated), or what reading it to the end gave.
pub enum ZstdOutcome {
    NoDecoder(String),
    Decoded(Result<Vec<u8>, String>),
}

/// `zstd::stream::read::Decoder` over the bytes, read to the end. Whether the
/// decoder can be created does not depend on the bytes, and is left unsaid.
#[verifier::external_body]
fn unzstd(bytes: &[u8]) -> (r: ZstdOutcome)
    ensures
        r is Decoded ==> decoded_view(r->Decoded_0) == zstd_decoded(bytes@),
{
    let mut decoder = match zstd::stream::read::Decoder::new(std::io::Cursor::new(bytes)) {
        Ok(decoder) => decoder,
        Err(error) => return ZstdOutcome::NoDecoder(error.to_string()),
    };
    let mut out = Vec::new();
    match decoder.read_to_end(&mut out) {
        Ok(_) => ZstdOutcome::Decoded(Ok(out)),
        Err(error) => ZstdOutcome::Decoded(Err(error.to_string())),
    }
}

pub open spec fn gzip_suffix() -> Seq<char> {
    seq!['+', 'g', 'z', 'i', 'p']
}

pub open spec fn zstd_suffix() -> Seq<char> {
    seq!['+', 'z', 's', 't', 'd']
}

/// The check of a layer whose decoding gave `decoded`.
pub open spec fn decoded_check(decoded: Result<Seq<u8>, Seq<char>>, diff_id: Seq<char>) -> Result<
    (),
    Seq<char>,
> {
    match decoded {
        Ok(u) => content_check(u, diff_id),
        Err(e) => Err("cannot decode OCI layer: "@ + e),
    }
}

/// A layer's tar bytes, decoded by its media type: gzip for `+gzip`, zstd for
/// `+zstd`, and the bytes themselves otherwise. Where the zstd decoder cannot
/// be created the layer is refused as invalid zstd.
pub fn decode_layer(media_type: &str, bytes: &[u8]) -> (r: Result<Vec<u8>, RelayError>)
    ensures
        ends_with(media_type@, gzip_suffix()) ==> match gzip_decoded(bytes@) {
            Ok(u) => r matches Ok(v) && v@ == u,
            Err(e) => fails_with(r, "cannot decode OCI layer: "@ + e),
        },
        !ends_with(media_type@, gzip_suffix()) && ends_with(media_type@, zstd_suffix()) ==> match zstd_decoded(bytes@) {
            Ok(u) => r matches Ok(v) && v@ == u,
            Err(e) => fails_with(r, "cannot decode OCI layer: "@ + e),
        } || (exists|e: Seq<char>| #[trigger] fails_with(r, "invalid zstd OCI layer: "@ + e)),
        !ends_with(media_type@, gzip_suffix()) && !ends_with(media_type@, zstd_suffix()) ==> (r matches Ok(v)
            && v@ == bytes@),
{
    proof {
        reveal_strlit("+gzip");
        reveal_strlit("+zstd");
        assert("+gzip"@ =~= gzip_suffix());
        assert("+zstd"@ =~= zstd_suffix());
    }
    if str_ends_with(media_type, "+gzip") {
        match gunzip(bytes) {
            Ok(unpacked) => Ok(unpacked),
            Err(e) => failed_with("cannot decode OCI layer: ", e.as_str()),
        }
    } else if str_ends_with(media_type, "+zstd") {
        match unzstd(bytes) {
            ZstdOutcome::NoDecoder(e) => {
                let r = failed_with("invalid zstd OCI layer: ", e.as_str());
                assert(fails_with(r, "invalid zstd OCI layer: "@ + e@));
                r
            },
            ZstdOutcome::Decoded(Ok(unpacked)) => Ok(unpacked),
            ZstdOutcome::Decoded(Err(e)) => failed_with("cannot decode OCI layer: ", e.as_str()),
        }
    } else {
        let mut out: Vec<u8> = Vec::new();
        let mut i: usize = 0;
        while i < bytes.len()
            invariant
                i <= bytes@.len(),
                out@ == bytes@.subrange(0, i as int),
            decreases bytes@.len() - i,
        {
            out.push(bytes[i]);
            i = i + 1;
            assert(out@ =~= bytes@.subrange(0, i as int));
        }
        assert(bytes@.subrange(0, bytes@.len() as int) =~= bytes@);
        Ok(out)
    }
}

/// Decode a layer by its media type (`+gzip`, `+zstd` or a plain tar) and check
/// the result against the config's diff_id and the archive rules. Where the zstd
/// decoder cannot be created the layer is refused as invalid zstd.
pub fn validate_layer(descriptor: &Descriptor, bytes: &[u8], diff_id: &str) -> (r: Result<
    (),
    RelayError,
>)
    ensures
        ends_with(descriptor.media_type@, gzip_suffix()) ==> answers(
            r,
            decoded_check(gzip_decoded(bytes@), diff_id@),
        ),
        !ends_with(descriptor.media_type@, gzip_suffix()) && ends_with(
            descriptor.media_type@,
            zstd_suffix(),
        ) ==> answers(r, decoded_check(zstd_decoded(bytes@), diff_id@)) || (exists|e: Seq<char>|
            fails_with(r, "invalid zstd OCI layer: "@ + e)),
        !ends_with(descriptor.media_type@, gzip_suffix()) && !ends_with(
            descriptor.media_type@,
            zstd_suffix(),
        ) ==> answers(r, content_check(bytes@, diff_id@)),
{
    proof {
        reveal_strlit("+gzip");
        reveal_strlit("+zstd");
        assert("+gzip"@ =~= gzip_suffix());
        assert("+zstd"@ =~= zstd_suffix());
    }
    if str_ends_with(descriptor.media_type.as_str(), "+gzip") {
        match gunzip(bytes) {
            Ok(unpacked) => check_layer_content(unpacked.as_slice(), diff_id),
            Err(e) => failed_with("cannot decode OCI layer: ", e.as_str()),
        }
    } else if str_ends_with(descriptor.media_type.as_str(), "+zstd") {
        match unzstd(bytes) {
            ZstdOutcome::NoDecoder(e) => {
                let r = failed_with("invalid zstd OCI layer: ", e.as_str());
                assert(fails_with(r, "invalid zstd OCI layer: "@ + e@));
                r
            },
            ZstdOutcome::Decoded(Ok(unpacked)) => check_layer_content(unpacked.as_slice(), diff_id),
            ZstdOutcome::Decoded(Err(e)) => failed_with("cannot decode OCI layer: ", e.as_str()),
        }
    } else {
        check_layer_content(bytes, diff_id)
    }
}

/// How a layer's media type says it is compressed.
#[derive(Debug, Clone, Copy, PartialEq, Eq, Structural)]
pub enum LayerCompression {
    Gzip,
    Zstd,
    Plain,
}

/// The compression a layer's media type names: `+gzip`, else `+zstd`, else none.
pub fn compression_of(media_type: &str) -> (r: LayerCompression)
    ensures
        ends_with(media_type@, gzip_suffix()) ==> r == LayerCompression::Gzip,
        !ends_with(media_type@, gzip_suffix()) && ends_with(media_type@, zstd_suffix()) ==> r
            == LayerCompression::Zstd,
        !ends_with(media_type@, gzip_suffix()) && !ends_with(media_type@, zstd_suffix()) ==> r
            == LayerCompression::Plain,
{
    proof {
        reveal_strlit("+gzip");
        reveal_strlit("+zstd");
        assert("+gzip"@ =~= gzip_suffix());
        assert("+zstd"@ =~= zstd_suffix());
    }
    if str_ends_with(media_type, "+gzip") {
        LayerCompression::Gzip
    } else if str_ends_with(media_type, "+zstd") {
        LayerCompression::Zstd
    } else {
        LayerCompression::Plain
    }
}

} // verus!
