//! OCI images for container-in-VM execution: the guest control protocol, the
//! validation of a local image layout and its layers, and the runtime bundle the
//! guest's crun starts. The host reads files and parses JSON; the rules live here.
use vstd::prelude::*;
use crate::relay_core::{failed, fails_with, is_hex_digit, RelayError};
use crate::relay_wasm::package_char;
use crate::vm::dtb::be32;
pub use crate::text::{join_path, path_join};

pub mod bundle;
pub mod layer;
pub mod layout;

verus! {

pub const CONTAINER_PROTOCOL_VERSION: u32 = 1;

pub const MAX_CONTROL_FRAME: usize = 1048576;

pub const MAX_BLOB_CHUNK: usize = 1048576;

/// A validated image layout: its root and the digests of its manifest, config
/// and filesystem layers, in manifest order.
#[derive(Debug, Clone, PartialEq, Eq)]
pub struct ValidatedLayout {
    pub root: String,
    pub manifest_digest: String,
    pub config_digest: String,
    pub layer_digests: Vec<String>,
}

#[derive(Debug, Clone, PartialEq, Eq)]
pub struct OciBlob {
    pub digest: String,
    pub bytes: u64,
}

/// What the guest imports: the manifest, the config and every blob it may ask for.
#[derive(Debug, Clone, PartialEq, Eq)]
pub struct GuestImagePlan {
    pub version: u32,
    pub manifest_digest: String,
    pub config_digest: String,
    pub blobs: Vec<OciBlob>,
}

#[derive(Debug, Clone, PartialEq, Eq)]
pub enum ContainerCommand {
    Import { image: GuestImagePlan },
    Create { manifest_digest: String },
    Start,
    Stop,
    Logs { cursor: u64 },
    Delete,
}

#[derive(Debug, Clone, PartialEq, Eq)]
pub struct ContainerRequest {
    pub version: u32,
    pub request_id: u64,
    pub container_id: String,
    pub command: ContainerCommand,
}

#[derive(Debug, Clone, PartialEq, Eq)]
pub struct BlobChunk {
    pub digest: String,
    pub offset: u64,
    pub bytes: Vec<u8>,
    pub eof: bool,
}

/// The platform a manifest descriptor names.
#[derive(Debug, Clone, PartialEq, Eq)]
pub struct Platform {
    pub architecture: String,
    pub os: String,
    pub variant: Option<String>,
}

/// A content descriptor of an index or manifest, as the host parsed it.
#[derive(Debug, Clone, PartialEq, Eq)]
pub struct Descriptor {
    pub media_type: String,
    pub digest: String,
    pub size: u64,
    pub platform: Option<Platform>,
}

/// A container id: 1 to 128 ASCII letters, digits, `-`, `_` or `.`.
pub open spec fn container_id_ok(id: Seq<char>) -> bool {
    &&& 0 < id.len() <= 128
    &&& forall|i: int| 0 <= i < id.len() ==> package_char(#[trigger] id[i])
}

/// Whether a request may go to the guest, or the message that refuses it.
pub open spec fn request_check(r: ContainerRequest) -> Result<(), Seq<char>> {
    if r.version != CONTAINER_PROTOCOL_VERSION {
        Err("unsupported Relay container protocol version"@)
    } else if !container_id_ok(r.container_id@) {
        Err("Relay container id is invalid"@)
    } else {
        match r.command {
            ContainerCommand::Import { image } => if image.version != CONTAINER_PROTOCOL_VERSION
                || image.blobs@.len() == 0 {
                Err("Relay guest image plan is invalid"@)
            } else {
                Ok(())
            },
            _ => Ok(()),
        }
    }
}

pub(crate) fn id_is_valid(id: &str) -> (r: bool)
    ensures
        r == container_id_ok(id@),
{
    let n = id.unicode_len();
    if n == 0 || n > 128 {
        return false;
    }
    let mut i: usize = 0;
    while i < n
        invariant
            n == id@.len(),
            i <= n,
            forall|j: int| 0 <= j < i ==> package_char(#[trigger] id@[j]),
        decreases n - i,
    {
        let c = id.get_char(i);
        if !(('a' <= c && c <= 'z') || ('A' <= c && c <= 'Z') || ('0' <= c && c <= '9') || c == '-'
            || c == '_' || c == '.') {
            return false;
        }
        i = i + 1;
    }
    true
}

impl ContainerRequest {
    pub fn new(request_id: u64, container_id: String, command: ContainerCommand) -> (r: Self)
        ensures
            r == (ContainerRequest {
                version: CONTAINER_PROTOCOL_VERSION,
                request_id,
                container_id,
                command,
            }),
    {
        ContainerRequest { version: CONTAINER_PROTOCOL_VERSION, request_id, container_id, command }
    }

    /// Refuse a request of another protocol version, a bad container id, or an
    /// import with a bad image plan.
    pub fn validate(&self) -> (r: Result<(), RelayError>)
        ensures
            match request_check(*self) {
                Ok(_) => r is Ok,
                Err(m) => fails_with(r, m),
            },
    {
        if self.version != CONTAINER_PROTOCOL_VERSION {
            return failed("unsupported Relay container protocol version");
        }
        if !id_is_valid(self.container_id.as_str()) {
            return failed("Relay container id is invalid");
        }
        match &self.command {
            ContainerCommand::Import { image } => {
                if image.version != CONTAINER_PROTOCOL_VERSION || image.blobs.len() == 0 {
                    return failed("Relay guest image plan is invalid");
                }
                Ok(())
            },
            _ => Ok(()),
        }
    }
}

// ---------------------------------------------------------------------------
// Control frames
// ---------------------------------------------------------------------------

/// A control frame: the payload's length as a big-endian `u32`, then the payload.
pub open spec fn control_frame(payload: Seq<u8>) -> Seq<u8> {
    be32(payload.len() as u32) + payload
}

/// The big-endian `u32` in the first four bytes of `b`.
pub open spec fn be32_value(b: Seq<u8>) -> nat {
    (b[0] as nat) * 16777216 + (b[1] as nat) * 65536 + (b[2] as nat) * 256 + (b[3] as nat)
}

/// The payload a frame carries, or the message that refuses the frame.
pub open spec fn frame_payload(frame: Seq<u8>) -> Result<Seq<u8>, Seq<char>> {
    if frame.len() < 4 {
        Err("Relay container control frame is truncated"@)
    } else if be32_value(frame) > MAX_CONTROL_FRAME || frame.len() != be32_value(frame) + 4 {
        Err("Relay container control frame length is invalid"@)
    } else {
        Ok(frame.subrange(4, frame.len() as int))
    }
}

/// Frame `payload`, the request serialized as JSON by the host, once the
/// request is valid and the payload fits a control frame.
pub fn encode_control(request: &ContainerRequest, payload: Vec<u8>) -> (r: Result<Vec<u8>, RelayError>)
    ensures
        match request_check(*request) {
            Err(m) => fails_with(r, m),
            Ok(_) => if payload@.len() > MAX_CONTROL_FRAME {
                fails_with(r, "Relay container control frame is too large"@)
            } else {
                r is Ok && r->Ok_0@ == control_frame(payload@)
            },
        },
{
    request.validate()?;
    if payload.len() > MAX_CONTROL_FRAME {
        return failed("Relay container control frame is too large");
    }
    let n = payload.len() as u32;
    let mut frame: Vec<u8> = Vec::new();
    frame.push((n >> 24u32) as u8);
    frame.push((n >> 16u32) as u8);
    frame.push((n >> 8u32) as u8);
    frame.push(n as u8);
    let mut i: usize = 0;
    while i < payload.len()
        invariant
            i <= payload@.len(),
            n == payload@.len(),
            frame@ == be32(n) + payload@.subrange(0, i as int),
        decreases payload@.len() - i,
    {
        frame.push(payload[i]);
        i = i + 1;
        assert(payload@.subrange(0, i as int) =~= payload@.subrange(0, i - 1).push(payload@[i - 1]));
    }
    assert(payload@.subrange(0, i as int) =~= payload@);
    Ok(frame)
}

/// The payload of a control frame, for the host to parse as a request and
/// `validate`.
pub fn decode_control(frame: &[u8]) -> (r: Result<Vec<u8>, RelayError>)
    ensures
        match frame_payload(frame@) {
            Ok(p) => r is Ok && r->Ok_0@ == p,
            Err(m) => fails_with(r, m),
        },
{
    if frame.len() < 4 {
        return failed("Relay container control frame is truncated");
    }
    let length: u64 = (frame[0] as u64) * 16777216 + (frame[1] as u64) * 65536 + (frame[2] as u64)
        * 256 + (frame[3] as u64);
    if length > MAX_CONTROL_FRAME as u64 || frame.len() as u64 != length + 4 {
        return failed("Relay container control frame length is invalid");
    }
    let mut payload: Vec<u8> = Vec::new();
    let mut i: usize = 4;
    while i < frame.len()
        invariant
            4 <= i <= frame@.len(),
            payload@ == frame@.subrange(4, i as int),
        decreases frame@.len() - i,
    {
        payload.push(frame[i]);
        i = i + 1;
        assert(frame@.subrange(4, i as int) =~= frame@.subrange(4, i - 1).push(frame@[i - 1]));
    }
    Ok(payload)
}

/// A frame that `encode_control` built starts with its payload's length as a
/// big-endian `u32` and gives its payload back to `decode_control`; a frame
/// shorter than its header, or whose header disagrees with its length or
/// passes the limit, is refused.
pub proof fn lemma_control_round_trip(payload: Seq<u8>, frame: Seq<u8>)
    requires
        payload.len() <= MAX_CONTROL_FRAME,
    ensures
        control_frame(payload).len() == payload.len() + 4,
        be32_value(control_frame(payload)) == payload.len(),
        frame_payload(control_frame(payload)) == Ok::<Seq<u8>, Seq<char>>(payload),
        (frame.len() < 4 || be32_value(frame) + 4 != frame.len() || be32_value(frame)
            > MAX_CONTROL_FRAME) ==> frame_payload(frame) is Err,
{
    let n = payload.len() as u32;
    let f = control_frame(payload);
    assert(f[0] == (n >> 24u32) as u8 && f[1] == (n >> 16u32) as u8 && f[2] == (n >> 8u32) as u8
        && f[3] == n as u8);
    assert((((n >> 24u32) as u8) as nat) * 16777216 + (((n >> 16u32) as u8) as nat) * 65536 + (((n
        >> 8u32) as u8) as nat) * 256 + ((n as u8) as nat) == n) by (bit_vector);
    assert(f.subrange(4, f.len() as int) =~= payload);
}

// ---------------------------------------------------------------------------
// Blob paths
// ---------------------------------------------------------------------------

pub open spec fn sha256_prefix() -> Seq<char> {
    seq!['s', 'h', 'a', '2', '5', '6', ':']
}

/// The 64 hexadecimal digits of a `sha256:` digest, or `None` for any other text.
pub open spec fn sha256_hex_of(digest: Seq<char>) -> Option<Seq<char>> {
    if digest.len() == 71 && digest.subrange(0, 7) == sha256_prefix() && forall|i: int|
        7 <= i < 71 ==> is_hex_digit(#[trigger] digest[i]) {
        Some(digest.subrange(7, 71))
    } else {
        None
    }
}

/// Where an image layout keeps the blob of a `sha256:` digest.
pub open spec fn blob_location(root: Seq<char>, hex: Seq<char>) -> Seq<char> {
    path_join(root, seq!['b', 'l', 'o', 'b', 's', '/', 's', 'h', 'a', '2', '5', '6', '/'] + hex)
}

/// The 64 hexadecimal digits of a `sha256:` digest.
pub(crate) fn sha256_hex(digest: &str) -> (r: Option<String>)
    ensures
        match sha256_hex_of(digest@) {
            Some(h) => r is Some && r->Some_0@ == h,
            None => r is None,
        },
{
    let n = digest.unicode_len();
    if n != 71 {
        return None;
    }
    proof {
        reveal_strlit("sha256:");
        assert("sha256:"@ =~= sha256_prefix());
    }
    let prefix = digest.substring_char(0, 7);
    if !crate::text::str_eq(prefix, "sha256:") {
        return None;
    }
    let mut i: usize = 7;
    while i < 71
        invariant
            n == digest@.len(),
            n == 71,
            7 <= i <= 71,
            forall|j: int| 7 <= j < i ==> is_hex_digit(#[trigger] digest@[j]),
        decreases 71 - i,
    {
        let c = digest.get_char(i);
        if !(('0' <= c && c <= '9') || ('a' <= c && c <= 'f') || ('A' <= c && c <= 'F')) {
            return None;
        }
        i = i + 1;
    }
    Some(String::from_str(digest.substring_char(7, 71)))
}

/// The path of a digest's blob under `root`; the digest must be `sha256:` and
/// 64 hexadecimal digits.
pub fn blob_path(root: &str, digest: &str) -> (r: Result<String, RelayError>)
    ensures
        match sha256_hex_of(digest@) {
            Some(h) => r is Ok && r->Ok_0@ == blob_location(root@, h),
            None => fails_with(r, "OCI descriptor digest is not sha256"@),
        },
{
    match sha256_hex(digest) {
        None => failed("OCI descriptor digest is not sha256"),
        Some(hex) => {
            let mut rel = String::from_str("blobs/sha256/");
            rel.append(hex.as_str());
            proof {
                reveal_strlit("blobs/sha256/");
                assert(rel@[0] == 'b');
                assert("blobs/sha256/"@ =~= seq!['b', 'l', 'o', 'b', 's', '/', 's', 'h', 'a', '2', '5', '6', '/']);
            }
            Ok(join_path(root, rel.as_str()))
        },
    }
}

/// The OCI architecture name of a Rust target architecture: `aarch64` is
/// `arm64`, `x86_64` is `amd64`, any other keeps its name.
pub fn target_architecture(arch: &str) -> (r: String)
    ensures
        arch@ == "aarch64"@ ==> r@ == "arm64"@,
        arch@ == "x86_64"@ ==> r@ == "amd64"@,
        arch@ != "aarch64"@ && arch@ != "x86_64"@ ==> r@ == arch@,
{
    proof {
        reveal_strlit("aarch64");
        reveal_strlit("x86_64");
        assert("aarch64"@[0] != "x86_64"@[0]);
    }
    if crate::text::str_eq(arch, "aarch64") {
        String::from_str("arm64")
    } else if crate::text::str_eq(arch, "x86_64") {
        String::from_str("amd64")
    } else {
        String::from_str(arch)
    }
}

} // verus!
