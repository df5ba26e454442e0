//! Validation of a local OCI image layout: its marker and index, the one manifest
//! of the exact target platform, its config, and every blob it references.
use vstd::prelude::*;
use crate::relay_core::{answers, failed, failed_with, fails_with, RelayError};
use crate::relay_oci::layer::{decoded_check, gzip_decoded, gzip_suffix, validate_layer, zstd_decoded, zstd_suffix, content_check};
use crate::relay_oci::{
    blob_location, blob_path, sha256_hex, sha256_hex_of, BlobChunk, Descriptor, GuestImagePlan,
    OciBlob, ValidatedLayout, CONTAINER_PROTOCOL_VERSION, MAX_BLOB_CHUNK,
};
use crate::text::{ends_with, str_eq};
use crate::vm::guest::{digest_matches, digest_matches_text, sha256, sha256_digest};

verus! {

pub const OCI_LAYOUT_VERSION: &'static str = "1.0.0";

pub const OCI_INDEX: &'static str = "application/vnd.oci.image.index.v1+json";

pub const OCI_MANIFEST: &'static str = "application/vnd.oci.image.manifest.v1+json";

pub const OCI_CONFIG: &'static str = "application/vnd.oci.image.config.v1+json";

pub const OCI_LAYER_PREFIX: &'static str = "application/vnd.oci.image.layer.v1.tar";

pub const DOCKER_CONFIG: &'static str = "application/vnd.docker.container.image.v1+json";

pub const DOCKER_LAYER_PREFIX: &'static str = "application/vnd.docker.image.rootfs.diff.tar";

/// An image index as the host parsed it.
#[derive(Debug, Clone, PartialEq, Eq)]
pub struct Index {
    pub schema_version: u32,
    pub media_type: String,
    pub manifests: Vec<Descriptor>,
}

/// An image manifest as the host parsed it.
#[derive(Debug, Clone, PartialEq, Eq)]
pub struct Manifest {
    pub schema_version: u32,
    pub config: Descriptor,
    pub layers: Vec<Descriptor>,
}

#[derive(Debug, Clone, PartialEq, Eq)]
pub struct RootFs {
    pub kind: String,
    pub diff_ids: Vec<String>,
}

/// An image config as the host parsed it.
#[derive(Debug, Clone, PartialEq, Eq)]
pub struct ImageConfig {
    pub architecture: String,
    pub os: String,
    pub rootfs: RootFs,
}

/// A JSON document of the layout: unreadable, not of the expected shape (with
/// the parser's message), or parsed.
pub enum Document<T> {
    Unreadable(String),
    Invalid(String),
    Parsed(T),
}

/// A blob the host read (or failed to read) at the path `blob_path` gives, and
/// what parsing it as JSON gave.
pub struct ParsedBlob<T> {
    pub read: Result<Vec<u8>, String>,
    pub parsed: Result<T, String>,
}

/// What the host found under a layout root, following its documents: the
/// marker's `imageLayoutVersion`, the index, the blob of the manifest that
/// `select_manifest` picks, the blob of that manifest's config, and the blob of
/// each of its layers, in order. What no step reaches is not looked at.
pub struct LayoutFiles {
    pub is_dir: bool,
    pub marker: Document<String>,
    pub index: Document<Index>,
    pub manifest: ParsedBlob<Manifest>,
    pub config: ParsedBlob<ImageConfig>,
    pub layers: Vec<Result<Vec<u8>, String>>,
}

/// The document's value, or the message for a document that could not be had.
pub open spec fn document_check<T>(d: Document<T>, name: Seq<char>) -> Result<T, Seq<char>> {
    match d {
        Document::Unreadable(e) => Err("cannot read "@ + name + ": "@ + e@),
        Document::Invalid(e) => Err("invalid "@ + name + ": "@ + e@),
        Document::Parsed(v) => Ok(v),
    }
}

/// Whether a read blob is the one a descriptor names: its size and its digest.
pub open spec fn blob_check(root: Seq<char>, d: Descriptor, read: Result<Vec<u8>, String>) -> Result<
    (),
    Seq<char>,
> {
    match sha256_hex_of(d.digest@) {
        None => Err("OCI descriptor digest is not sha256"@),
        Some(h) => match read {
            Err(e) => Err("cannot read OCI blob "@ + blob_location(root, h) + ": "@ + e@),
            Ok(b) => if b@.len() != d.size as nat {
                Err("OCI blob size differs from descriptor"@)
            } else if !digest_matches(sha256(b@), h) {
                Err("OCI blob digest differs from descriptor"@)
            } else {
                Ok(())
            },
        },
    }
}

/// On arm64 only the `v8` variant, or none, is the target.
pub open spec fn variant_ok(architecture: Seq<char>, variant: Option<String>) -> bool {
    architecture != "arm64"@ || variant is None || variant->Some_0@ == "v8"@
}

/// Whether a descriptor is a manifest for exactly `os` and `architecture`.
pub open spec fn platform_match(d: Descriptor, os: Seq<char>, architecture: Seq<char>) -> bool {
    &&& d.media_type@ == OCI_MANIFEST@
    &&& d.platform is Some
    &&& d.platform->Some_0.os@ == os
    &&& d.platform->Some_0.architecture@ == architecture
    &&& variant_ok(architecture, d.platform->Some_0.variant)
}

/// The first manifest from `i` on that matches the target exactly.
pub open spec fn first_match(ms: Seq<Descriptor>, os: Seq<char>, architecture: Seq<char>, i: int) -> Option<int>
    decreases ms.len() - i,
{
    if i < 0 || i >= ms.len() {
        None
    } else if platform_match(ms[i], os, architecture) {
        Some(i)
    } else {
        first_match(ms, os, architecture, i + 1)
    }
}

proof fn lemma_first_match(ms: Seq<Descriptor>, os: Seq<char>, architecture: Seq<char>, i: int)
    requires
        0 <= i,
    ensures
        first_match(ms, os, architecture, i) is Some ==> {
            let k = first_match(ms, os, architecture, i)->Some_0;
            i <= k < ms.len() && platform_match(ms[k], os, architecture)
        },
    decreases ms.len() - i,
{
    if i < ms.len() && !platform_match(ms[i], os, architecture) {
        lemma_first_match(ms, os, architecture, i + 1);
    }
}

/// The first match from `i` on is `k` exactly when `k` is the least index
/// from `i` on whose descriptor is a manifest for the platform; there is none
/// exactly when no descriptor from `i` on is one.
pub proof fn lemma_first_match_is_least(
    ms: Seq<Descriptor>,
    os: Seq<char>,
    architecture: Seq<char>,
    i: int,
    k: int,
)
    requires
        0 <= i,
    ensures
        first_match(ms, os, architecture, i) == Some(k) <==> (i <= k < ms.len() && platform_match(
            ms[k],
            os,
            architecture,
        ) && forall|j: int| i <= j < k ==> !#[trigger] platform_match(ms[j], os, architecture)),
        first_match(ms, os, architecture, i) is None <==> forall|j: int|
            i <= j < ms.len() ==> !#[trigger] platform_match(ms[j], os, architecture),
    decreases ms.len() - i,
{
    if i < ms.len() {
        lemma_first_match_is_least(ms, os, architecture, i + 1, k);
        if platform_match(ms[i], os, architecture) {
            assert(first_match(ms, os, architecture, i) == Some(i));
        } else {
            assert(first_match(ms, os, architecture, i) == first_match(ms, os, architecture, i + 1));
        }
    }
}

/// Whether a layer's media type is an OCI or Docker tar layer.
pub open spec fn layer_media_ok(m: Seq<char>) -> bool {
    ||| (m.len() >= OCI_LAYER_PREFIX@.len() && m.subrange(0, OCI_LAYER_PREFIX@.len() as int)
        == OCI_LAYER_PREFIX@)
    ||| (m.len() >= DOCKER_LAYER_PREFIX@.len() && m.subrange(0, DOCKER_LAYER_PREFIX@.len() as int)
        == DOCKER_LAYER_PREFIX@)
}

/// The check of one layer's decoding and content, by its media type; `None`
/// for a zstd layer, whose decoder may be unavailable.
pub open spec fn layer_content(d: Descriptor, bytes: Seq<u8>, diff_id: Seq<char>) -> Result<
    (),
    Seq<char>,
> {
    if ends_with(d.media_type@, gzip_suffix()) {
        decoded_check(gzip_decoded(bytes), diff_id)
    } else if ends_with(d.media_type@, zstd_suffix()) {
        decoded_check(zstd_decoded(bytes), diff_id)
    } else {
        content_check(bytes, diff_id)
    }
}

/// The layers from `i` on: media type, blob, then decoded content.
pub open spec fn layers_check(
    root: Seq<char>,
    layers: Seq<Descriptor>,
    diff_ids: Seq<String>,
    blobs: Seq<Result<Vec<u8>, String>>,
    i: int,
) -> Result<(), Seq<char>>
    decreases layers.len() - i,
{
    if i < 0 || i >= layers.len() {
        Ok(())
    } else if !layer_media_ok(layers[i].media_type@) {
        Err("OCI manifest layer media type is unsupported"@)
    } else {
        match blob_check(root, layers[i], blobs[i]) {
            Err(m) => Err(m),
            Ok(_) => match layer_content(layers[i], blobs[i]->Ok_0@, diff_ids[i]@) {
                Err(m) => Err(m),
                Ok(_) => layers_check(root, layers, diff_ids, blobs, i + 1),
            },
        }
    }
}

/// A validated layout as `(root, manifest digest, config digest, layer digests)`.
pub type LayoutView = (Seq<char>, Seq<char>, Seq<char>, Seq<Seq<char>>);

pub open spec fn layout_view(l: ValidatedLayout) -> LayoutView {
    (l.root@, l.manifest_digest@, l.config_digest@, l.layer_digests@.map_values(|d: String| d@))
}

/// The image config's check against the target.
pub open spec fn config_matches(c: ImageConfig, os: Seq<char>, architecture: Seq<char>) -> bool {
    c.os@ == os && c.architecture@ == architecture && c.rootfs.kind@ == "layers"@
}

/// The verdict on a layout: each step in the order the layout is read.
pub open spec fn layout_verdict(
    root: Seq<char>,
    os: Seq<char>,
    architecture: Seq<char>,
    f: LayoutFiles,
) -> Result<LayoutView, Seq<char>> {
    if !f.is_dir {
        Err("OCI input is not an image-layout directory"@)
    } else {
        match document_check(f.marker, "OCI layout marker"@) {
            Err(m) => Err(m),
            Ok(version) => if version@ != OCI_LAYOUT_VERSION@ {
                Err("unsupported OCI image-layout version"@)
            } else {
                match document_check(f.index, "OCI index"@) {
                    Err(m) => Err(m),
                    Ok(index) => if index.schema_version != 2 {
                        Err("OCI index schemaVersion must be 2"@)
                    } else if index.media_type@ != OCI_INDEX@ {
                        Err("OCI index media type is unsupported"@)
                    } else {
                        match first_match(index.manifests@, os, architecture, 0) {
                            None => Err("OCI index has no exact target platform manifest"@),
                            Some(k) => manifest_verdict(
                                root,
                                os,
                                architecture,
                                index.manifests@[k],
                                f,
                            ),
                        }
                    },
                }
            },
        }
    }
}

/// The verdict from the selected manifest descriptor on.
pub open spec fn manifest_verdict(
    root: Seq<char>,
    os: Seq<char>,
    architecture: Seq<char>,
    selected: Descriptor,
    f: LayoutFiles,
) -> Result<LayoutView, Seq<char>> {
    match blob_check(root, selected, f.manifest.read) {
        Err(m) => Err(m),
        Ok(_) => match f.manifest.parsed {
            Err(e) => Err("invalid OCI manifest: "@ + e@),
            Ok(manifest) => if manifest.schema_version != 2 {
                Err("OCI manifest schemaVersion must be 2"@)
            } else if manifest.config.media_type@ != OCI_CONFIG@ && manifest.config.media_type@
                != DOCKER_CONFIG@ {
                Err("OCI manifest config media type is unsupported"@)
            } else {
                match blob_check(root, manifest.config, f.config.read) {
                    Err(m) => Err(m),
                    Ok(_) => match f.config.parsed {
                        Err(e) => Err("invalid OCI image config: "@ + e@),
                        Ok(config) => if !config_matches(config, os, architecture) {
                            Err("OCI image config does not match target platform"@)
                        } else if manifest.layers@.len() == 0 {
                            Err("OCI manifest contains no filesystem layers"@)
                        } else if config.rootfs.diff_ids@.len() != manifest.layers@.len() {
                            Err("OCI config diff_ids do not match filesystem layers"@)
                        } else {
                            match layers_check(
                                root,
                                manifest.layers@,
                                config.rootfs.diff_ids@,
                                f.layers@,
                                0,
                            ) {
                                Err(m) => Err(m),
                                Ok(_) => Ok(
                                    (
                                        root,
                                        selected.digest@,
                                        manifest.config.digest@,
                                        manifest.layers@.map_values(|d: Descriptor| d.digest@),
                                    ),
                                ),
                            }
                        },
                    },
                }
            }
        },
    }
}

/// The layer descriptors of a parsed manifest blob, if it parsed.
pub open spec fn parsed_layers(f: LayoutFiles) -> Seq<Descriptor> {
    match f.manifest.parsed {
        Ok(m) => m.layers@,
        Err(_) => seq![],
    }
}

/// Check a read blob against its descriptor: its size and SHA-256 digest.
pub fn verify_blob(root: &str, descriptor: &Descriptor, read: &Result<Vec<u8>, String>) -> (r:
    Result<(), RelayError>)
    ensures
        answers(r, blob_check(root@, *descriptor, *read)),
{
    let path = blob_path(root, descriptor.digest.as_str())?;
    let hex = match sha256_hex(descriptor.digest.as_str()) {
        Some(h) => h,
        None => return failed("OCI descriptor digest is not sha256"),
    };
    match read {
        Err(e) => {
            let mut message = String::from_str("cannot read OCI blob ");
            message.append(path.as_str());
            message.append(": ");
            message.append(e.as_str());
            Err(RelayError::Failed(message))
        },
        Ok(bytes) => {
            if bytes.len() as u64 != descriptor.size {
                return failed("OCI blob size differs from descriptor");
            }
            let digest = sha256_digest(bytes.as_slice());
            if !digest_matches_text(digest.as_slice(), hex.as_str()) {
                return failed("OCI blob digest differs from descriptor");
            }
            Ok(())
        },
    }
}

fn variant_matches(architecture: &str, variant: &Option<String>) -> (r: bool)
    ensures
        r == variant_ok(architecture@, *variant),
{
    if !str_eq(architecture, "arm64") {
        return true;
    }
    match variant {
        None => true,
        Some(v) => str_eq(v.as_str(), "v8"),
    }
}

fn platform_matches(d: &Descriptor, os: &str, architecture: &str) -> (r: bool)
    ensures
        r == platform_match(*d, os@, architecture@),
{
    if !str_eq(d.media_type.as_str(), OCI_MANIFEST) {
        return false;
    }
    match &d.platform {
        None => false,
        Some(p) => str_eq(p.os.as_str(), os) && str_eq(p.architecture.as_str(), architecture)
            && variant_matches(architecture, &p.variant),
    }
}

/// The index of the first manifest for exactly `os` and `architecture` (an
/// arm64 manifest only without a variant or with `v8`).
pub fn select_manifest(index: &Index, os: &str, architecture: &str) -> (r: Option<usize>)
    ensures
        r is Some <==> first_match(index.manifests@, os@, architecture@, 0) is Some,
        r is Some ==> first_match(index.manifests@, os@, architecture@, 0) == Some(
            r->Some_0 as int,
        ) && r->Some_0 < index.manifests@.len(),
        r matches Some(k) ==> platform_match(index.manifests@[k as int], os@, architecture@) && forall|
            j: int,
        | 0 <= j < k ==> !platform_match(#[trigger] index.manifests@[j], os@, architecture@),
        r is None ==> forall|j: int|
            0 <= j < index.manifests@.len() ==> !platform_match(
                #[trigger] index.manifests@[j],
                os@,
                architecture@,
            ),
{
    proof {
        lemma_first_match(index.manifests@, os@, architecture@, 0);
    }
    let mut i: usize = 0;
    while i < index.manifests.len()
        invariant
            i <= index.manifests@.len(),
            forall|j: int| 0 <= j < i ==> !platform_match(#[trigger] index.manifests@[j], os@, architecture@),
            first_match(index.manifests@, os@, architecture@, i as int) == first_match(
                index.manifests@,
                os@,
                architecture@,
                0,
            ),
        decreases index.manifests@.len() - i,
    {
        if platform_matches(&index.manifests[i], os, architecture) {
            return Some(i);
        }
        i = i + 1;
    }
    None
}

/// A layer refused because the zstd decoder could not be created.
pub open spec fn zstd_refusal<T>(r: Result<T, RelayError>) -> bool {
    exists|e: Seq<char>| fails_with(r, "invalid zstd OCI layer: "@ + e)
}

fn has_prefix(s: &str, prefix: &str) -> (r: bool)
    ensures
        r == (s@.len() >= prefix@.len() && s@.subrange(0, prefix@.len() as int) == prefix@),
{
    let n = s.unicode_len();
    let m = prefix.unicode_len();
    if n < m {
        return false;
    }
    str_eq(s.substring_char(0, m), prefix)
}

fn check_layers(
    root: &str,
    layers: &Vec<Descriptor>,
    diff_ids: &Vec<String>,
    blobs: &Vec<Result<Vec<u8>, String>>,
) -> (r: Result<(), RelayError>)
    requires
        diff_ids@.len() == layers@.len(),
        blobs@.len() == layers@.len(),
    ensures
        answers(r, layers_check(root@, layers@, diff_ids@, blobs@, 0)) || zstd_refusal(r),
{
    let mut i: usize = 0;
    while i < layers.len()
        invariant
            diff_ids@.len() == layers@.len(),
            blobs@.len() == layers@.len(),
            i <= layers@.len(),
            layers_check(root@, layers@, diff_ids@, blobs@, i as int) == layers_check(
                root@,
                layers@,
                diff_ids@,
                blobs@,
                0,
            ),
        decreases layers@.len() - i,
    {
        let layer = &layers[i];
        if !has_prefix(layer.media_type.as_str(), OCI_LAYER_PREFIX) && !has_prefix(
            layer.media_type.as_str(),
            DOCKER_LAYER_PREFIX,
        ) {
            return failed("OCI manifest layer media type is unsupported");
        }
        verify_blob(root, layer, &blobs[i])?;
        match &blobs[i] {
            Ok(bytes) => {
                validate_layer(layer, bytes.as_slice(), diff_ids[i].as_str())?;
            },
            Err(_) => {},
        }
        i = i + 1;
    }
    Ok(())
}

fn digests_of(layers: &Vec<Descriptor>) -> (r: Vec<String>)
    ensures
        r@.map_values(|d: String| d@) == layers@.map_values(|d: Descriptor| d.digest@),
{
    let mut out: Vec<String> = Vec::new();
    let mut i: usize = 0;
    while i < layers.len()
        invariant
            i <= layers@.len(),
            out@.map_values(|d: String| d@) == layers@.subrange(0, i as int).map_values(
                |d: Descriptor| d.digest@,
            ),
        decreases layers@.len() - i,
    {
        out.push(layers[i].digest.clone());
        i = i + 1;
        assert(layers@.subrange(0, i as int).map_values(|d: Descriptor| d.digest@) =~= layers@.subrange(
            0,
            i - 1,
        ).map_values(|d: Descriptor| d.digest@).push(layers@[i - 1].digest@));
        assert(out@.map_values(|d: String| d@) =~= layers@.subrange(0, i as int).map_values(
            |d: Descriptor| d.digest@,
        ));
    }
    assert(layers@.subrange(0, i as int) =~= layers@);
    out
}

fn document_value<'a, T>(d: &'a Document<T>, name: &str) -> (r: Result<&'a T, RelayError>)
    ensures
        match document_check(*d, name@) {
            Ok(v) => r is Ok && *r->Ok_0 == v,
            Err(m) => fails_with(r, m),
        },
{
    match d {
        Document::Unreadable(e) => {
            let mut message = String::from_str("cannot read ");
            message.append(name);
            message.append(": ");
            message.append(e.as_str());
            Err(RelayError::Failed(message))
        },
        Document::Invalid(e) => {
            let mut message = String::from_str("invalid ");
            message.append(name);
            message.append(": ");
            message.append(e.as_str());
            Err(RelayError::Failed(message))
        },
        Document::Parsed(v) => Ok(v),
    }
}

/// Validate an OCI image layout under `root` for an exact Linux platform, and
/// every blob it references, from what the host found there. Steps run in order
/// and the first refusal stands; where a zstd layer's decoder cannot be created
/// the layout is refused as invalid zstd.
pub fn validate_layout(root: &str, target_os: &str, target_architecture: &str, files: &LayoutFiles) -> (r:
    Result<ValidatedLayout, RelayError>)
    requires
        files.manifest.parsed is Ok ==> files.layers@.len()
            == files.manifest.parsed->Ok_0.layers@.len(),
    ensures
        match layout_verdict(root@, target_os@, target_architecture@, *files) {
            Ok(v) => (r is Ok && layout_view(r->Ok_0) == v) || zstd_refusal(r),
            Err(m) => fails_with(r, m) || zstd_refusal(r),
        },
{
    if !files.is_dir {
        return failed("OCI input is not an image-layout directory");
    }
    let version = document_value(&files.marker, "OCI layout marker")?;
    if !str_eq(version.as_str(), OCI_LAYOUT_VERSION) {
        return failed("unsupported OCI image-layout version");
    }
    let index = document_value(&files.index, "OCI index")?;
    if index.schema_version != 2 {
        return failed("OCI index schemaVersion must be 2");
    }
    if !str_eq(index.media_type.as_str(), OCI_INDEX) {
        return failed("OCI index media type is unsupported");
    }
    let k = match select_manifest(index, target_os, target_architecture) {
        None => return failed("OCI index has no exact target platform manifest"),
        Some(k) => k,
    };
    let selected = &index.manifests[k];
    assert(layout_verdict(root@, target_os@, target_architecture@, *files) == manifest_verdict(
        root@,
        target_os@,
        target_architecture@,
        *selected,
        *files,
    ));
    verify_blob(root, selected, &files.manifest.read)?;
    let manifest = match &files.manifest.parsed {
        Err(e) => return failed_with("invalid OCI manifest: ", e.as_str()),
        Ok(m) => m,
    };
    if manifest.schema_version != 2 {
        return failed("OCI manifest schemaVersion must be 2");
    }
    if !str_eq(manifest.config.media_type.as_str(), OCI_CONFIG) && !str_eq(
        manifest.config.media_type.as_str(),
        DOCKER_CONFIG,
    ) {
        return failed("OCI manifest config media type is unsupported");
    }
    verify_blob(root, &manifest.config, &files.config.read)?;
    let config = match &files.config.parsed {
        Err(e) => return failed_with("invalid OCI image config: ", e.as_str()),
        Ok(c) => c,
    };
    if !str_eq(config.os.as_str(), target_os) || !str_eq(
        config.architecture.as_str(),
        target_architecture,
    ) || !str_eq(config.rootfs.kind.as_str(), "layers") {
        return failed("OCI image config does not match target platform");
    }
    if manifest.layers.len() == 0 {
        return failed("OCI manifest contains no filesystem layers");
    }
    if config.rootfs.diff_ids.len() != manifest.layers.len() {
        return failed("OCI config diff_ids do not match filesystem layers");
    }
    check_layers(root, &manifest.layers, &config.rootfs.diff_ids, &files.layers)?;
    Ok(
        ValidatedLayout {
            root: String::from_str(root),
            manifest_digest: selected.digest.clone(),
            config_digest: manifest.config.digest.clone(),
            layer_digests: digests_of(&manifest.layers),
        },
    )
}

// ---------------------------------------------------------------------------
// Guest delivery
// ---------------------------------------------------------------------------

/// The digests the guest may fetch: manifest, config, then each layer.
pub open spec fn delivery_digests(l: ValidatedLayout) -> Seq<Seq<char>> {
    seq![l.manifest_digest@, l.config_digest@] + l.layer_digests@.map_values(|d: String| d@)
}

pub open spec fn blobs_view(blobs: Seq<OciBlob>) -> Seq<(Seq<char>, u64)> {
    blobs.map_values(|b: OciBlob| (b.digest@, b.bytes))
}

/// The blobs from `i` on with their sizes, or the message of the first digest
/// that is not sha256 or blob the host could not stat.
pub open spec fn delivery_blobs(
    root: Seq<char>,
    digests: Seq<Seq<char>>,
    sizes: Seq<Result<u64, String>>,
    i: int,
) -> Result<Seq<(Seq<char>, u64)>, Seq<char>>
    decreases digests.len() - i,
{
    if i < 0 || i >= digests.len() {
        Ok(seq![])
    } else {
        match sha256_hex_of(digests[i]) {
            None => Err("OCI descriptor digest is not sha256"@),
            Some(h) => match sizes[i] {
                Err(e) => Err(
                    "cannot stat OCI delivery blob "@ + blob_location(root, h) + ": "@ + e@,
                ),
                Ok(n) => match delivery_blobs(root, digests, sizes, i + 1) {
                    Err(m) => Err(m),
                    Ok(rest) => Ok(seq![(digests[i], n)] + rest),
                },
            },
        }
    }
}

pub type PlanView = (u32, Seq<char>, Seq<char>, Seq<(Seq<char>, u64)>);

pub open spec fn plan_view(p: GuestImagePlan) -> PlanView {
    (p.version, p.manifest_digest@, p.config_digest@, blobs_view(p.blobs@))
}

proof fn lemma_delivery_blobs_step(
    root: Seq<char>,
    digests: Seq<Seq<char>>,
    sizes: Seq<Result<u64, String>>,
    i: int,
    done: Seq<(Seq<char>, u64)>,
)
    requires
        0 <= i < digests.len(),
        sha256_hex_of(digests[i]) is Some,
        sizes[i] is Ok,
        delivery_blobs(root, digests, sizes, 0) == (match delivery_blobs(root, digests, sizes, i) {
            Err(m) => Err(m),
            Ok(rest) => Ok(done + rest),
        }),
    ensures
        delivery_blobs(root, digests, sizes, 0) == (match delivery_blobs(
            root,
            digests,
            sizes,
            i + 1,
        ) {
            Err(m) => Err(m),
            Ok(rest) => Ok(done.push((digests[i], sizes[i]->Ok_0)) + rest),
        }),
{
    match delivery_blobs(root, digests, sizes, i + 1) {
        Err(m) => {},
        Ok(rest) => {
            assert(done + (seq![(digests[i], sizes[i]->Ok_0)] + rest) =~= done.push(
                (digests[i], sizes[i]->Ok_0),
            ) + rest);
        },
    }
}

impl ValidatedLayout {
    /// The digests the guest may fetch, in delivery order.
    pub fn delivery_digests(&self) -> (r: Vec<String>)
        ensures
            r@.map_values(|d: String| d@) == delivery_digests(*self),
    {
        let mut out: Vec<String> = Vec::new();
        out.push(self.manifest_digest.clone());
        out.push(self.config_digest.clone());
        let mut i: usize = 0;
        while i < self.layer_digests.len()
            invariant
                i <= self.layer_digests@.len(),
                out@.map_values(|d: String| d@) == seq![self.manifest_digest@, self.config_digest@]
                    + self.layer_digests@.subrange(0, i as int).map_values(|d: String| d@),
            decreases self.layer_digests@.len() - i,
        {
            let ghost before = out@.map_values(|d: String| d@);
            out.push(self.layer_digests[i].clone());
            assert(out@.map_values(|d: String| d@) =~= before.push(self.layer_digests@[i as int]@));
            i = i + 1;
            assert(self.layer_digests@.subrange(0, i as int).map_values(|d: String| d@) =~= self.layer_digests@.subrange(0, i - 1).map_values(|d: String| d@).push(self.layer_digests@[i - 1]@));
            assert(out@.map_values(|d: String| d@) =~= seq![self.manifest_digest@, self.config_digest@]
                + self.layer_digests@.subrange(0, i as int).map_values(|d: String| d@));
        }
        assert(self.layer_digests@.subrange(0, i as int) =~= self.layer_digests@);
        out
    }

    /// The image plan the guest imports, from the sizes the host found for the
    /// blobs of `delivery_digests`, in that order.
    pub fn guest_image_plan(&self, sizes: &Vec<Result<u64, String>>) -> (r: Result<
        GuestImagePlan,
        RelayError,
    >)
        requires
            sizes@.len() == self.layer_digests@.len() + 2,
        ensures
            match delivery_blobs(self.root@, delivery_digests(*self), sizes@, 0) {
                Ok(blobs) => r is Ok && plan_view(r->Ok_0) == (
                    CONTAINER_PROTOCOL_VERSION,
                    self.manifest_digest@,
                    self.config_digest@,
                    blobs,
                ),
                Err(m) => fails_with(r, m),
            },
    {
        let digests = self.delivery_digests();
        let ghost ds = delivery_digests(*self);
        let mut blobs: Vec<OciBlob> = Vec::new();
        let mut i: usize = 0;
        while i < digests.len()
            invariant
                digests@.map_values(|d: String| d@) == ds,
                ds == delivery_digests(*self),
                sizes@.len() == ds.len(),
                i <= ds.len(),
                delivery_blobs(self.root@, ds, sizes@, 0) == (match delivery_blobs(
                    self.root@,
                    ds,
                    sizes@,
                    i as int,
                ) {
                    Err(m) => Err(m),
                    Ok(rest) => Ok(blobs_view(blobs@) + rest),
                }),
            decreases ds.len() - i,
        {
            assert(digests@[i as int]@ == ds[i as int]);
            let path = match blob_path(self.root.as_str(), digests[i].as_str()) {
                Ok(p) => p,
                Err(e) => {
                    assert(delivery_blobs(self.root@, ds, sizes@, i as int) == Err::<Seq<(Seq<char>, u64)>, Seq<char>>("OCI descriptor digest is not sha256"@));
                    return Err(e);
                },
            };
            match &sizes[i] {
                Err(e) => {
                    let mut message = String::from_str("cannot stat OCI delivery blob ");
                    message.append(path.as_str());
                    message.append(": ");
                    message.append(e.as_str());
                    assert(delivery_blobs(self.root@, ds, sizes@, i as int) == Err::<Seq<(Seq<char>, u64)>, Seq<char>>(message@));
                    return Err(RelayError::Failed(message));
                },
                Ok(n) => {
                    proof {
                        lemma_delivery_blobs_step(self.root@, ds, sizes@, i as int, blobs_view(blobs@));
                    }
                    let ghost before = blobs@;
                    blobs.push(OciBlob { digest: digests[i].clone(), bytes: *n });
                    assert(blobs_view(blobs@) =~= blobs_view(before).push((ds[i as int], *n)));
                },
            }
            i = i + 1;
        }
        assert(blobs_view(blobs@) + seq![] =~= blobs_view(blobs@));
        Ok(
            GuestImagePlan {
                version: CONTAINER_PROTOCOL_VERSION,
                manifest_digest: self.manifest_digest.clone(),
                config_digest: self.config_digest.clone(),
                blobs,
            },
        )
    }
}

/// The first blob from `i` on with digest `d`.
pub open spec fn first_blob(blobs: Seq<(Seq<char>, u64)>, d: Seq<char>, i: int) -> Option<int>
    decreases blobs.len() - i,
{
    if i < 0 || i >= blobs.len() {
        None
    } else if blobs[i].0 == d {
        Some(i)
    } else {
        first_blob(blobs, d, i + 1)
    }
}

proof fn lemma_first_blob(blobs: Seq<(Seq<char>, u64)>, d: Seq<char>, i: int)
    requires
        0 <= i,
    ensures
        first_blob(blobs, d, i) is Some ==> {
            let k = first_blob(blobs, d, i)->Some_0;
            i <= k < blobs.len() && blobs[k].0 == d
        },
    decreases blobs.len() - i,
{
    if i < blobs.len() && blobs[i].0 != d {
        lemma_first_blob(blobs, d, i + 1);
    }
}

/// The part of a blob one chunk reads: where, from which offset, how many bytes,
/// and whether it reaches the blob's end.
#[derive(Debug, Clone, PartialEq, Eq)]
pub struct ChunkWindow {
    pub path: String,
    pub offset: u64,
    pub length: usize,
    pub eof: bool,
}

pub type WindowView = (Seq<char>, u64, nat, bool);

pub open spec fn window_view(w: ChunkWindow) -> WindowView {
    (w.path@, w.offset, w.length as nat, w.eof)
}

/// The window of a chunk request, or the message that refuses it.
pub open spec fn window_check(
    l: ValidatedLayout,
    digest: Seq<char>,
    offset: u64,
    maximum_bytes: usize,
    sizes: Seq<Result<u64, String>>,
) -> Result<WindowView, Seq<char>> {
    if maximum_bytes == 0 || maximum_bytes > MAX_BLOB_CHUNK {
        Err("OCI blob chunk size is outside Relay limits"@)
    } else {
        match delivery_blobs(l.root@, delivery_digests(l), sizes, 0) {
            Err(m) => Err(m),
            Ok(blobs) => match first_blob(blobs, digest, 0) {
                None => Err("OCI blob is not part of the validated image"@),
                Some(k) => if offset > blobs[k].1 {
                    Err("OCI blob offset is out of range"@)
                } else {
                    match sha256_hex_of(digest) {
                        None => Err("OCI descriptor digest is not sha256"@),
                        Some(h) => {
                            let remaining = blobs[k].1 - offset;
                            let length = if remaining < maximum_bytes {
                                remaining
                            } else {
                                maximum_bytes as int
                            };
                            Ok(
                                (
                                    blob_location(l.root@, h),
                                    offset,
                                    length as nat,
                                    offset + length == blobs[k].1,
                                ),
                            )
                        },
                    }
                },
            },
        }
    }
}

/// How reading a chunk's bytes failed on the host.
pub enum ChunkReadError {
    Open(String),
    Seek(String),
    Read(String),
}

impl ValidatedLayout {
    /// Which bytes of a validated blob a chunk request reads, given the sizes the
    /// host found for the blobs of `delivery_digests`.
    pub fn chunk_window(
        &self,
        digest: &str,
        offset: u64,
        maximum_bytes: usize,
        sizes: &Vec<Result<u64, String>>,
    ) -> (r: Result<ChunkWindow, RelayError>)
        requires
            sizes@.len() == self.layer_digests@.len() + 2,
        ensures
            match window_check(*self, digest@, offset, maximum_bytes, sizes@) {
                Ok(v) => r is Ok && window_view(r->Ok_0) == v,
                Err(m) => fails_with(r, m),
            },
    {
        if maximum_bytes == 0 || maximum_bytes > MAX_BLOB_CHUNK {
            return failed("OCI blob chunk size is outside Relay limits");
        }
        let plan = self.guest_image_plan(sizes)?;
        let ghost blobs = blobs_view(plan.blobs@);
        proof {
            lemma_first_blob(blobs, digest@, 0);
        }
        let mut i: usize = 0;
        while i < plan.blobs.len() && !str_eq(plan.blobs[i].digest.as_str(), digest)
            invariant
                blobs == blobs_view(plan.blobs@),
                i <= blobs.len(),
                first_blob(blobs, digest@, i as int) == first_blob(blobs, digest@, 0),
            decreases blobs.len() - i,
        {
            i = i + 1;
        }
        if i == plan.blobs.len() {
            return failed("OCI blob is not part of the validated image");
        }
        assert(blobs[i as int].0 == digest@);
        assert(first_blob(blobs, digest@, 0) == Some(i as int));
        let size = plan.blobs[i].bytes;
        if offset > size {
            return failed("OCI blob offset is out of range");
        }
        let path = blob_path(self.root.as_str(), digest)?;
        let remaining = size - offset;
        let length: usize = if remaining < maximum_bytes as u64 {
            remaining as usize
        } else {
            maximum_bytes
        };
        Ok(ChunkWindow { path, offset, length, eof: offset + length as u64 == size })
    }

    /// The chunk of `digest` that the host read for `window`, or how the read
    /// failed.
    pub fn read_blob_chunk(
        &self,
        digest: &str,
        window: &ChunkWindow,
        read: Result<Vec<u8>, ChunkReadError>,
    ) -> (r: Result<BlobChunk, RelayError>)
        ensures
            match read {
                Ok(bytes) => r is Ok && r->Ok_0 == (BlobChunk {
                    digest: r->Ok_0.digest,
                    offset: window.offset,
                    bytes,
                    eof: window.eof,
                }) && r->Ok_0.digest@ == digest@,
                Err(ChunkReadError::Open(e)) => fails_with(
                    r,
                    "cannot open OCI delivery blob "@ + window.path@ + ": "@ + e@,
                ),
                Err(ChunkReadError::Seek(e)) => fails_with(r, "cannot seek OCI delivery blob: "@ + e@),
                Err(ChunkReadError::Read(e)) => fails_with(r, "cannot read OCI delivery blob: "@ + e@),
            },
    {
        match read {
            Ok(bytes) => Ok(
                BlobChunk {
                    digest: String::from_str(digest),
                    offset: window.offset,
                    bytes,
                    eof: window.eof,
                },
            ),
            Err(ChunkReadError::Open(e)) => {
                let mut message = String::from_str("cannot open OCI delivery blob ");
                message.append(window.path.as_str());
                message.append(": ");
                message.append(e.as_str());
                Err(RelayError::Failed(message))
            },
            Err(ChunkReadError::Seek(e)) => failed_with("cannot seek OCI delivery blob: ", e.as_str()),
            Err(ChunkReadError::Read(e)) => failed_with("cannot read OCI delivery blob: ", e.as_str()),
        }
    }
}

/// A layout that validates names a manifest of exactly the target platform, and
/// every blob it references was checked: the manifest, the config, and each
/// layer, whose decoded content matched its diff_id.
pub proof fn lemma_validated_layout_is_exact(
    root: Seq<char>,
    os: Seq<char>,
    architecture: Seq<char>,
    f: LayoutFiles,
)
    requires
        layout_verdict(root, os, architecture, f) is Ok,
    ensures
        ({
            let index = f.index->Parsed_0;
            let manifest = f.manifest.parsed->Ok_0;
            let config = f.config.parsed->Ok_0;
            let k = first_match(index.manifests@, os, architecture, 0)->Some_0;
            &&& f.index is Parsed && f.manifest.parsed is Ok && f.config.parsed is Ok
            &&& 0 <= k < index.manifests@.len()
            &&& platform_match(index.manifests@[k], os, architecture)
            &&& layout_verdict(root, os, architecture, f)->Ok_0.1 == index.manifests@[k].digest@
            &&& blob_check(root, index.manifests@[k], f.manifest.read) is Ok
            &&& blob_check(root, manifest.config, f.config.read) is Ok
            &&& config_matches(config, os, architecture)
            &&& manifest.layers@.len() > 0
            &&& forall|i: int|
                0 <= i < manifest.layers@.len() ==> {
                    &&& layer_media_ok(#[trigger] manifest.layers@[i].media_type@)
                    &&& blob_check(root, manifest.layers@[i], f.layers@[i]) is Ok
                    &&& layer_content(
                        manifest.layers@[i],
                        f.layers@[i]->Ok_0@,
                        config.rootfs.diff_ids@[i]@,
                    ) is Ok
                }
        }),
{
    let index = f.index->Parsed_0;
    lemma_first_match(index.manifests@, os, architecture, 0);
    let manifest = f.manifest.parsed->Ok_0;
    let config = f.config.parsed->Ok_0;
    assert forall|i: int| 0 <= i < manifest.layers@.len() implies {
        &&& layer_media_ok(#[trigger] manifest.layers@[i].media_type@)
        &&& blob_check(root, manifest.layers@[i], f.layers@[i]) is Ok
        &&& layer_content(manifest.layers@[i], f.layers@[i]->Ok_0@, config.rootfs.diff_ids@[i]@)
            is Ok
    } by {
        lemma_layers_pass(root, manifest.layers@, config.rootfs.diff_ids@, f.layers@, 0, i);
    }
}

proof fn lemma_layers_pass(
    root: Seq<char>,
    layers: Seq<Descriptor>,
    diff_ids: Seq<String>,
    blobs: Seq<Result<Vec<u8>, String>>,
    from: int,
    i: int,
)
    requires
        0 <= from <= i < layers.len(),
        layers_check(root, layers, diff_ids, blobs, from) is Ok,
    ensures
        layer_media_ok(layers[i].media_type@),
        blob_check(root, layers[i], blobs[i]) is Ok,
        layer_content(layers[i], blobs[i]->Ok_0@, diff_ids[i]@) is Ok,
    decreases i - from,
{
    if from < i {
        lemma_layers_pass(root, layers, diff_ids, blobs, from + 1, i);
    }
}

} // verus!
