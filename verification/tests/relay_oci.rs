use sha2::{Digest, Sha256};
use std::io::Write;
use wawona_relay::relay_core::{
    ArtifactClass, RelayError, RelayKind, RelayPlatform, RelayRuntimeResources, RelaySpec,
    TrustedKeys,
};
use wawona_relay::relay_oci::bundle::{
    bundle_destination, entry_action, find_layer, join_parts, parse_u32_text, parse_user,
    path_parts, plan_bundle, runtime_process, slim_bundle, BundlePlan, EntryAction,
    ImagePathProbe, ProcessConfig, DEFAULT_PATH, READY_SHELL,
};
use wawona_relay::relay_oci::layer::{decode_layer, validate_archive_path, validate_layer};
use wawona_relay::relay_oci::layout::{
    select_manifest, validate_layout, verify_blob, ChunkReadError, Document, ImageConfig, Index,
    LayoutFiles, Manifest, ParsedBlob, RootFs, OCI_CONFIG, OCI_INDEX, OCI_MANIFEST,
};
use wawona_relay::relay_oci::{
    blob_path, decode_control, encode_control, ContainerCommand, ContainerRequest, Descriptor,
    GuestImagePlan, OciBlob, Platform, MAX_BLOB_CHUNK, MAX_CONTROL_FRAME,
};

const ROOT: &str = "/tmp/relay-oci-1";

fn hex(bytes: &[u8]) -> String {
    Sha256::digest(bytes).iter().map(|byte| format!("{byte:02x}")).collect()
}

fn failed_message<T: std::fmt::Debug>(r: Result<T, RelayError>) -> String {
    match r {
        Err(RelayError::Failed(message)) => message,
        other => panic!("expected Failed, got {other:?}"),
    }
}

fn descriptor(media_type: &str, bytes: &[u8]) -> Descriptor {
    Descriptor {
        media_type: media_type.into(),
        digest: format!("sha256:{}", hex(bytes)),
        size: bytes.len() as u64,
        platform: None,
    }
}

fn layer_tar(path: &str, contents: &[u8]) -> Vec<u8> {
    let mut bytes = Vec::new();
    {
        let mut builder = tar::Builder::new(&mut bytes);
        let mut header = tar::Header::new_gnu();
        header.set_path(path).unwrap();
        header.set_size(contents.len() as u64);
        header.set_mode(0o644);
        header.set_cksum();
        builder.append(&header, contents).unwrap();
        builder.finish().unwrap();
    }
    bytes
}

fn special_tar(entries: &[(&str, tar::EntryType, Option<&str>)]) -> Vec<u8> {
    let mut bytes = Vec::new();
    {
        let mut builder = tar::Builder::new(&mut bytes);
        for (path, kind, link) in entries {
            let mut header = tar::Header::new_gnu();
            header.set_path(path).unwrap();
            header.set_entry_type(*kind);
            header.set_size(0);
            header.set_mode(0o644);
            if let Some(target) = link {
                header.set_link_name(target).unwrap();
            }
            header.set_cksum();
            builder.append(&header, &b""[..]).unwrap();
        }
        builder.finish().unwrap();
    }
    bytes
}

struct Fixture {
    files: LayoutFiles,
    manifest_digest: String,
    manifest_bytes: Vec<u8>,
    index: Index,
    sizes: Vec<u64>,
}

fn fixture() -> Fixture {
    let layer = layer_tar("usr/share/wawona.txt", b"standards-shaped layer");
    let diff_id = format!("sha256:{}", hex(&layer));
    let config_bytes = br#"{"architecture":"arm64","os":"linux","rootfs":{"type":"layers"}}"#.to_vec();
    let config_descriptor = descriptor(OCI_CONFIG, &config_bytes);
    let layer_descriptor = descriptor("application/vnd.oci.image.layer.v1.tar", &layer);
    let manifest_bytes = format!(
        "{{\"schemaVersion\":2,\"config\":\"{}\",\"layers\":[\"{}\"]}}",
        config_descriptor.digest, layer_descriptor.digest
    )
    .into_bytes();
    let manifest_digest = hex(&manifest_bytes);
    let index = Index {
        schema_version: 2,
        media_type: OCI_INDEX.into(),
        manifests: vec![Descriptor {
            media_type: OCI_MANIFEST.into(),
            digest: format!("sha256:{manifest_digest}"),
            size: manifest_bytes.len() as u64,
            platform: Some(Platform {
                architecture: "arm64".into(),
                os: "linux".into(),
                variant: Some("v8".into()),
            }),
        }],
    };
    let manifest = Manifest {
        schema_version: 2,
        config: config_descriptor,
        layers: vec![layer_descriptor],
    };
    let config = ImageConfig {
        architecture: "arm64".into(),
        os: "linux".into(),
        rootfs: RootFs { kind: "layers".into(), diff_ids: vec![diff_id] },
    };
    let sizes = vec![manifest_bytes.len() as u64, config_bytes.len() as u64, layer.len() as u64];
    Fixture {
        files: LayoutFiles {
            is_dir: true,
            marker: Document::Parsed("1.0.0".into()),
            index: Document::Parsed(index.clone()),
            manifest: ParsedBlob { read: Ok(manifest_bytes.clone()), parsed: Ok(manifest) },
            config: ParsedBlob { read: Ok(config_bytes), parsed: Ok(config) },
            layers: vec![Ok(layer)],
        },
        manifest_digest,
        manifest_bytes,
        index,
        sizes,
    }
}

fn container(image: Option<&str>, machine: Option<&str>, state: Option<&str>) -> RelaySpec {
    RelaySpec {
        kind: RelayKind::Container,
        platform: RelayPlatform::Macos,
        artifact: ArtifactClass::ModeA,
        machine_id: machine.map(str::to_string),
        image: image.map(str::to_string),
        memory_mb: None,
        guest_page_size: None,
        guest: None,
        resources: state.map(|dir| RelayRuntimeResources {
            launcher: "unused".into(),
            state_directory: dir.into(),
            guest_directory: None,
            trusted_guest_keys: TrustedKeys::new(),
            allow_unsigned_guest: true,
        }),
        ios_hv_host: None,
    }
}

#[test]
fn validates_exact_platform_and_every_blob() {
    let f = fixture();
    let layout = validate_layout(ROOT, "linux", "arm64", &f.files).unwrap();
    assert_eq!(layout.manifest_digest, format!("sha256:{}", f.manifest_digest));
    assert_eq!(layout.layer_digests.len(), 1);
    assert_eq!(layout.root, ROOT);
}

#[test]
fn rejects_platform_fallback_and_blob_mutation() {
    let mut f = fixture();
    assert!(validate_layout(ROOT, "linux", "amd64", &f.files).is_err());
    f.files.manifest.read = Ok(b"changed".to_vec());
    assert!(validate_layout(ROOT, "linux", "arm64", &f.files).is_err());
}

#[test]
fn container_policy_rejects_proot() {
    let mut spec = container(Some("proot:alpine"), None, None);
    spec.platform = RelayPlatform::Ios;
    let probe = ImagePathProbe { is_runtime_bundle: false, exists: false };
    assert!(matches!(plan_bundle(&spec, "/tmp", &probe), Err(RelayError::Forbidden(_))));
}

#[test]
fn empty_image_materializes_slim_runtime_bundle() {
    let spec = container(None, Some("slim"), Some("/tmp/relay-oci-prepare-1"));
    let probe = ImagePathProbe { is_runtime_bundle: false, exists: false };
    match plan_bundle(&spec, "/tmp", &probe).unwrap() {
        BundlePlan::Slim { destination } => {
            assert_eq!(destination, "/tmp/relay-oci-prepare-1/oci-bundles/slim");
            let bundle = slim_bundle(&destination);
            assert_eq!(bundle.root, destination);
            assert_eq!(bundle.manifest_digest, "sha256:relay-slim-oci");
        }
        other => panic!("expected the slim bundle, got {other:?}"),
    }
}

#[test]
fn validates_whiteouts_and_rejects_special_files() {
    let whiteout = layer_tar("etc/.wh.obsolete", b"");
    let descriptor = descriptor("application/vnd.oci.image.layer.v1.tar", &whiteout);
    let diff_id = format!("sha256:{}", hex(&whiteout));
    validate_layer(&descriptor, &whiteout, &diff_id).unwrap();

    let invalid = layer_tar("etc/.wh.", b"");
    let invalid_diff_id = format!("sha256:{}", hex(&invalid));
    assert!(validate_layer(&descriptor, &invalid, &invalid_diff_id).is_err());
}

#[test]
fn frames_guest_lifecycle_and_streams_only_validated_blobs() {
    let f = fixture();
    let layout = validate_layout(ROOT, "linux", "arm64", &f.files).unwrap();
    let sizes: Vec<Result<u64, String>> = f.sizes.iter().map(|n| Ok(*n)).collect();
    let image = layout.guest_image_plan(&sizes).unwrap();
    assert_eq!(image.blobs.len(), 3);
    let request = ContainerRequest::new(
        7,
        "hello-oci".into(),
        ContainerCommand::Import { image: image.clone() },
    );
    let payload = br#"{"version":1,"request_id":7}"#.to_vec();
    let frame = encode_control(&request, payload.clone()).unwrap();
    assert_eq!(decode_control(&frame).unwrap(), payload);
    let manifest = image.blobs.iter().find(|blob| blob.digest == image.manifest_digest).unwrap();
    let window = layout.chunk_window(&manifest.digest, 0, MAX_BLOB_CHUNK, &sizes).unwrap();
    assert!(window.eof);
    assert_eq!(window.length as u64, manifest.bytes);
    assert_eq!(window.path, format!("{ROOT}/blobs/sha256/{}", f.manifest_digest));
    let chunk = layout
        .read_blob_chunk(&manifest.digest, &window, Ok(f.manifest_bytes.clone()))
        .unwrap();
    assert!(chunk.eof);
    assert_eq!(chunk.bytes.len() as u64, manifest.bytes);
    assert!(layout
        .chunk_window(&format!("sha256:{}", "0".repeat(64)), 0, 4096, &sizes)
        .is_err());
}

#[test]
fn control_frames_are_checked() {
    let request = ContainerRequest::new(1, "box".into(), ContainerCommand::Start);
    let frame = encode_control(&request, b"{}".to_vec()).unwrap();
    assert_eq!(frame, vec![0, 0, 0, 2, b'{', b'}']);
    assert_eq!(
        failed_message(decode_control(&[0, 0, 1])),
        "Relay container control frame is truncated"
    );
    assert_eq!(
        failed_message(decode_control(&[0, 0, 0, 3, 1, 2])),
        "Relay container control frame length is invalid"
    );
    assert_eq!(
        failed_message(decode_control(&[0, 16, 0, 1])),
        "Relay container control frame length is invalid"
    );
    assert_eq!(decode_control(&[0, 0, 0, 0]).unwrap(), Vec::<u8>::new());
    assert_eq!(
        failed_message(encode_control(&request, vec![0; MAX_CONTROL_FRAME + 1])),
        "Relay container control frame is too large"
    );
    assert_eq!(encode_control(&request, vec![7; MAX_CONTROL_FRAME]).unwrap().len(), MAX_CONTROL_FRAME + 4);
}

#[test]
fn requests_are_validated() {
    let mut request = ContainerRequest::new(1, "web_1.a-b".into(), ContainerCommand::Logs { cursor: 9 });
    assert!(request.validate().is_ok());
    request.version = 2;
    assert_eq!(failed_message(request.validate()), "unsupported Relay container protocol version");
    for id in ["", "has space", "ünicode", &"x".repeat(129)] {
        let request = ContainerRequest::new(1, id.to_string(), ContainerCommand::Delete);
        assert_eq!(failed_message(request.validate()), "Relay container id is invalid");
    }
    assert!(ContainerRequest::new(1, "x".repeat(128), ContainerCommand::Stop).validate().is_ok());
    let empty = GuestImagePlan {
        version: 1,
        manifest_digest: "m".into(),
        config_digest: "c".into(),
        blobs: vec![],
    };
    let request = ContainerRequest::new(1, "box".into(), ContainerCommand::Import { image: empty });
    assert_eq!(failed_message(request.validate()), "Relay guest image plan is invalid");
    let old = GuestImagePlan {
        version: 0,
        manifest_digest: "m".into(),
        config_digest: "c".into(),
        blobs: vec![OciBlob { digest: "d".into(), bytes: 1 }],
    };
    let request = ContainerRequest::new(1, "box".into(), ContainerCommand::Import { image: old });
    assert_eq!(failed_message(request.validate()), "Relay guest image plan is invalid");
    let create = ContainerRequest::new(1, "box".into(), ContainerCommand::Create { manifest_digest: "x".into() });
    assert!(create.validate().is_ok());
}

#[test]
fn blob_paths_need_sha256_digests() {
    let digest = format!("sha256:{}", "aB".repeat(32));
    assert_eq!(blob_path("/l", &digest).unwrap(), format!("/l/blobs/sha256/{}", "aB".repeat(32)));
    assert_eq!(blob_path("/l/", &digest).unwrap(), format!("/l/blobs/sha256/{}", "aB".repeat(32)));
    assert_eq!(blob_path("", &digest).unwrap(), format!("blobs/sha256/{}", "aB".repeat(32)));
    for bad in ["sha256:abc", "sha512:00", &format!("sha256:{}", "g".repeat(64))] {
        assert_eq!(failed_message(blob_path("/l", bad)), "OCI descriptor digest is not sha256");
    }
}

#[test]
fn layout_steps_report_in_order() {
    let mut f = fixture();
    f.files.is_dir = false;
    assert_eq!(
        failed_message(validate_layout(ROOT, "linux", "arm64", &f.files)),
        "OCI input is not an image-layout directory"
    );
    let mut f = fixture();
    f.files.marker = Document::Unreadable("No such file".into());
    assert_eq!(
        failed_message(validate_layout(ROOT, "linux", "arm64", &f.files)),
        "cannot read OCI layout marker: No such file"
    );
    let mut f = fixture();
    f.files.marker = Document::Parsed("2.0.0".into());
    assert_eq!(
        failed_message(validate_layout(ROOT, "linux", "arm64", &f.files)),
        "unsupported OCI image-layout version"
    );
    let mut f = fixture();
    f.files.index = Document::Invalid("expected value".into());
    assert_eq!(
        failed_message(validate_layout(ROOT, "linux", "arm64", &f.files)),
        "invalid OCI index: expected value"
    );
    let mut f = fixture();
    f.files.manifest.read = Err("denied".into());
    assert_eq!(
        failed_message(validate_layout(ROOT, "linux", "arm64", &f.files)),
        format!("cannot read OCI blob {ROOT}/blobs/sha256/{}: denied", f.manifest_digest)
    );
    let mut f = fixture();
    f.files.layers = vec![Ok(b"not the layer".to_vec())];
    assert_eq!(
        failed_message(validate_layout(ROOT, "linux", "arm64", &f.files)),
        "OCI blob size differs from descriptor"
    );
    let mut f = fixture();
    if let Ok(config) = &mut f.files.config.parsed {
        config.rootfs.kind = "other".into();
    }
    assert_eq!(
        failed_message(validate_layout(ROOT, "linux", "arm64", &f.files)),
        "OCI image config does not match target platform"
    );
}

#[test]
fn manifests_select_exact_platforms() {
    let f = fixture();
    assert_eq!(select_manifest(&f.index, "linux", "arm64"), Some(0));
    assert_eq!(select_manifest(&f.index, "linux", "amd64"), None);
    let mut index = f.index.clone();
    index.manifests[0].platform.as_mut().unwrap().variant = Some("v7".into());
    assert_eq!(select_manifest(&index, "linux", "arm64"), None);
    index.manifests[0].platform.as_mut().unwrap().variant = None;
    assert_eq!(select_manifest(&index, "linux", "arm64"), Some(0));
}

#[test]
fn blobs_are_verified_by_size_and_digest() {
    let bytes = b"blob".to_vec();
    let d = descriptor(OCI_CONFIG, &bytes);
    assert!(verify_blob("/r", &d, &Ok(bytes.clone())).is_ok());
    let upper = Descriptor { digest: d.digest.to_uppercase().replace("SHA256:", "sha256:"), ..d.clone() };
    assert!(verify_blob("/r", &upper, &Ok(bytes.clone())).is_ok());
    let wrong = Descriptor { size: 5, ..d.clone() };
    assert_eq!(failed_message(verify_blob("/r", &wrong, &Ok(bytes.clone()))), "OCI blob size differs from descriptor");
    assert_eq!(
        failed_message(verify_blob("/r", &d, &Ok(b"bloc".to_vec()))),
        "OCI blob digest differs from descriptor"
    );
}

#[test]
fn layer_archives_are_checked() {
    let plain = "application/vnd.oci.image.layer.v1.tar";
    let check = |bytes: Vec<u8>| {
        let d = descriptor(plain, &bytes);
        let diff = format!("sha256:{}", hex(&bytes));
        validate_layer(&d, &bytes, &diff)
    };
    assert!(check(special_tar(&[("a", tar::EntryType::Symlink, Some("b")), ("d/", tar::EntryType::Directory, None)])).is_ok());
    assert_eq!(
        failed_message(check(special_tar(&[("dev/tty", tar::EntryType::Char, None)]))),
        "OCI layer contains an unsupported special file"
    );
    assert_eq!(
        failed_message(check(special_tar(&[("a", tar::EntryType::Regular, None), ("./a", tar::EntryType::Regular, None)]))),
        "OCI layer contains a duplicate path"
    );
    assert!(check(special_tar(&[("a/b", tar::EntryType::Regular, None), ("a/c", tar::EntryType::Regular, None)])).is_ok());
    assert_eq!(
        failed_message(check(special_tar(&[("a", tar::EntryType::Regular, None), ("a/./", tar::EntryType::Directory, None)]))),
        "OCI layer contains a duplicate path"
    );
    assert_eq!(
        failed_message(check(special_tar(&[("l", tar::EntryType::Link, Some("../../etc/passwd"))]))),
        "OCI hard link path escapes the container root"
    );
    assert_eq!(
        failed_message(check(special_tar(&[("etc/.wh.x", tar::EntryType::Directory, None)]))),
        "OCI whiteout must be a regular file"
    );
    assert!(check(special_tar(&[("etc/.wh..wh..opq", tar::EntryType::Regular, None)])).is_ok());
    assert_eq!(
        failed_message(check(special_tar(&[("etc/.wh..wh.x", tar::EntryType::Regular, None)]))),
        "OCI layer contains an invalid whiteout"
    );
    let bytes = layer_tar("x", b"1");
    let d = descriptor(plain, &bytes);
    assert_eq!(
        failed_message(validate_layer(&d, &bytes, "sha256:zz")),
        "OCI config diff_id is not sha256"
    );
    assert_eq!(
        failed_message(validate_layer(&d, &bytes, &format!("sha256:{}", "0".repeat(64)))),
        "OCI layer diff_id differs from uncompressed content"
    );
}

#[test]
fn compressed_layers_are_decoded_first() {
    let tar_bytes = layer_tar("hello.txt", b"hello");
    let diff = format!("sha256:{}", hex(&tar_bytes));
    let mut gz = flate2::write::GzEncoder::new(Vec::new(), flate2::Compression::default());
    gz.write_all(&tar_bytes).unwrap();
    let gz = gz.finish().unwrap();
    let d = descriptor("application/vnd.oci.image.layer.v1.tar+gzip", &gz);
    assert!(validate_layer(&d, &gz, &diff).is_ok());
    let message = failed_message(validate_layer(&d, b"not gzip", &diff));
    assert!(message.starts_with("cannot decode OCI layer: "), "{message}");
    let zst = zstd::encode_all(&tar_bytes[..], 3).unwrap();
    let d = descriptor("application/vnd.oci.image.layer.v1.tar+zstd", &zst);
    assert!(validate_layer(&d, &zst, &diff).is_ok());
}

#[test]
fn archive_paths_stay_inside_the_root() {
    assert!(validate_archive_path(b"usr/bin", "layer").is_ok());
    assert!(validate_archive_path(b"./a/..b", "layer").is_ok());
    for bad in [&b""[..], b"/etc", b"a/../../b", b".."] {
        assert_eq!(
            failed_message(validate_archive_path(bad, "layer")),
            "OCI layer path escapes the container root"
        );
    }
}

#[test]
fn bundles_follow_the_image() {
    let exists = ImagePathProbe { is_runtime_bundle: false, exists: true };
    let bundle = ImagePathProbe { is_runtime_bundle: true, exists: true };
    let missing = ImagePathProbe { is_runtime_bundle: false, exists: false };
    let mut vm = container(Some("x"), None, None);
    vm.kind = RelayKind::Vm;
    assert_eq!(plan_bundle(&vm, "/tmp", &missing).unwrap(), BundlePlan::NotContainer);
    let spec = container(Some("  /images/app "), Some(""), None);
    assert_eq!(
        plan_bundle(&spec, "/tmp", &bundle).unwrap(),
        BundlePlan::Existing { path: "/images/app".into() }
    );
    assert_eq!(
        plan_bundle(&spec, "/tmp", &exists).unwrap(),
        BundlePlan::Layout {
            path: "/images/app".into(),
            destination: "/tmp/wawona-relay-oci/oci-bundles/default".into()
        }
    );
    assert_eq!(
        failed_message(plan_bundle(&spec, "/tmp", &missing)),
        "OCI image is not a local layout or runtime bundle: /images/app"
    );
    let slim = container(Some("relay-slim-oci"), Some("m1"), Some("/state"));
    assert_eq!(
        plan_bundle(&slim, "/tmp", &missing).unwrap(),
        BundlePlan::Slim { destination: "/state/oci-bundles/m1".into() }
    );
    assert_eq!(bundle_destination(&container(None, Some("/abs"), Some("/state")), "/tmp"), "/abs");
}

#[test]
fn runtime_processes_come_from_the_image_config() {
    let cfg = ProcessConfig {
        entrypoint: Some(vec!["/bin/app".into()]),
        cmd: Some(vec!["--serve".into()]),
        env: Some(vec!["TERM=vt100".into()]),
        working_dir: Some("/srv".into()),
        user: Some("1000:50".into()),
    };
    let p = runtime_process(&cfg, false);
    assert_eq!(p.args, vec!["/bin/app".to_string(), "--serve".to_string()]);
    assert_eq!(p.env, vec!["TERM=vt100".to_string(), DEFAULT_PATH.to_string()]);
    assert_eq!(p.cwd, "/srv");
    assert_eq!((p.uid, p.gid), (1000, 50));
    let forced = runtime_process(&cfg, true);
    assert_eq!(forced.args, vec!["sh".to_string(), "-c".to_string(), READY_SHELL.to_string()]);
    let bare = ProcessConfig { entrypoint: None, cmd: None, env: None, working_dir: Some(String::new()), user: None };
    let p = runtime_process(&bare, false);
    assert_eq!(p.args[0], "sh");
    assert_eq!(p.env, vec![DEFAULT_PATH.to_string(), "TERM=xterm".to_string()]);
    assert_eq!(p.cwd, "/");
    assert_eq!((p.uid, p.gid), (0, 0));
}

#[test]
fn users_parse_like_from_str() {
    assert_eq!(parse_u32_text("+7"), Some(7));
    assert_eq!(parse_u32_text("4294967295"), Some(u32::MAX));
    assert_eq!(parse_u32_text("4294967296"), None);
    assert_eq!(parse_u32_text("+"), None);
    assert_eq!(parse_u32_text("-1"), None);
    assert_eq!(parse_u32_text(""), None);
    assert_eq!(parse_user(&Some("42".into())), (42, 42));
    assert_eq!(parse_user(&Some("nobody:7".into())), (0, 7));
    assert_eq!(parse_user(&Some("5:x:9".into())), (5, 0));
    assert_eq!(parse_user(&Some("nobody".into())), (0, 0));
    assert_eq!(parse_user(&None), (0, 0));
}

#[test]
fn layer_entries_land_inside_the_rootfs() {
    assert_eq!(entry_action(b"/b/rootfs", b"usr/./bin//sh").unwrap(), EntryAction::Unpack(b"/b/rootfs/usr/bin/sh".to_vec()));
    assert_eq!(entry_action(b"/b/rootfs", b"/etc/hosts").unwrap(), EntryAction::Unpack(b"/b/rootfs/etc/hosts".to_vec()));
    assert_eq!(entry_action(b"/b/rootfs", b"etc/.wh..wh..opq").unwrap(), EntryAction::ClearOpaque(b"/b/rootfs/etc".to_vec()));
    assert_eq!(entry_action(b"/b/rootfs", b"etc/.wh.old").unwrap(), EntryAction::Remove(b"/b/rootfs/etc/old".to_vec()));
    assert_eq!(entry_action(b"/b/rootfs", b"./").unwrap(), EntryAction::Skip);
    assert_eq!(entry_action(b"/b/rootfs", b"a/..").unwrap(), EntryAction::Skip);
    assert_eq!(
        failed_message(entry_action(b"/b/rootfs", b"../x")),
        "OCI layer path escapes the rootfs"
    );
    assert_eq!(path_parts(b"/a//b/./c/").len(), 3);
    assert_eq!(join_parts(b"/r/", &vec![b"x".to_vec()]).unwrap(), b"/r/x".to_vec());
}

#[test]
fn layout_layers_are_found_by_digest() {
    let f = fixture();
    let layout = validate_layout(ROOT, "linux", "arm64", &f.files).unwrap();
    let manifest = match &f.files.manifest.parsed {
        Ok(m) => m,
        Err(_) => unreachable!(),
    };
    assert!(find_layer(manifest, &layout.layer_digests[0]).is_ok());
    assert_eq!(
        failed_message(find_layer(manifest, "sha256:none")),
        "OCI layer digest missing from manifest"
    );
    let sizes: Vec<Result<u64, String>> = vec![Ok(1), Err("gone".into()), Ok(1)];
    let message = failed_message(layout.guest_image_plan(&sizes));
    assert!(message.starts_with("cannot stat OCI delivery blob /tmp/relay-oci-1/blobs/sha256/"), "{message}");
    let ok: Vec<Result<u64, String>> = f.sizes.iter().map(|n| Ok(*n)).collect();
    let m = format!("sha256:{}", f.manifest_digest);
    assert_eq!(failed_message(layout.chunk_window(&m, 0, 0, &ok)), "OCI blob chunk size is outside Relay limits");
    assert_eq!(failed_message(layout.chunk_window(&m, f.sizes[0] + 1, 16, &ok)), "OCI blob offset is out of range");
    let window = layout.chunk_window(&m, 1, 16, &ok).unwrap();
    assert_eq!(window.length, 16.min(f.sizes[0] as usize - 1));
    assert_eq!(
        failed_message(layout.read_blob_chunk(&m, &window, Err(ChunkReadError::Seek("EINVAL".into())))),
        "cannot seek OCI delivery blob: EINVAL"
    );
}

#[test]
fn decode_layer_follows_the_media_type() {
    let tar = b"plain layer bytes".to_vec();
    let mut encoder = flate2::write::GzEncoder::new(Vec::new(), flate2::Compression::default());
    encoder.write_all(&tar).unwrap();
    let gz = encoder.finish().unwrap();
    assert_eq!(
        decode_layer("application/vnd.oci.image.layer.v1.tar+gzip", &gz).unwrap(),
        tar
    );
    assert_eq!(decode_layer("application/vnd.oci.image.layer.v1.tar", &tar).unwrap(), tar);
    let zst = zstd::encode_all(&tar[..], 0).unwrap();
    assert_eq!(
        decode_layer("application/vnd.oci.image.layer.v1.tar+zstd", &zst).unwrap(),
        tar
    );
    let error = decode_layer("application/vnd.oci.image.layer.v1.tar+gzip", b"not gzip")
        .unwrap_err();
    assert!(error.message().starts_with("cannot decode OCI layer: "));
}
