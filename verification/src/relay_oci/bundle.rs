//! Runtime bundles for the guest's crun: which bundle a container spec needs,
//! the process an image config starts, and where layer entries land in the rootfs.
use vstd::prelude::*;
use crate::relay_core::{failed, fails_with, RelayError, RelayKind, RelaySpec};
use crate::relay_oci::{join_path, path_join};
use crate::relay_oci::layer::{is_utf8, opaque_whiteout, starts_with, whiteout_prefix};
use crate::relay_oci::layout::Manifest;
use crate::relay_oci::Descriptor;
use crate::text::{str_eq, trim_owned, trimmed};

verus! {

/// The image name that asks for the slim readiness bundle.
pub const SLIM_IMAGE: &'static str = "relay-slim-oci";

/// The manifest digest a slim bundle reports.
pub const SLIM_MANIFEST_DIGEST: &'static str = "sha256:relay-slim-oci";

/// The shell a bundle runs when its image names no process.
pub const READY_SHELL: &'static str = "printf 'WAWONA_OCI_READY=1\\n' > /dev/console; printf 'WAWONA_OCI_READY=1\\n' > /dev/hvc0; sleep infinity";

pub const DEFAULT_PATH: &'static str = "PATH=/usr/local/sbin:/usr/local/bin:/usr/sbin:/usr/bin:/sbin:/bin";

pub const DEFAULT_TERM: &'static str = "TERM=xterm";

/// A validated image unpacked for crun: `config.json` and `rootfs/` under `root`.
#[derive(Debug, Clone, PartialEq, Eq)]
pub struct RuntimeBundle {
    pub root: String,
    pub manifest_digest: String,
}

// ---------------------------------------------------------------------------
// Bundle plans
// ---------------------------------------------------------------------------

/// What the host found at the image's path.
pub struct ImagePathProbe {
    /// `config.json` is a file and `rootfs` a directory under it.
    pub is_runtime_bundle: bool,
    pub exists: bool,
}

/// What a container spec's bundle is made from.
#[derive(Debug, Clone, PartialEq, Eq)]
pub enum BundlePlan {
    /// The spec is not a container: no bundle.
    NotContainer,
    /// The slim readiness bundle, built at `destination`.
    Slim { destination: String },
    /// A runtime bundle that already exists at `path`.
    Existing { path: String },
    /// The OCI layout at `path`, validated and unpacked at `destination`.
    Layout { path: String, destination: String },
}

/// The image text of a spec: trimmed, empty when absent.
pub open spec fn image_of(spec: RelaySpec) -> Seq<char> {
    match spec.image {
        Some(s) => trimmed(s@),
        None => seq![],
    }
}

pub open spec fn proot_prefix() -> Seq<char> {
    seq!['p', 'r', 'o', 'o', 't', ':']
}

/// Where a spec's bundle goes: `<state root>/oci-bundles/<machine>`.
pub open spec fn destination_of(spec: RelaySpec, temp_dir: Seq<char>) -> Seq<char> {
    let state_root = match spec.resources {
        Some(r) => r.state_directory@,
        None => path_join(temp_dir, "wawona-relay-oci"@),
    };
    let machine = match spec.machine_id {
        Some(id) => if id@.len() > 0 {
            id@
        } else {
            "default"@
        },
        None => "default"@,
    };
    path_join(path_join(state_root, "oci-bundles"@), machine)
}

/// The trimmed image of a container spec, for the host to probe.
pub fn bundle_image(spec: &RelaySpec) -> (r: String)
    ensures
        r@ == image_of(*spec),
{
    match &spec.image {
        Some(s) => trim_owned(s.as_str()),
        None => {
            let r = String::new();
            assert(r@ =~= Seq::<char>::empty());
            r
        },
    }
}

/// Where the bundle of `spec` goes; `temp_dir` is the host's temporary directory.
pub fn bundle_destination(spec: &RelaySpec, temp_dir: &str) -> (r: String)
    ensures
        r@ == destination_of(*spec, temp_dir@),
{
    let state_root = match &spec.resources {
        Some(r) => String::from_str(r.state_directory.as_str()),
        None => join_path(temp_dir, "wawona-relay-oci"),
    };
    let machine: &str = match &spec.machine_id {
        Some(id) => if id.as_str().unicode_len() > 0 {
            id.as_str()
        } else {
            "default"
        },
        None => "default",
    };
    let bundles = join_path(state_root.as_str(), "oci-bundles");
    join_path(bundles.as_str(), machine)
}

/// The bundle plan of a spec: none but for containers; `proot:` images are
/// forbidden; an empty or slim image gets the slim bundle; an existing runtime
/// bundle is used as it is; any other existing path is an OCI layout.
pub fn plan_bundle(spec: &RelaySpec, temp_dir: &str, probe: &ImagePathProbe) -> (r: Result<
    BundlePlan,
    RelayError,
>)
    ensures
        spec.kind != RelayKind::Container ==> r == Ok::<BundlePlan, RelayError>(
            BundlePlan::NotContainer,
        ),
        spec.kind == RelayKind::Container ==> {
            let image = image_of(*spec);
            let destination = destination_of(*spec, temp_dir@);
            if image.len() >= 6 && image.subrange(0, 6) == proot_prefix() {
                r == Err::<BundlePlan, RelayError>(
                    RelayError::Forbidden("proot is not a Relay container backend"),
                )
            } else if image.len() == 0 || image == SLIM_IMAGE@ {
                r is Ok && r->Ok_0 is Slim && r->Ok_0->Slim_destination@ == destination
            } else if probe.is_runtime_bundle {
                r is Ok && r->Ok_0 is Existing && r->Ok_0->Existing_path@ == image
            } else if probe.exists {
                r is Ok && r->Ok_0 is Layout && r->Ok_0->Layout_path@ == image
                    && r->Ok_0->Layout_destination@ == destination
            } else {
                fails_with(r, "OCI image is not a local layout or runtime bundle: "@ + image)
            }
        },
{
    if spec.kind != RelayKind::Container {
        return Ok(BundlePlan::NotContainer);
    }
    let image = bundle_image(spec);
    proof {
        reveal_strlit("proot:");
        assert("proot:"@ =~= proot_prefix());
    }
    let n = image.as_str().unicode_len();
    if n >= 6 && str_eq(image.as_str().substring_char(0, 6), "proot:") {
        return Err(RelayError::Forbidden("proot is not a Relay container backend"));
    }
    if n == 0 || str_eq(image.as_str(), SLIM_IMAGE) {
        return Ok(BundlePlan::Slim { destination: bundle_destination(spec, temp_dir) });
    }
    if probe.is_runtime_bundle {
        return Ok(BundlePlan::Existing { path: image });
    }
    if probe.exists {
        return Ok(
            BundlePlan::Layout { path: image, destination: bundle_destination(spec, temp_dir) },
        );
    }
    let mut message = String::from_str("OCI image is not a local layout or runtime bundle: ");
    message.append(image.as_str());
    Err(RelayError::Failed(message))
}

/// The slim readiness bundle built at `destination`.
pub fn slim_bundle(destination: &str) -> (r: RuntimeBundle)
    ensures
        r.root@ == destination@,
        r.manifest_digest@ == SLIM_MANIFEST_DIGEST@,
{
    RuntimeBundle {
        root: String::from_str(destination),
        manifest_digest: String::from_str(SLIM_MANIFEST_DIGEST),
    }
}

/// The manifest layer with a validated layout's layer digest.
pub fn find_layer<'a>(manifest: &'a Manifest, digest: &str) -> (r: Result<&'a Descriptor, RelayError>)
    ensures
        (exists|i: int| 0 <= i < manifest.layers@.len() && #[trigger] manifest.layers@[i].digest@
            == digest@) ==> r is Ok && r->Ok_0.digest@ == digest@ && manifest.layers@.contains(
            *r->Ok_0,
        ),
        !(exists|i: int| 0 <= i < manifest.layers@.len() && #[trigger] manifest.layers@[i].digest@
            == digest@) ==> fails_with(r, "OCI layer digest missing from manifest"@),
{
    let mut i: usize = 0;
    while i < manifest.layers.len()
        invariant
            i <= manifest.layers@.len(),
            forall|j: int| 0 <= j < i ==> manifest.layers@[j].digest@ != digest@,
        decreases manifest.layers@.len() - i,
    {
        if str_eq(manifest.layers[i].digest.as_str(), digest) {
            assert(manifest.layers@[i as int] == manifest.layers@[i as int]);
            return Ok(&manifest.layers[i]);
        }
        i = i + 1;
    }
    failed("OCI layer digest missing from manifest")
}

// ---------------------------------------------------------------------------
// The runtime process
// ---------------------------------------------------------------------------

/// The process part of an image config as the host parsed it (`Entrypoint`,
/// `Cmd`, `Env`, `WorkingDir`, `User`); all absent where the config has none.
pub struct ProcessConfig {
    pub entrypoint: Option<Vec<String>>,
    pub cmd: Option<Vec<String>>,
    pub env: Option<Vec<String>>,
    pub working_dir: Option<String>,
    pub user: Option<String>,
}

/// The process crun starts.
#[derive(Debug, Clone, PartialEq, Eq)]
pub struct RuntimeProcess {
    pub args: Vec<String>,
    pub env: Vec<String>,
    pub cwd: String,
    pub uid: u32,
    pub gid: u32,
}

pub open spec fn texts(v: Seq<String>) -> Seq<Seq<char>> {
    v.map_values(|s: String| s@)
}

pub open spec fn texts_of(v: Option<Vec<String>>) -> Seq<Seq<char>> {
    match v {
        Some(v) => texts(v@),
        None => seq![],
    }
}

pub open spec fn ready_shell() -> Seq<Seq<char>> {
    seq!["sh"@, "-c"@, READY_SHELL@]
}

/// The arguments: the ready shell when forced or when the image names no
/// entrypoint or command, else the entrypoint followed by the command.
pub open spec fn process_args(cfg: ProcessConfig, force_ready_shell: bool) -> Seq<Seq<char>> {
    if force_ready_shell {
        ready_shell()
    } else {
        let named = texts_of(cfg.entrypoint) + texts_of(cfg.cmd);
        if named.len() == 0 {
            ready_shell()
        } else {
            named
        }
    }
}

pub open spec fn starts_with_text(s: Seq<char>, prefix: Seq<char>) -> bool {
    s.len() >= prefix.len() && s.subrange(0, prefix.len() as int) == prefix
}

pub open spec fn any_starts_with(env: Seq<Seq<char>>, prefix: Seq<char>) -> bool {
    exists|i: int| 0 <= i < env.len() && starts_with_text(#[trigger] env[i], prefix)
}

/// The environment: the image's, with a default `PATH` and `TERM` where it sets none.
pub open spec fn process_env(cfg: ProcessConfig) -> Seq<Seq<char>> {
    let env = texts_of(cfg.env);
    let with_path = if any_starts_with(env, "PATH="@) {
        env
    } else {
        env.push(DEFAULT_PATH@)
    };
    if any_starts_with(with_path, "TERM="@) {
        with_path
    } else {
        with_path.push(DEFAULT_TERM@)
    }
}

pub open spec fn process_cwd(cfg: ProcessConfig) -> Seq<char> {
    match cfg.working_dir {
        Some(d) => if d@.len() > 0 {
            d@
        } else {
            "/"@
        },
        None => "/"@,
    }
}

pub open spec fn is_digit(c: char) -> bool {
    '0' <= c <= '9'
}

pub open spec fn digits_value(s: Seq<char>) -> int
    decreases s.len(),
{
    if s.len() == 0 {
        0
    } else {
        digits_value(s.drop_last()) * 10 + (s.last() as int - '0' as int)
    }
}

pub open spec fn all_digits(d: Seq<char>) -> bool {
    forall|i: int| 0 <= i < d.len() ==> is_digit(#[trigger] d[i])
}

/// The digits of a number's text: without its leading `+`, if it has one.
pub open spec fn unsigned_digits(s: Seq<char>) -> Seq<char> {
    if s.len() > 1 && s[0] == '+' {
        s.drop_first()
    } else {
        s
    }
}

/// What `u32::from_str` gives: an optional `+`, then decimal digits whose value fits.
pub open spec fn parse_u32(s: Seq<char>) -> Option<u32> {
    let d = unsigned_digits(s);
    if d.len() == 0 || !all_digits(d) || digits_value(d) > u32::MAX {
        None
    } else {
        Some(digits_value(d) as u32)
    }
}

pub open spec fn or_zero(v: Option<u32>) -> u32 {
    match v {
        Some(x) => x,
        None => 0,
    }
}

/// The first `:` of `s`, if any.
pub open spec fn first_colon(s: Seq<char>, i: int) -> Option<int>
    decreases s.len() - i,
{
    if i < 0 || i >= s.len() {
        None
    } else if s[i] == ':' {
        Some(i)
    } else {
        first_colon(s, i + 1)
    }
}

/// The `(uid, gid)` of an image's `User`: a number for both, `uid:gid`, else root.
pub open spec fn user_ids(user: Option<String>) -> (u32, u32) {
    match user {
        None => (0, 0),
        Some(u) => if u@.len() == 0 {
            (0, 0)
        } else {
            match parse_u32(u@) {
                Some(id) => (id, id),
                None => match first_colon(u@, 0) {
                    Some(k) => (
                        or_zero(parse_u32(u@.subrange(0, k))),
                        or_zero(parse_u32(u@.subrange(k + 1, u@.len() as int))),
                    ),
                    None => (0, 0),
                },
            }
        },
    }
}

proof fn lemma_digits_grow(d: Seq<char>, i: int)
    requires
        0 <= i <= d.len(),
        all_digits(d),
    ensures
        digits_value(d) >= digits_value(d.subrange(0, i)),
        digits_value(d) >= 0,
    decreases d.len(),
{
    if d.len() == 0 {
        assert(d.subrange(0, i) =~= d);
    } else if i == d.len() {
        assert(d.subrange(0, i) =~= d);
        lemma_digits_grow(d.drop_last(), 0);
    } else {
        lemma_digits_grow(d.drop_last(), i);
        assert(d.drop_last().subrange(0, i) =~= d.subrange(0, i));
        assert(is_digit(d[d.len() - 1]));
    }
}

/// `u32::from_str` on `s`.
pub fn parse_u32_text(s: &str) -> (r: Option<u32>)
    ensures
        r == parse_u32(s@),
{
    let n = s.unicode_len();
    let start: usize = if n > 1 && s.get_char(0) == '+' {
        1
    } else {
        0
    };
    let ghost d = unsigned_digits(s@);
    assert(d =~= s@.subrange(start as int, n as int));
    if start == n {
        return None;
    }
    let mut value: u64 = 0;
    let mut i: usize = start;
    while i < n
        invariant
            n == s@.len(),
            start <= i <= n,
            d == s@.subrange(start as int, n as int),
            d == unsigned_digits(s@),
            d.len() > 0,
            value == digits_value(d.subrange(0, i - start)),
            value <= u32::MAX,
            forall|j: int| 0 <= j < i - start ==> is_digit(#[trigger] d[j]),
        decreases n - i,
    {
        let c = s.get_char(i);
        if !('0' <= c && c <= '9') {
            assert(!is_digit(d[i - start]));
            return None;
        }
        let digit = (c as u32 - '0' as u32) as u64;
        assert(d.subrange(0, i + 1 - start).drop_last() =~= d.subrange(0, i - start));
        let next = value * 10 + digit;
        if next > 4294967295 {
            proof {
                if all_digits(d) {
                    lemma_digits_grow(d, i + 1 - start);
                }
            }
            return None;
        }
        value = next;
        i = i + 1;
    }
    assert(d.subrange(0, n - start) =~= d);
    Some(value as u32)
}

/// The `(uid, gid)` an image's `User` names.
pub fn parse_user(user: &Option<String>) -> (r: (u32, u32))
    ensures
        r == user_ids(*user),
{
    let u = match user {
        None => return (0, 0),
        Some(u) => u.as_str(),
    };
    let n = u.unicode_len();
    if n == 0 {
        return (0, 0);
    }
    if let Some(id) = parse_u32_text(u) {
        return (id, id);
    }
    let mut k: usize = 0;
    while k < n && u.get_char(k) != ':'
        invariant
            n == u@.len(),
            k <= n,
            first_colon(u@, k as int) == first_colon(u@, 0),
        decreases n - k,
    {
        k = k + 1;
    }
    if k == n {
        return (0, 0);
    }
    let uid = match parse_u32_text(u.substring_char(0, k)) {
        Some(v) => v,
        None => 0,
    };
    let gid = match parse_u32_text(u.substring_char(k + 1, n)) {
        Some(v) => v,
        None => 0,
    };
    (uid, gid)
}

fn push_all(out: &mut Vec<String>, items: &Option<Vec<String>>)
    ensures
        texts(final(out)@) == texts(old(out)@) + texts_of(*items),
{
    match items {
        None => {
            assert(texts(out@) =~= texts(out@) + Seq::<Seq<char>>::empty());
        },
        Some(v) => {
            let ghost start = texts(out@);
            let mut i: usize = 0;
            while i < v.len()
                invariant
                    i <= v@.len(),
                    texts(out@) == start + texts(v@.subrange(0, i as int)),
                decreases v@.len() - i,
            {
                let ghost before = out@;
                out.push(v[i].clone());
                assert(texts(out@) =~= texts(before).push(v@[i as int]@));
                assert(texts(v@.subrange(0, i + 1)) =~= texts(v@.subrange(0, i as int)).push(
                    v@[i as int]@,
                ));
                i = i + 1;
            }
            assert(v@.subrange(0, i as int) =~= v@);
        },
    }
}

fn ready_shell_args() -> (r: Vec<String>)
    ensures
        texts(r@) == ready_shell(),
{
    let mut args: Vec<String> = Vec::new();
    args.push(String::from_str("sh"));
    args.push(String::from_str("-c"));
    args.push(String::from_str(READY_SHELL));
    assert(texts(args@) =~= ready_shell());
    args
}

fn any_prefixed(env: &Vec<String>, prefix: &str) -> (r: bool)
    ensures
        r == any_starts_with(texts(env@), prefix@),
{
    let m = prefix.unicode_len();
    let mut i: usize = 0;
    while i < env.len()
        invariant
            m == prefix@.len(),
            i <= env@.len(),
            forall|j: int| 0 <= j < i ==> !starts_with_text(#[trigger] texts(env@)[j], prefix@),
        decreases env@.len() - i,
    {
        let e = env[i].as_str();
        assert(texts(env@)[i as int] == e@);
        if e.unicode_len() >= m && str_eq(e.substring_char(0, m), prefix) {
            return true;
        }
        i = i + 1;
    }
    false
}

/// The process crun starts for an image config: its arguments, environment,
/// working directory and user.
pub fn runtime_process(cfg: &ProcessConfig, force_ready_shell: bool) -> (r: RuntimeProcess)
    ensures
        texts(r.args@) == process_args(*cfg, force_ready_shell),
        texts(r.env@) == process_env(*cfg),
        r.cwd@ == process_cwd(*cfg),
        (r.uid, r.gid) == user_ids(cfg.user),
{
    let args = if force_ready_shell {
        ready_shell_args()
    } else {
        let mut named: Vec<String> = Vec::new();
        assert(texts(named@) =~= Seq::<Seq<char>>::empty());
        push_all(&mut named, &cfg.entrypoint);
        push_all(&mut named, &cfg.cmd);
        assert(texts(named@) =~= texts_of(cfg.entrypoint) + texts_of(cfg.cmd));
        if named.len() == 0 {
            ready_shell_args()
        } else {
            named
        }
    };
    let mut env: Vec<String> = Vec::new();
    assert(texts(env@) =~= Seq::<Seq<char>>::empty());
    push_all(&mut env, &cfg.env);
    assert(texts(env@) =~= texts_of(cfg.env));
    if !any_prefixed(&env, "PATH=") {
        let ghost before = env@;
        env.push(String::from_str(DEFAULT_PATH));
        assert(texts(env@) =~= texts(before).push(DEFAULT_PATH@));
    }
    if !any_prefixed(&env, "TERM=") {
        let ghost before = env@;
        env.push(String::from_str(DEFAULT_TERM));
        assert(texts(env@) =~= texts(before).push(DEFAULT_TERM@));
    }
    let cwd = match &cfg.working_dir {
        Some(d) => if d.as_str().unicode_len() > 0 {
            String::from_str(d.as_str())
        } else {
            String::from_str("/")
        },
        None => String::from_str("/"),
    };
    let (uid, gid) = parse_user(&cfg.user);
    RuntimeProcess { args, env, cwd, uid, gid }
}

// ---------------------------------------------------------------------------
// Unpacking layers
// ---------------------------------------------------------------------------

/// Add a segment: empty ones and `.` name nothing.
pub open spec fn add_part(acc: Seq<Seq<u8>>, seg: Seq<u8>) -> Seq<Seq<u8>> {
    if seg.len() == 0 || seg == seq![46u8] {
        acc
    } else {
        acc.push(seg)
    }
}

pub open spec fn parts_scan(p: Seq<u8>, i: int, acc: Seq<Seq<u8>>, seg: Seq<u8>) -> Seq<Seq<u8>>
    decreases p.len() - i,
{
    if i >= p.len() {
        add_part(acc, seg)
    } else if p[i] == 47u8 {
        parts_scan(p, i + 1, add_part(acc, seg), seq![])
    } else {
        parts_scan(p, i + 1, acc, seg.push(p[i]))
    }
}

/// The named components of a path: its segments but the empty ones and `.`.
pub open spec fn parts(p: Seq<u8>) -> Seq<Seq<u8>> {
    parts_scan(p, 0, seq![], seq![])
}

/// `PathBuf::push` of one normal component.
pub open spec fn push_part(buf: Seq<u8>, part: Seq<u8>) -> Seq<u8> {
    if buf.len() > 0 && buf.last() != 47u8 {
        buf + seq![47u8] + part
    } else {
        buf + part
    }
}

pub open spec fn joined(base: Seq<u8>, ps: Seq<Seq<u8>>) -> Seq<u8>
    decreases ps.len(),
{
    if ps.len() == 0 {
        base
    } else {
        push_part(joined(base, ps.drop_last()), ps.last())
    }
}

/// `base` extended by the components `ps`, refused where one is `..`.
pub open spec fn safe_join(base: Seq<u8>, ps: Seq<Seq<u8>>) -> Result<Seq<u8>, Seq<char>> {
    if exists|i: int| 0 <= i < ps.len() && #[trigger] ps[i] == seq![46u8, 46u8] {
        Err("OCI layer path escapes the rootfs"@)
    } else {
        Ok(joined(base, ps))
    }
}

/// What unpacking does with one layer entry.
#[derive(Debug, Clone, PartialEq, Eq)]
pub enum EntryAction {
    /// The entry has no file name: nothing.
    Skip,
    /// An opaque whiteout: empty this directory.
    ClearOpaque(Vec<u8>),
    /// A whiteout: remove this path.
    Remove(Vec<u8>),
    /// Unpack the entry at this path.
    Unpack(Vec<u8>),
}

pub open spec fn map_join(r: Result<Seq<u8>, Seq<char>>, kind: int) -> Result<(int, Seq<u8>), Seq<char>> {
    match r {
        Ok(p) => Ok((kind, p)),
        Err(m) => Err(m),
    }
}

/// The action for an entry at `path`, as `(kind, target)`: kind 0 skips, 1 clears
/// an opaque directory, 2 removes a whited-out path, 3 unpacks.
pub open spec fn entry_plan(rootfs: Seq<u8>, path: Seq<u8>) -> Result<(int, Seq<u8>), Seq<char>> {
    let ps = parts(path);
    if ps.len() == 0 || ps.last() == seq![46u8, 46u8] || !vstd::utf8::valid_utf8(ps.last()) {
        Ok((0, seq![]))
    } else {
        let name = ps.last();
        let parent = ps.drop_last();
        if name == opaque_whiteout() {
            map_join(safe_join(rootfs, parent), 1)
        } else if starts_with(name, whiteout_prefix()) {
            map_join(safe_join(rootfs, add_part(parent, name.subrange(4, name.len() as int))), 2)
        } else {
            map_join(safe_join(rootfs, ps), 3)
        }
    }
}

pub open spec fn action_view(a: EntryAction) -> (int, Seq<u8>) {
    match a {
        EntryAction::Skip => (0, seq![]),
        EntryAction::ClearOpaque(p) => (1, p@),
        EntryAction::Remove(p) => (2, p@),
        EntryAction::Unpack(p) => (3, p@),
    }
}

pub open spec fn parts_view(v: Seq<Vec<u8>>) -> Seq<Seq<u8>> {
    v.map_values(|p: Vec<u8>| p@)
}

fn add_part_exec(acc: &mut Vec<Vec<u8>>, seg: Vec<u8>)
    ensures
        parts_view(final(acc)@) == add_part(parts_view(old(acc)@), seg@),
{
    if seg.len() == 0 {
        return;
    }
    if seg.len() == 1 && seg[0] == 46u8 {
        assert(seg@ =~= seq![46u8]);
        return;
    }
    assert(seg@ != seq![46u8]);
    let ghost before = acc@;
    acc.push(seg);
    assert(parts_view(acc@) =~= parts_view(before).push(seg@));
}

/// The named components of `path`.
pub fn path_parts(path: &[u8]) -> (r: Vec<Vec<u8>>)
    ensures
        parts_view(r@) == parts(path@),
{
    let mut acc: Vec<Vec<u8>> = Vec::new();
    let mut seg: Vec<u8> = Vec::new();
    let mut i: usize = 0;
    assert(parts_view(acc@) =~= Seq::<Seq<u8>>::empty());
    while i < path.len()
        invariant
            i <= path@.len(),
            parts_scan(path@, i as int, parts_view(acc@), seg@) == parts(path@),
        decreases path@.len() - i,
    {
        if path[i] == 47u8 {
            let done = seg;
            seg = Vec::new();
            add_part_exec(&mut acc, done);
        } else {
            seg.push(path[i]);
        }
        i = i + 1;
    }
    add_part_exec(&mut acc, seg);
    acc
}

fn is_parent(part: &Vec<u8>) -> (r: bool)
    ensures
        r == (part@ == seq![46u8, 46u8]),
{
    let r = part.len() == 2 && part[0] == 46u8 && part[1] == 46u8;
    if r {
        assert(part@ =~= seq![46u8, 46u8]);
    }
    r
}

/// `base` extended by the components `ps`; a `..` escapes the rootfs.
pub fn join_parts(base: &[u8], ps: &Vec<Vec<u8>>) -> (r: Result<Vec<u8>, RelayError>)
    ensures
        match safe_join(base@, parts_view(ps@)) {
            Ok(p) => r is Ok && r->Ok_0@ == p,
            Err(m) => fails_with(r, m),
        },
{
    let ghost view = parts_view(ps@);
    let mut k: usize = 0;
    while k < ps.len()
        invariant
            view == parts_view(ps@),
            k <= ps@.len(),
            forall|j: int| 0 <= j < k ==> view[j] != seq![46u8, 46u8],
        decreases ps@.len() - k,
    {
        if is_parent(&ps[k]) {
            assert(view[k as int] == seq![46u8, 46u8]);
            return failed("OCI layer path escapes the rootfs");
        }
        k = k + 1;
    }
    let mut out: Vec<u8> = Vec::new();
    let mut i: usize = 0;
    while i < base.len()
        invariant
            i <= base@.len(),
            out@ == base@.subrange(0, i as int),
        decreases base@.len() - i,
    {
        out.push(base[i]);
        i = i + 1;
        assert(base@.subrange(0, i as int) =~= base@.subrange(0, i - 1).push(base@[i - 1]));
    }
    assert(base@.subrange(0, i as int) =~= base@);
    let mut j: usize = 0;
    while j < ps.len()
        invariant
            view == parts_view(ps@),
            j <= ps@.len(),
            out@ == joined(base@, view.subrange(0, j as int)),
        decreases ps@.len() - j,
    {
        let ghost before = out@;
        if out.len() > 0 && out[out.len() - 1] != 47u8 {
            out.push(47u8);
        }
        let part = &ps[j];
        let ghost mid = out@;
        let mut b: usize = 0;
        while b < part.len()
            invariant
                b <= part@.len(),
                out@ == mid + part@.subrange(0, b as int),
            decreases part@.len() - b,
        {
            out.push(part[b]);
            b = b + 1;
            assert(part@.subrange(0, b as int) =~= part@.subrange(0, b - 1).push(part@[b - 1]));
        }
        assert(part@.subrange(0, b as int) =~= part@);
        assert(view.subrange(0, j + 1).drop_last() =~= view.subrange(0, j as int));
        assert(out@ =~= push_part(before, view[j as int]));
        j = j + 1;
    }
    assert(view.subrange(0, j as int) =~= view);
    Ok(out)
}

/// What to do with a layer entry at `path` when unpacking under `rootfs`.
pub fn entry_action(rootfs: &[u8], path: &[u8]) -> (r: Result<EntryAction, RelayError>)
    ensures
        match entry_plan(rootfs@, path@) {
            Ok(v) => r is Ok && action_view(r->Ok_0) == v,
            Err(m) => fails_with(r, m),
        },
{
    let mut ps = path_parts(path);
    let n = ps.len();
    if n == 0 {
        return Ok(EntryAction::Skip);
    }
    let ghost all = parts_view(ps@);
    assert(all.last() == ps@[n - 1]@);
    if is_parent(&ps[n - 1]) || !is_utf8(ps[n - 1].as_slice()) {
        return Ok(EntryAction::Skip);
    }
    let name = ps.pop().unwrap();
    assert(parts_view(ps@) =~= all.drop_last());
    let len = name.len();
    let prefixed = len >= 4 && name[0] == 46u8 && name[1] == 119u8 && name[2] == 104u8 && name[3]
        == 46u8;
    assert(prefixed == starts_with(name@, whiteout_prefix())) by {
        if starts_with(name@, whiteout_prefix()) {
            assert(name@.subrange(0, 4)[0] == 46u8);
            assert(name@.subrange(0, 4)[1] == 119u8);
            assert(name@.subrange(0, 4)[2] == 104u8);
            assert(name@.subrange(0, 4)[3] == 46u8);
        }
        if prefixed {
            assert(name@.subrange(0, 4) =~= whiteout_prefix());
        }
    }
    let opaque = len == 12 && prefixed && name[4] == 46u8 && name[5] == 119u8 && name[6] == 104u8
        && name[7] == 46u8 && name[8] == 46u8 && name[9] == 111u8 && name[10] == 112u8 && name[11]
        == 113u8;
    assert(opaque == (name@ == opaque_whiteout())) by {
        if name@ == opaque_whiteout() {
            assert(name@[4] == opaque_whiteout()[4]);
            assert(name@[5] == opaque_whiteout()[5]);
            assert(name@[6] == opaque_whiteout()[6]);
            assert(name@[7] == opaque_whiteout()[7]);
            assert(name@[8] == opaque_whiteout()[8]);
            assert(name@[9] == opaque_whiteout()[9]);
            assert(name@[10] == opaque_whiteout()[10]);
            assert(name@[11] == opaque_whiteout()[11]);
        }
        if opaque {
            assert(name@ =~= opaque_whiteout());
        }
    }
    if opaque {
        let dir = join_parts(rootfs, &ps)?;
        return Ok(EntryAction::ClearOpaque(dir));
    }
    if prefixed {
        let mut target: Vec<u8> = Vec::new();
        let mut i: usize = 4;
        while i < len
            invariant
                len == name@.len(),
                4 <= i <= len,
                target@ == name@.subrange(4, i as int),
            decreases len - i,
        {
            target.push(name[i]);
            i = i + 1;
            assert(name@.subrange(4, i as int) =~= name@.subrange(4, i - 1).push(name@[i - 1]));
        }
        add_part_exec(&mut ps, target);
        let gone = join_parts(rootfs, &ps)?;
        return Ok(EntryAction::Remove(gone));
    }
    ps.push(name);
    assert(parts_view(ps@) =~= all);
    let dest = join_parts(rootfs, &ps)?;
    Ok(EntryAction::Unpack(dest))
}

proof fn lemma_joined_extends(base: Seq<u8>, ps: Seq<Seq<u8>>)
    ensures
        joined(base, ps).len() >= base.len(),
        joined(base, ps).subrange(0, base.len() as int) == base,
    decreases ps.len(),
{
    if ps.len() > 0 {
        lemma_joined_extends(base, ps.drop_last());
        let prev = joined(base, ps.drop_last());
        let next = joined(base, ps);
        assert(next.subrange(0, prev.len() as int) =~= prev);
        assert(next.subrange(0, base.len() as int) =~= prev.subrange(0, base.len() as int));
    }
}

/// Whatever a layer entry makes unpacking touch lies under the rootfs: the
/// target of every action begins with the rootfs path.
pub proof fn lemma_entries_stay_in_rootfs(rootfs: Seq<u8>, path: Seq<u8>)
    requires
        entry_plan(rootfs, path) is Ok,
        entry_plan(rootfs, path)->Ok_0.0 != 0,
    ensures
        ({
            let target = entry_plan(rootfs, path)->Ok_0.1;
            target.len() >= rootfs.len() && target.subrange(0, rootfs.len() as int) == rootfs
        }),
{
    let ps = parts(path);
    let name = ps.last();
    let parent = ps.drop_last();
    lemma_joined_extends(rootfs, parent);
    lemma_joined_extends(rootfs, ps);
    lemma_joined_extends(rootfs, add_part(parent, name.subrange(4, name.len() as int)));
}

} // verus!
