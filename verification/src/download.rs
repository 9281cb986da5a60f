//! The acquisition pipeline: from a fetched version descriptor and the
//! observed state of the installation root to the exact sequence of
//! filesystem and network actions that populates the root.
//!
//! The pipeline itself performs no I/O. The caller fetches the descriptor,
//! probes the primary archive (`JarState`), and then executes the returned
//! [`Action`]s in order: that keeps every decision — which artifacts to
//! fetch, what to delete, when the archive is already valid — verified,
//! while reads and writes stay at the caller's edge.

use vstd::prelude::*;
use crate::library::{LibraryData, spec_allowed};
use crate::version::{ClientData, Version, VersionData};
use crate::text::str_eq;
use sha1::Digest;

verus! {

/// One step of an acquisition, relative to the installation root. Paths
/// use `/` as separator; the executor joins them onto the root directory.
#[derive(Debug, PartialEq)]
pub enum Action {
    /// Create the directory (and its parents) if it is absent.
    EnsureDir { path: String },
    /// Download `url` to `path` unless a file already exists there; an
    /// existing file is kept whatever it holds, without a hash check.
    FetchIfAbsent { url: String, path: String },
    /// Download `url` to `path` unconditionally.
    Fetch { url: String, path: String },
    /// Delete the file at `path`.
    DeleteFile { path: String },
    /// Write the raw bytes of the fetched descriptor to `path`.
    WriteDescriptor { path: String },
}

/// Mathematical image of an [`Action`].
pub enum ActionData {
    EnsureDir { path: Seq<char> },
    FetchIfAbsent { url: Seq<char>, path: Seq<char> },
    Fetch { url: Seq<char>, path: Seq<char> },
    DeleteFile { path: Seq<char> },
    WriteDescriptor { path: Seq<char> },
}

impl DeepView for Action {
    type V = ActionData;

    open spec fn deep_view(&self) -> ActionData {
        match self {
            Action::EnsureDir { path } => ActionData::EnsureDir { path: path@ },
            Action::FetchIfAbsent { url, path } => ActionData::FetchIfAbsent {
                url: url@,
                path: path@,
            },
            Action::Fetch { url, path } => ActionData::Fetch { url: url@, path: path@ },
            Action::DeleteFile { path } => ActionData::DeleteFile { path: path@ },
            Action::WriteDescriptor { path } => ActionData::WriteDescriptor { path: path@ },
        }
    }
}

/// What the caller observed of the primary archive before planning.
pub enum JarState {
    /// No file at the archive path.
    Absent,
    /// A file is there; `sha1_hex` is its computed digest.
    Present { sha1_hex: String },
}

/// Mathematical image of a [`JarState`].
pub enum JarStateData {
    Absent,
    Present { sha1_hex: Seq<char> },
}

impl DeepView for JarState {
    type V = JarStateData;

    open spec fn deep_view(&self) -> JarStateData {
        match self {
            JarState::Absent => JarStateData::Absent,
            JarState::Present { sha1_hex } => JarStateData::Present { sha1_hex: sha1_hex@ },
        }
    }
}

/// The version directory of a descriptor id.
pub open spec fn spec_version_dir(id: Seq<char>) -> Seq<char> {
    "versions/"@ + id
}

/// The primary archive path of a descriptor id.
pub open spec fn spec_jar_path(id: Seq<char>) -> Seq<char> {
    "versions/"@ + id + "/"@ + id + ".jar"@
}

/// The descriptor file path: the directory is named after the descriptor
/// id, the file after the requested catalog id.
pub open spec fn spec_config_path(dir_id: Seq<char>, requested_id: Seq<char>) -> Seq<char> {
    "versions/"@ + dir_id + "/"@ + requested_id + ".json"@
}

/// Where a library artifact lands, from its declared relative path.
pub open spec fn spec_library_path(artifact_path: Seq<char>) -> Seq<char> {
    "libraries/"@ + artifact_path
}

/// Where an asset index lands, from its id.
pub open spec fn spec_asset_index_path(asset_id: Seq<char>) -> Seq<char> {
    "assets/indexes/"@ + asset_id + ".json"@
}

fn version_dir_path(id: &str) -> (r: String)
    ensures
        r@ == spec_version_dir(id@),
{
    String::from_str("versions/").concat(id)
}

fn jar_path(id: &str) -> (r: String)
    ensures
        r@ == spec_jar_path(id@),
{
    let r = String::from_str("versions/").concat(id).concat("/").concat(id).concat(".jar");
    proof {
        assert(r@ =~= spec_jar_path(id@));
    }
    r
}

fn config_path(dir_id: &str, requested_id: &str) -> (r: String)
    ensures
        r@ == spec_config_path(dir_id@, requested_id@),
{
    let r = String::from_str("versions/").concat(dir_id).concat("/").concat(requested_id).concat(
        ".json",
    );
    proof {
        assert(r@ =~= spec_config_path(dir_id@, requested_id@));
    }
    r
}

fn library_path(artifact_path: &str) -> (r: String)
    ensures
        r@ == spec_library_path(artifact_path@),
{
    String::from_str("libraries/").concat(artifact_path)
}

fn asset_index_path(asset_id: &str) -> (r: String)
    ensures
        r@ == spec_asset_index_path(asset_id@),
{
    let r = String::from_str("assets/indexes/").concat(asset_id).concat(".json");
    proof {
        assert(r@ =~= spec_asset_index_path(asset_id@));
    }
    r
}

/// The fetch actions for the dependency libraries: one conditional fetch
/// per library that the platform filter allows, in declaration order.
pub open spec fn spec_library_actions(libs: Seq<LibraryData>, os: Seq<char>) -> Seq<ActionData>
    decreases libs.len(),
{
    if libs.len() == 0 {
        Seq::empty()
    } else {
        let rest = spec_library_actions(libs.drop_last(), os);
        if spec_allowed(libs.last(), os) {
            rest.push(
                ActionData::FetchIfAbsent {
                    url: libs.last().downloads.artifact.url,
                    path: spec_library_path(libs.last().downloads.artifact.path),
                },
            )
        } else {
            rest
        }
    }
}

/// The actions that overwrite the descriptor file: a delete first when a
/// prior file is present, then the write.
pub open spec fn spec_config_actions(cfg: Seq<char>, config_exists: bool) -> Seq<ActionData> {
    if config_exists {
        seq![
            ActionData::DeleteFile { path: cfg },
            ActionData::WriteDescriptor { path: cfg },
        ]
    } else {
        seq![ActionData::WriteDescriptor { path: cfg }]
    }
}

/// The actions for the primary archive: none when the observed digest
/// matches the declared one; a delete and a fresh download on a mismatch;
/// a plain download when the file is absent.
pub open spec fn spec_jar_actions(jar: JarStateData, client: ClientData, dir_id: Seq<char>) -> Seq<
    ActionData,
> {
    match jar {
        JarStateData::Absent => seq![
            ActionData::Fetch { url: client.url, path: spec_jar_path(dir_id) },
        ],
        JarStateData::Present { sha1_hex } => {
            if sha1_hex == client.sha1 {
                Seq::empty()
            } else {
                seq![
                    ActionData::DeleteFile { path: spec_jar_path(dir_id) },
                    ActionData::Fetch { url: client.url, path: spec_jar_path(dir_id) },
                ]
            }
        },
    }
}

/// The whole acquisition plan, in execution order: ensure the version
/// directory, fetch the allowed libraries, fetch the asset index, overwrite
/// the descriptor file, and settle the primary archive.
pub open spec fn spec_acquire_plan(
    requested_id: Seq<char>,
    desc: VersionData,
    jar: JarStateData,
    config_exists: bool,
    os: Seq<char>,
) -> Seq<ActionData> {
    seq![ActionData::EnsureDir { path: spec_version_dir(desc.id) }]
        + spec_library_actions(desc.libraries, os) + seq![
        ActionData::FetchIfAbsent {
            url: desc.asset_index.url,
            path: spec_asset_index_path(desc.asset_index.id),
        },
    ] + spec_config_actions(spec_config_path(desc.id, requested_id), config_exists)
        + spec_jar_actions(jar, desc.downloads.client, desc.id)
}

/// Compute the acquisition plan for one descriptor against the observed
/// root state. Failure of any executed action aborts the whole acquisition;
/// actions already executed are left as they are.
pub fn acquire_plan(
    requested_id: &str,
    desc: &Version,
    jar: &JarState,
    config_exists: bool,
    os_name: &str,
) -> (r: Vec<Action>)
    ensures
        r.deep_view() == spec_acquire_plan(
            requested_id@,
            desc.deep_view(),
            jar.deep_view(),
            config_exists,
            os_name@,
        ),
{
    let ghost dv = desc.deep_view();
    let mut out: Vec<Action> = Vec::new();
    out.push(Action::EnsureDir { path: version_dir_path(desc.id.as_str()) });
    let ghost seg1 = seq![ActionData::EnsureDir { path: spec_version_dir(dv.id) }];
    proof {
        assert(out.deep_view() =~= seg1);
    }

    let ghost libsv = desc.libraries.deep_view();
    let n = desc.libraries.len();
    let mut i: usize = 0;
    while i < n
        invariant
            n == desc.libraries.len(),
            libsv == desc.libraries.deep_view(),
            dv == desc.deep_view(),
            0 <= i <= n,
            out.deep_view() == seg1 + spec_library_actions(libsv.take(i as int), os_name@),
        decreases n - i,
    {
        proof {
            assert(libsv[i as int] == desc.libraries@[i as int].deep_view());
            assert(libsv.take(i + 1).drop_last() =~= libsv.take(i as int));
            assert(libsv.take(i + 1).last() == libsv[i as int]);
        }
        let lib = &desc.libraries[i];
        if lib.allowed(os_name) {
            let url = lib.downloads.artifact.url.clone();
            let path = library_path(lib.downloads.artifact.path.as_str());
            let ghost prev = out.deep_view();
            out.push(Action::FetchIfAbsent { url, path });
            proof {
                assert(out.deep_view() =~= prev.push(
                    ActionData::FetchIfAbsent {
                        url: libsv[i as int].downloads.artifact.url,
                        path: spec_library_path(libsv[i as int].downloads.artifact.path),
                    },
                ));
                assert(out.deep_view() =~= seg1 + spec_library_actions(
                    libsv.take(i + 1),
                    os_name@,
                ));
            }
        } else {
            proof {
                assert(out.deep_view() =~= seg1 + spec_library_actions(
                    libsv.take(i + 1),
                    os_name@,
                ));
            }
        }
        i = i + 1;
    }
    proof {
        assert(libsv.take(n as int) =~= libsv);
    }

    let ghost seg2 = seg1 + spec_library_actions(libsv, os_name@);
    let asset_url = desc.asset_index.url.clone();
    let asset_path = asset_index_path(desc.asset_index.id.as_str());
    out.push(Action::FetchIfAbsent { url: asset_url, path: asset_path });
    let ghost seg3 = seg2 + seq![
        ActionData::FetchIfAbsent {
            url: dv.asset_index.url,
            path: spec_asset_index_path(dv.asset_index.id),
        },
    ];
    proof {
        assert(out.deep_view() =~= seg3);
    }

    let cfg = config_path(desc.id.as_str(), requested_id);
    if config_exists {
        let ghost prev2 = out.deep_view();
        out.push(Action::DeleteFile { path: cfg.clone() });
        proof {
            assert(out.deep_view() =~= prev2.push(
                ActionData::DeleteFile { path: spec_config_path(dv.id, requested_id@) },
            ));
        }
    }
    out.push(Action::WriteDescriptor { path: cfg });
    let ghost seg4 = seg3 + spec_config_actions(
        spec_config_path(dv.id, requested_id@),
        config_exists,
    );
    proof {
        assert(out.deep_view() =~= seg4);
    }

    match jar {
        JarState::Absent => {
            out.push(
                Action::Fetch {
                    url: desc.downloads.client.url.clone(),
                    path: jar_path(desc.id.as_str()),
                },
            );
            proof {
                assert(out.deep_view() =~= seg4 + spec_jar_actions(
                    jar.deep_view(),
                    dv.downloads.client,
                    dv.id,
                ));
            }
        },
        JarState::Present { sha1_hex } => {
            if !str_eq(sha1_hex.as_str(), desc.downloads.client.sha1.as_str()) {
                out.push(Action::DeleteFile { path: jar_path(desc.id.as_str()) });
                out.push(
                    Action::Fetch {
                        url: desc.downloads.client.url.clone(),
                        path: jar_path(desc.id.as_str()),
                    },
                );
                proof {
                    assert(out.deep_view() =~= seg4 + spec_jar_actions(
                        jar.deep_view(),
                        dv.downloads.client,
                        dv.id,
                    ));
                }
            } else {
                proof {
                    assert(out.deep_view() =~= seg4 + spec_jar_actions(
                        jar.deep_view(),
                        dv.downloads.client,
                        dv.id,
                    ));
                }
            }
        },
    }
    proof {
        assert(out.deep_view() =~= spec_acquire_plan(
            requested_id@,
            dv,
            jar.deep_view(),
            config_exists,
            os_name@,
        ));
    }
    out
}

/// The character a hex digit value is written as, lower case.
pub open spec fn hex_digit(n: u8) -> char {
    if n == 0 {
        '0'
    } else if n == 1 {
        '1'
    } else if n == 2 {
        '2'
    } else if n == 3 {
        '3'
    } else if n == 4 {
        '4'
    } else if n == 5 {
        '5'
    } else if n == 6 {
        '6'
    } else if n == 7 {
        '7'
    } else if n == 8 {
        '8'
    } else if n == 9 {
        '9'
    } else if n == 10 {
        'a'
    } else if n == 11 {
        'b'
    } else if n == 12 {
        'c'
    } else if n == 13 {
        'd'
    } else if n == 14 {
        'e'
    } else {
        'f'
    }
}

/// A byte string written in lower-case hex, two digits per byte.
pub open spec fn hex_of(b: Seq<u8>) -> Seq<char>
    decreases b.len(),
{
    if b.len() == 0 {
        Seq::empty()
    } else {
        hex_of(b.drop_last()) + seq![hex_digit(b.last() / 16), hex_digit(b.last() % 16)]
    }
}

/// Hex doubles the length.
pub proof fn lemma_hex_of_len(b: Seq<u8>)
    ensures
        hex_of(b).len() == 2 * b.len(),
    decreases b.len(),
{
    if b.len() > 0 {
        lemma_hex_of_len(b.drop_last());
    }
}

fn push_hex_digit(s: &mut String, n: u8)
    requires
        n < 16,
    ensures
        final(s)@ == old(s)@.push(hex_digit(n)),
{
    let d: &str = match n {
        0 => "0",
        1 => "1",
        2 => "2",
        3 => "3",
        4 => "4",
        5 => "5",
        6 => "6",
        7 => "7",
        8 => "8",
        9 => "9",
        10 => "a",
        11 => "b",
        12 => "c",
        13 => "d",
        14 => "e",
        _ => "f",
    };
    proof {
        reveal_strlit("0");
        reveal_strlit("1");
        reveal_strlit("2");
        reveal_strlit("3");
        reveal_strlit("4");
        reveal_strlit("5");
        reveal_strlit("6");
        reveal_strlit("7");
        reveal_strlit("8");
        reveal_strlit("9");
        reveal_strlit("a");
        reveal_strlit("b");
        reveal_strlit("c");
        reveal_strlit("d");
        reveal_strlit("e");
        reveal_strlit("f");
        assert(d@ =~= seq![hex_digit(n)]);
    }
    let ghost before = s@;
    s.append(d);
    proof {
        assert(s@ =~= before.push(hex_digit(n)));
    }
}

/// Write a byte string in lower-case hex.
pub fn to_hex(bytes: &Vec<u8>) -> (r: String)
    ensures
        r@ == hex_of(bytes@),
{
    let mut r = String::new();
    let n = bytes.len();
    let mut i: usize = 0;
    while i < n
        invariant
            n == bytes@.len(),
            0 <= i <= n,
            r@ == hex_of(bytes@.take(i as int)),
        decreases n - i,
    {
        let b = bytes[i];
        push_hex_digit(&mut r, b / 16);
        push_hex_digit(&mut r, b % 16);
        proof {
            assert(bytes@.take(i + 1).drop_last() =~= bytes@.take(i as int));
            assert(bytes@.take(i + 1).last() == bytes@[i as int]);
            assert(r@ =~= hex_of(bytes@.take(i + 1)));
        }
        i = i + 1;
    }
    proof {
        assert(bytes@.take(n as int) =~= bytes@);
    }
    r
}

/// The SHA-1 digest of a byte string: 20 bytes, a function of the input
/// alone.
pub uninterp spec fn sha1_of(b: Seq<u8>) -> Seq<u8>;

/// Relies on sha1's `Sha1::digest` (through the `Digest` trait): the SHA-1
/// digest of the input, always 20 bytes, depending on the input alone.
#[verifier::external_body]
fn sha1_digest(bytes: &Vec<u8>) -> (r: Vec<u8>)
    ensures
        r@ == sha1_of(bytes@),
        r@.len() == 20,
{
    sha1::Sha1::digest(bytes.as_slice()).to_vec()
}

/// The digest of a byte string in lower-case hex, the form in which the
/// descriptor declares the primary archive's hash.
pub fn sha1_hex(bytes: &Vec<u8>) -> (r: String)
    ensures
        r@ == hex_of(sha1_of(bytes@)),
        r@.len() == 40,
{
    let d = sha1_digest(bytes);
    let r = to_hex(&d);
    proof {
        lemma_hex_of_len(sha1_of(bytes@));
    }
    r
}

/// The archive validity check: a local file is valid exactly when its
/// digest, written in hex, equals the declared one.
pub fn jar_valid(jar_bytes: &Vec<u8>, declared_sha1: &str) -> (r: bool)
    ensures
        r == (hex_of(sha1_of(jar_bytes@)) == declared_sha1@),
{
    let h = sha1_hex(jar_bytes);
    str_eq(h.as_str(), declared_sha1)
}

/// The pipeline stage an action belongs to, as a failure report names it.
pub open spec fn spec_action_stage(a: ActionData) -> Seq<char> {
    match a {
        ActionData::EnsureDir { .. } => "create version directory"@,
        ActionData::FetchIfAbsent { .. } => "fetch artifact"@,
        ActionData::Fetch { .. } => "fetch primary archive"@,
        ActionData::DeleteFile { .. } => "delete stale file"@,
        ActionData::WriteDescriptor { .. } => "write descriptor"@,
    }
}

/// Name the stage a failing action belongs to, so that an aborted
/// acquisition reports the stage along with the underlying cause.
pub fn action_stage(a: &Action) -> (r: &'static str)
    ensures
        r@ == spec_action_stage(a.deep_view()),
{
    match a {
        Action::EnsureDir { .. } => "create version directory",
        Action::FetchIfAbsent { .. } => "fetch artifact",
        Action::Fetch { .. } => "fetch primary archive",
        Action::DeleteFile { .. } => "delete stale file",
        Action::WriteDescriptor { .. } => "write descriptor",
    }
}

/// The path an action works on.
pub open spec fn action_path(a: ActionData) -> Seq<char> {
    match a {
        ActionData::EnsureDir { path } => path,
        ActionData::FetchIfAbsent { url, path } => path,
        ActionData::Fetch { url, path } => path,
        ActionData::DeleteFile { path } => path,
        ActionData::WriteDescriptor { path } => path,
    }
}

/// Every library action is a conditional fetch into the library tree.
proof fn lemma_library_actions_conditional(libs: Seq<LibraryData>, os: Seq<char>)
    ensures
        forall|i: int|
            0 <= i < spec_library_actions(libs, os).len() ==> (#[trigger] spec_library_actions(
                libs,
                os,
            )[i]) is FetchIfAbsent && action_path(spec_library_actions(libs, os)[i]).len() > 0
                && action_path(spec_library_actions(libs, os)[i])[0] == 'l',
    decreases libs.len(),
{
    reveal_strlit("libraries/");
    if libs.len() > 0 {
        lemma_library_actions_conditional(libs.drop_last(), os);
    }
}

proof fn lemma_jar_path_shape(id: Seq<char>)
    ensures
        spec_jar_path(id).len() > 0,
        spec_jar_path(id)[0] == 'v',
        spec_jar_path(id).last() == 'r',
        spec_jar_path(id).len() > spec_version_dir(id).len(),
{
    reveal_strlit("versions/");
    reveal_strlit("/");
    reveal_strlit(".jar");
    let jar = spec_jar_path(id);
    assert(jar[0] == "versions/"@[0]);
    assert(jar[jar.len() - 1] == ".jar"@[3]);
}

proof fn lemma_config_path_not_jar_path(id: Seq<char>, req: Seq<char>)
    ensures
        spec_config_path(id, req) != spec_jar_path(id),
{
    reveal_strlit(".json");
    lemma_jar_path_shape(id);
    let cfg = spec_config_path(id, req);
    let jar = spec_jar_path(id);
    assert(cfg[cfg.len() - 1] == ".json"@[4]);
    if cfg == jar {
        assert(cfg[cfg.len() - 1] == jar[jar.len() - 1]);
        assert(false);
    }
}

proof fn lemma_asset_path_not_jar_path(aid: Seq<char>, id: Seq<char>)
    ensures
        spec_asset_index_path(aid) != spec_jar_path(id),
{
    reveal_strlit("assets/indexes/");
    lemma_jar_path_shape(id);
    let ap = spec_asset_index_path(aid);
    assert(ap[0] == "assets/indexes/"@[0]);
    if ap == spec_jar_path(id) {
        assert(ap[0] == spec_jar_path(id)[0]);
        assert(false);
    }
}

/// With the local primary archive already matching its declared digest, the
/// acquisition plan holds no unconditional download and no action on the
/// archive path at all: every download left in the plan is conditional on
/// its file being absent, so over a populated root the acquisition issues
/// no network request and succeeds with the archive untouched.
pub proof fn lemma_plan_archive_valid(
    requested_id: Seq<char>,
    desc: VersionData,
    digest_hex: Seq<char>,
    config_exists: bool,
    os: Seq<char>,
)
    requires
        digest_hex == desc.downloads.client.sha1,
    ensures
        ({
            let plan = spec_acquire_plan(
                requested_id,
                desc,
                JarStateData::Present { sha1_hex: digest_hex },
                config_exists,
                os,
            );
            forall|i: int|
                0 <= i < plan.len() ==> !((#[trigger] plan[i]) is Fetch) && action_path(plan[i])
                    != spec_jar_path(desc.id)
        }),
{
    let plan = spec_acquire_plan(
        requested_id,
        desc,
        JarStateData::Present { sha1_hex: digest_hex },
        config_exists,
        os,
    );
    let jar = spec_jar_path(desc.id);
    let cfg = spec_config_path(desc.id, requested_id);
    let libacts = spec_library_actions(desc.libraries, os);
    let cfgacts = spec_config_actions(cfg, config_exists);
    let jaracts = spec_jar_actions(
        JarStateData::Present { sha1_hex: digest_hex },
        desc.downloads.client,
        desc.id,
    );
    assert(jaracts =~= Seq::<ActionData>::empty());
    assert(plan.len() == 2 + libacts.len() + cfgacts.len());
    lemma_library_actions_conditional(desc.libraries, os);
    lemma_jar_path_shape(desc.id);
    lemma_config_path_not_jar_path(desc.id, requested_id);
    lemma_asset_path_not_jar_path(desc.asset_index.id, desc.id);
    assert forall|i: int|
        0 <= i < plan.len() implies !((#[trigger] plan[i]) is Fetch) && action_path(plan[i])
        != jar by {
        if i == 0 {
            assert(plan[i] == ActionData::EnsureDir { path: spec_version_dir(desc.id) });
        } else if i <= libacts.len() {
            assert(plan[i] == libacts[i - 1]);
            assert(action_path(plan[i])[0] == 'l');
        } else if i == 1 + libacts.len() {
            assert(plan[i] == ActionData::FetchIfAbsent {
                url: desc.asset_index.url,
                path: spec_asset_index_path(desc.asset_index.id),
            });
        } else {
            assert(plan[i] == cfgacts[i - 2 - libacts.len()]);
            assert(action_path(plan[i]) == cfg);
        }
    }
}

/// With a present archive whose digest mismatches the declared one, the
/// plan deletes exactly that file and downloads it anew from the declared
/// source: the archive download is the only unconditional one, and nothing
/// is deleted but the archive and the descriptor file that every
/// acquisition overwrites; already-present libraries and asset indexes are
/// left untouched.
pub proof fn lemma_plan_archive_stale(
    requested_id: Seq<char>,
    desc: VersionData,
    digest_hex: Seq<char>,
    config_exists: bool,
    os: Seq<char>,
)
    requires
        digest_hex != desc.downloads.client.sha1,
    ensures
        ({
            let plan = spec_acquire_plan(
                requested_id,
                desc,
                JarStateData::Present { sha1_hex: digest_hex },
                config_exists,
                os,
            );
            let jar = spec_jar_path(desc.id);
            let cfg = spec_config_path(desc.id, requested_id);
            &&& plan.len() >= 2
            &&& plan[plan.len() - 2] == ActionData::DeleteFile { path: jar }
            &&& plan[plan.len() - 1] == ActionData::Fetch {
                url: desc.downloads.client.url,
                path: jar,
            }
            &&& forall|i: int|
                0 <= i < plan.len() && ((#[trigger] plan[i]) is Fetch) ==> i == plan.len() - 1
            &&& forall|i: int|
                0 <= i < plan.len() && ((#[trigger] plan[i]) is DeleteFile) ==> action_path(
                    plan[i],
                ) == jar || action_path(plan[i]) == cfg
        }),
{
    let plan = spec_acquire_plan(
        requested_id,
        desc,
        JarStateData::Present { sha1_hex: digest_hex },
        config_exists,
        os,
    );
    let jar = spec_jar_path(desc.id);
    let cfg = spec_config_path(desc.id, requested_id);
    let libacts = spec_library_actions(desc.libraries, os);
    let cfgacts = spec_config_actions(cfg, config_exists);
    let jaracts = spec_jar_actions(
        JarStateData::Present { sha1_hex: digest_hex },
        desc.downloads.client,
        desc.id,
    );
    assert(jaracts.len() == 2);
    assert(plan.len() == 2 + libacts.len() + cfgacts.len() + 2);
    lemma_library_actions_conditional(desc.libraries, os);
    assert(plan[plan.len() - 2] == jaracts[0]);
    assert(plan[plan.len() - 1] == jaracts[1]);
    assert forall|i: int|
        0 <= i < plan.len() && ((#[trigger] plan[i]) is Fetch) implies i == plan.len() - 1 by {
        if i == 0 {
            assert(plan[i] == ActionData::EnsureDir { path: spec_version_dir(desc.id) });
        } else if i <= libacts.len() {
            assert(plan[i] == libacts[i - 1]);
        } else if i == 1 + libacts.len() {
            assert(plan[i] == ActionData::FetchIfAbsent {
                url: desc.asset_index.url,
                path: spec_asset_index_path(desc.asset_index.id),
            });
        } else if i < 2 + libacts.len() + cfgacts.len() {
            assert(plan[i] == cfgacts[i - 2 - libacts.len()]);
        } else if i == plan.len() - 2 {
            assert(plan[i] == jaracts[0]);
        }
    }
    assert forall|i: int|
        0 <= i < plan.len() && ((#[trigger] plan[i]) is DeleteFile) implies action_path(plan[i])
        == jar || action_path(plan[i]) == cfg by {
        if i == 0 {
            assert(plan[i] == ActionData::EnsureDir { path: spec_version_dir(desc.id) });
        } else if i <= libacts.len() {
            assert(plan[i] == libacts[i - 1]);
        } else if i == 1 + libacts.len() {
            assert(plan[i] == ActionData::FetchIfAbsent {
                url: desc.asset_index.url,
                path: spec_asset_index_path(desc.asset_index.id),
            });
        } else if i < 2 + libacts.len() + cfgacts.len() {
            assert(plan[i] == cfgacts[i - 2 - libacts.len()]);
            assert(action_path(plan[i]) == cfg);
        } else if i == plan.len() - 2 {
            assert(plan[i] == jaracts[0]);
        } else {
            assert(plan[i] == jaracts[1]);
        }
    }
}

} // verus!
