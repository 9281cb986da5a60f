//! The installation index: a point-in-time model of one installation root's
//! screenshots, root-level mods, and versions with their mods.
//!
//! The index never touches the disk itself: the caller hands it a
//! [`RootListing`], the directory entries it observed, and the index is built
//! from that snapshot alone and never re-scanned.

use vstd::prelude::*;
use crate::text::{eq_ignore_ascii_case, ext_of, split_name, stem_of, str_eq, str_eq_ci};

verus! {

/// One directory entry the caller observed: its full path, its file name,
/// and whether it is a regular file.
pub struct FileEntry {
    pub path: String,
    pub name: String,
    pub is_file: bool,
}

/// One entry of the `versions` directory: its full path, its name, whether
/// it is a directory, and the listing of its `mods` subdirectory (absent
/// when that subdirectory does not exist).
pub struct VersionDirEntry {
    pub path: String,
    pub name: String,
    pub is_dir: bool,
    pub mods: Option<Vec<FileEntry>>,
}

/// What the caller observed directly under an installation root. A `None`
/// field records that the directory did not exist.
pub struct RootListing {
    pub screenshots: Option<Vec<FileEntry>>,
    pub mods: Option<Vec<FileEntry>>,
    pub versions: Option<Vec<VersionDirEntry>>,
}

/// A mod file: display name (file name without extension), full path, and
/// the location tag ("global" or the version name).
pub struct ModPath {
    pub path: String,
    pub name: String,
    pub location: String,
}

/// One installed version: its directory, its name, and its mods.
pub struct VersionPath {
    pub root: String,
    pub name: String,
    pub mods: Vec<ModPath>,
}

/// The scanned contents of an installation root.
pub struct DataPath {
    pub screenshots: Vec<String>,
    pub version: Vec<VersionPath>,
    pub mods: Vec<ModPath>,
}

/// An installation root together with its index snapshot.
pub struct MinecraftPath {
    pub root: String,
    pub display_name: Option<String>,
    pub screenshots_found: bool,
    pub data_path: DataPath,
}

/// Failure of an index query.
#[derive(Clone, Copy, Debug, PartialEq, Eq, Structural)]
pub enum IndexError {
    /// The requested version name is not in the snapshot.
    NotFound,
}

/// Mathematical image of a [`FileEntry`].
pub struct FileEntryData {
    pub path: Seq<char>,
    pub name: Seq<char>,
    pub is_file: bool,
}

/// Mathematical image of a [`VersionDirEntry`].
pub struct VersionDirEntryData {
    pub path: Seq<char>,
    pub name: Seq<char>,
    pub is_dir: bool,
    pub mods: Option<Seq<FileEntryData>>,
}

/// Mathematical image of a [`RootListing`].
pub struct RootListingData {
    pub screenshots: Option<Seq<FileEntryData>>,
    pub mods: Option<Seq<FileEntryData>>,
    pub versions: Option<Seq<VersionDirEntryData>>,
}

/// Mathematical image of a [`ModPath`].
pub struct ModPathData {
    pub path: Seq<char>,
    pub name: Seq<char>,
    pub location: Seq<char>,
}

/// Mathematical image of a [`VersionPath`].
pub struct VersionPathData {
    pub root: Seq<char>,
    pub name: Seq<char>,
    pub mods: Seq<ModPathData>,
}

/// Mathematical image of a [`DataPath`].
pub struct DataPathData {
    pub screenshots: Seq<Seq<char>>,
    pub version: Seq<VersionPathData>,
    pub mods: Seq<ModPathData>,
}

/// Mathematical image of a [`MinecraftPath`].
pub struct MinecraftPathData {
    pub root: Seq<char>,
    pub display_name: Option<Seq<char>>,
    pub screenshots_found: bool,
    pub data_path: DataPathData,
}

impl DeepView for FileEntry {
    type V = FileEntryData;

    open spec fn deep_view(&self) -> FileEntryData {
        FileEntryData { path: self.path@, name: self.name@, is_file: self.is_file }
    }
}

impl DeepView for VersionDirEntry {
    type V = VersionDirEntryData;

    open spec fn deep_view(&self) -> VersionDirEntryData {
        VersionDirEntryData {
            path: self.path@,
            name: self.name@,
            is_dir: self.is_dir,
            mods: self.mods.deep_view(),
        }
    }
}

impl DeepView for RootListing {
    type V = RootListingData;

    open spec fn deep_view(&self) -> RootListingData {
        RootListingData {
            screenshots: self.screenshots.deep_view(),
            mods: self.mods.deep_view(),
            versions: self.versions.deep_view(),
        }
    }
}

impl DeepView for ModPath {
    type V = ModPathData;

    open spec fn deep_view(&self) -> ModPathData {
        ModPathData { path: self.path@, name: self.name@, location: self.location@ }
    }
}

impl DeepView for VersionPath {
    type V = VersionPathData;

    open spec fn deep_view(&self) -> VersionPathData {
        VersionPathData { root: self.root@, name: self.name@, mods: self.mods.deep_view() }
    }
}

impl DeepView for DataPath {
    type V = DataPathData;

    open spec fn deep_view(&self) -> DataPathData {
        DataPathData {
            screenshots: self.screenshots.deep_view(),
            version: self.version.deep_view(),
            mods: self.mods.deep_view(),
        }
    }
}

impl DeepView for MinecraftPath {
    type V = MinecraftPathData;

    open spec fn deep_view(&self) -> MinecraftPathData {
        MinecraftPathData {
            root: self.root@,
            display_name: self.display_name.deep_view(),
            screenshots_found: self.screenshots_found,
            data_path: self.data_path.deep_view(),
        }
    }
}

/// An extension that marks a screenshot image, up to ASCII case.
pub open spec fn is_image_ext(e: Seq<char>) -> bool {
    str_eq_ci(e, "png"@) || str_eq_ci(e, "jpg"@) || str_eq_ci(e, "jpeg"@) || str_eq_ci(
        e,
        "gif"@,
    ) || str_eq_ci(e, "bmp"@)
}

/// A directory entry that counts as a screenshot: a regular file whose
/// extension is one of the image extensions.
pub open spec fn entry_is_screenshot(e: FileEntryData) -> bool {
    e.is_file && match ext_of(e.name) {
        Option::Some(x) => is_image_ext(x),
        Option::None => false,
    }
}

/// A directory entry that counts as a mod: a regular file with a `jar`
/// extension, up to ASCII case.
pub open spec fn entry_is_mod(e: FileEntryData) -> bool {
    e.is_file && match ext_of(e.name) {
        Option::Some(x) => str_eq_ci(x, "jar"@),
        Option::None => false,
    }
}

/// The screenshot paths kept from a directory listing, in listing order.
pub open spec fn spec_screenshots(entries: Seq<FileEntryData>) -> Seq<Seq<char>>
    decreases entries.len(),
{
    if entries.len() == 0 {
        Seq::empty()
    } else {
        let rest = spec_screenshots(entries.drop_last());
        if entry_is_screenshot(entries.last()) {
            rest.push(entries.last().path)
        } else {
            rest
        }
    }
}

/// The mod entry built from one observed file.
pub open spec fn spec_mod(e: FileEntryData, location: Seq<char>) -> ModPathData {
    ModPathData { path: e.path, name: stem_of(e.name), location: location }
}

/// The mods kept from a directory listing, in listing order.
pub open spec fn spec_scan_mods(entries: Seq<FileEntryData>, location: Seq<char>) -> Seq<
    ModPathData,
>
    decreases entries.len(),
{
    if entries.len() == 0 {
        Seq::empty()
    } else {
        let rest = spec_scan_mods(entries.drop_last(), location);
        if entry_is_mod(entries.last()) {
            rest.push(spec_mod(entries.last(), location))
        } else {
            rest
        }
    }
}

/// The mods of a possibly missing directory: a missing directory holds none.
pub open spec fn spec_opt_mods(entries: Option<Seq<FileEntryData>>, location: Seq<char>) -> Seq<
    ModPathData,
> {
    match entries {
        Option::None => Seq::empty(),
        Option::Some(s) => spec_scan_mods(s, location),
    }
}

/// The versions kept from the `versions` listing: each subdirectory, with
/// the mods of its own `mods` subdirectory tagged by the version name.
pub open spec fn spec_versions(entries: Seq<VersionDirEntryData>) -> Seq<VersionPathData>
    decreases entries.len(),
{
    if entries.len() == 0 {
        Seq::empty()
    } else {
        let rest = spec_versions(entries.drop_last());
        let e = entries.last();
        if e.is_dir {
            rest.push(VersionPathData { root: e.path, name: e.name, mods: spec_opt_mods(e.mods, e.name) })
        } else {
            rest
        }
    }
}

/// The whole index built from one observed listing.
pub open spec fn spec_index(
    root: Seq<char>,
    display_name: Option<Seq<char>>,
    l: RootListingData,
) -> MinecraftPathData {
    MinecraftPathData {
        root: root,
        display_name: display_name,
        screenshots_found: l.screenshots is Some,
        data_path: DataPathData {
            screenshots: match l.screenshots {
                Option::None => Seq::empty(),
                Option::Some(s) => spec_screenshots(s),
            },
            version: match l.versions {
                Option::None => Seq::empty(),
                Option::Some(s) => spec_versions(s),
            },
            mods: spec_opt_mods(l.mods, "global"@),
        },
    }
}

/// The mods of a sequence of versions, version order kept.
pub open spec fn mods_of_versions(vs: Seq<VersionPathData>) -> Seq<ModPathData>
    decreases vs.len(),
{
    if vs.len() == 0 {
        Seq::empty()
    } else {
        mods_of_versions(vs.drop_last()) + vs.last().mods
    }
}

/// Every mod of an index: the root-level mods followed by each version's,
/// in version order.
pub open spec fn spec_all_mods(d: DataPathData) -> Seq<ModPathData> {
    d.mods + mods_of_versions(d.version)
}

/// The first version of the sequence carrying the given name, if any.
pub open spec fn find_version(vs: Seq<VersionPathData>, name: Seq<char>) -> Option<
    Seq<ModPathData>,
>
    decreases vs.len(),
{
    if vs.len() == 0 {
        Option::None
    } else if vs.first().name == name {
        Option::Some(vs.first().mods)
    } else {
        find_version(vs.drop_first(), name)
    }
}


impl MinecraftPath {
    /// Build an index snapshot of `root_path` from the observed listing.
    /// A missing directory yields an empty facet, never an error.
    pub fn new(root_path: &str, listing: RootListing) -> (r: Self)
        ensures
            r.deep_view() == spec_index(root_path@, Option::None, listing.deep_view()),
            listing.screenshots is None ==> r.data_path.screenshots@.len() == 0,
            listing.mods is None ==> r.data_path.mods@.len() == 0,
            listing.versions is None ==> r.data_path.version@.len() == 0,
    {
        let r = Self::build(root_path, Option::None, listing);
        proof {
            assert(r.data_path.screenshots.deep_view().len() == r.data_path.screenshots@.len());
            assert(r.data_path.mods.deep_view().len() == r.data_path.mods@.len());
            assert(r.data_path.version.deep_view().len() == r.data_path.version@.len());
        }
        r
    }

    /// Build an index snapshot with a human display name.
    pub fn new_with_name(root_path: &str, name: &str, listing: RootListing) -> (r: Self)
        ensures
            r.deep_view() == spec_index(root_path@, Option::Some(name@), listing.deep_view()),
    {
        Self::build(root_path, Option::Some(name.to_owned()), listing)
    }

    fn build(root_path: &str, display_name: Option<String>, listing: RootListing) -> (r: Self)
        ensures
            r.deep_view() == spec_index(
                root_path@,
                display_name.deep_view(),
                listing.deep_view(),
            ),
    {
        let RootListing { screenshots, mods, versions } = listing;
        let screenshots_found = screenshots.is_some();
        let data_path = DataPath {
            screenshots: Self::init_screenshots(screenshots),
            mods: Self::init_root_mods(mods),
            version: Self::init_versions(versions),
        };
        MinecraftPath { root: root_path.to_owned(), display_name, screenshots_found, data_path }
    }

    /// The screenshot paths of an observed (possibly missing) directory.
    pub fn init_screenshots(listing: Option<Vec<FileEntry>>) -> (r: Vec<String>)
        ensures
            r.deep_view() == match listing.deep_view() {
                Option::None => Seq::<Seq<char>>::empty(),
                Option::Some(s) => spec_screenshots(s),
            },
    {
        let entries = match listing {
            Option::None => {
                let r: Vec<String> = Vec::new();
                return r;
            },
            Option::Some(entries) => entries,
        };
        let ghost orig = entries@;
        let ghost origd = entries.deep_view();
        let mut rest = entries;
        let mut out: Vec<String> = Vec::new();
        while rest.len() > 0
            invariant
                origd.len() == orig.len(),
                forall|i: int| 0 <= i < orig.len() ==> #[trigger] origd[i] == orig[i].deep_view(),
                rest@.len() <= orig.len(),
                rest@ == orig.subrange(orig.len() - rest@.len(), orig.len() as int),
                out.deep_view() == spec_screenshots(origd.take(orig.len() - rest@.len())),
            decreases rest.len(),
        {
            let ghost k = orig.len() - rest@.len();
            let e = rest.remove(0);
            proof {
                assert(e == orig[k]);
                assert(rest@ =~= orig.subrange(k + 1, orig.len() as int));
                assert(origd.take(k + 1).drop_last() =~= origd.take(k));
                assert(origd.take(k + 1).last() == origd[k]);
            }
            let mut keep = false;
            if e.is_file {
                let (_, ext) = split_name(e.name.as_str());
                keep = match ext {
                    Option::Some(x) => eq_ignore_ascii_case(x, "png") || eq_ignore_ascii_case(
                        x,
                        "jpg",
                    ) || eq_ignore_ascii_case(x, "jpeg") || eq_ignore_ascii_case(x, "gif")
                        || eq_ignore_ascii_case(x, "bmp"),
                    Option::None => false,
                };
            }
            assert(keep == entry_is_screenshot(origd[k]));
            if keep {
                let ghost prev = out.deep_view();
                out.push(e.path);
                proof {
                    assert(out.deep_view() =~= prev.push(origd[k].path));
                }
            }
        }
        proof {
            assert(origd.take(orig.len() - rest@.len()) =~= origd);
        }
        out
    }

    /// The mods of the root-level (possibly missing) `mods` directory,
    /// tagged "global".
    pub fn init_root_mods(listing: Option<Vec<FileEntry>>) -> (r: Vec<ModPath>)
        ensures
            r.deep_view() == spec_opt_mods(listing.deep_view(), "global"@),
    {
        match listing {
            Option::None => Vec::new(),
            Option::Some(entries) => Self::scan_mods_directory(entries, String::from_str("global")),
        }
    }

    /// The mods kept from one observed directory listing, tagged `location`.
    pub fn scan_mods_directory(entries: Vec<FileEntry>, location: String) -> (r: Vec<ModPath>)
        ensures
            r.deep_view() == spec_scan_mods(entries.deep_view(), location@),
    {
        let ghost orig = entries@;
        let ghost origd = entries.deep_view();
        let mut rest = entries;
        let mut out: Vec<ModPath> = Vec::new();
        while rest.len() > 0
            invariant
                origd.len() == orig.len(),
                forall|i: int| 0 <= i < orig.len() ==> #[trigger] origd[i] == orig[i].deep_view(),
                rest@.len() <= orig.len(),
                rest@ == orig.subrange(orig.len() - rest@.len(), orig.len() as int),
                out.deep_view() == spec_scan_mods(
                    origd.take(orig.len() - rest@.len()),
                    location@,
                ),
            decreases rest.len(),
        {
            let ghost k = orig.len() - rest@.len();
            let e = rest.remove(0);
            proof {
                assert(e == orig[k]);
                assert(rest@ =~= orig.subrange(k + 1, orig.len() as int));
                assert(origd.take(k + 1).drop_last() =~= origd.take(k));
                assert(origd.take(k + 1).last() == origd[k]);
            }
            let mut keep = false;
            let mut name = String::new();
            if e.is_file {
                let (stem, ext) = split_name(e.name.as_str());
                keep = match ext {
                    Option::Some(x) => eq_ignore_ascii_case(x, "jar"),
                    Option::None => false,
                };
                if keep {
                    name = stem.to_owned();
                }
            }
            assert(keep == entry_is_mod(origd[k]));
            if keep {
                let mp = ModPath { path: e.path, name, location: location.clone() };
                proof {
                    assert(mp.deep_view() == spec_mod(origd[k], location@));
                }
                let ghost prev = out.deep_view();
                out.push(mp);
                proof {
                    assert(out.deep_view() =~= prev.push(spec_mod(origd[k], location@)));
                }
            }
        }
        proof {
            assert(origd.take(orig.len() - rest@.len()) =~= origd);
        }
        out
    }

    /// The versions found in the observed (possibly missing) `versions`
    /// directory, each with its own mods.
    pub fn init_versions(listing: Option<Vec<VersionDirEntry>>) -> (r: Vec<VersionPath>)
        ensures
            r.deep_view() == match listing.deep_view() {
                Option::None => Seq::<VersionPathData>::empty(),
                Option::Some(s) => spec_versions(s),
            },
    {
        let entries = match listing {
            Option::None => {
                let r: Vec<VersionPath> = Vec::new();
                return r;
            },
            Option::Some(entries) => entries,
        };
        let ghost orig = entries@;
        let ghost origd = entries.deep_view();
        let mut rest = entries;
        let mut out: Vec<VersionPath> = Vec::new();
        while rest.len() > 0
            invariant
                origd.len() == orig.len(),
                forall|i: int| 0 <= i < orig.len() ==> #[trigger] origd[i] == orig[i].deep_view(),
                rest@.len() <= orig.len(),
                rest@ == orig.subrange(orig.len() - rest@.len(), orig.len() as int),
                out.deep_view() == spec_versions(origd.take(orig.len() - rest@.len())),
            decreases rest.len(),
        {
            let ghost k = orig.len() - rest@.len();
            let e = rest.remove(0);
            proof {
                assert(e == orig[k]);
                assert(rest@ =~= orig.subrange(k + 1, orig.len() as int));
                assert(origd.take(k + 1).drop_last() =~= origd.take(k));
                assert(origd.take(k + 1).last() == origd[k]);
            }
            if e.is_dir {
                let name = e.name;
                let mods = match e.mods {
                    Option::None => {
                        let none_found: Vec<ModPath> = Vec::new();
                        proof {
                            assert(none_found.deep_view() =~= Seq::<ModPathData>::empty());
                        }
                        none_found
                    },
                    Option::Some(m) => Self::scan_mods_directory(m, name.clone()),
                };
                let vp = VersionPath { root: e.path, name, mods };
                proof {
                    assert(vp.deep_view() == VersionPathData {
                        root: origd[k].path,
                        name: origd[k].name,
                        mods: spec_opt_mods(origd[k].mods, origd[k].name),
                    });
                }
                let ghost prev = out.deep_view();
                out.push(vp);
                proof {
                    assert(out.deep_view() =~= spec_versions(origd.take(k + 1)));
                }
            }
        }
        proof {
            assert(origd.take(orig.len() - rest@.len()) =~= origd);
        }
        out
    }

    /// The root path this index was built over.
    pub fn get_path(&self) -> (r: &str)
        ensures
            r@ == self.root@,
    {
        self.root.as_str()
    }

    /// The human display name, or the root path when none was given.
    pub fn get_display_name(&self) -> (r: &str)
        ensures
            r@ == match self.display_name {
                Option::Some(_) => self.display_name.deep_view().unwrap(),
                Option::None => self.root@,
            },
    {
        match &self.display_name {
            Option::Some(n) => n.as_str(),
            Option::None => self.root.as_str(),
        }
    }

    /// The screenshots directory path and the captured screenshot list.
    /// The list reflects construction time; it is not re-scanned.
    pub fn get_sceenshots(&self) -> (r: (String, Vec<String>))
        ensures
            r.0@ == self.root@ + "/screenshots"@,
            r.1.deep_view() == self.data_path.screenshots.deep_view(),
    {
        let dir = self.root.clone().concat("/screenshots");
        let ghost sv = self.data_path.screenshots.deep_view();
        let mut shots: Vec<String> = Vec::new();
        let n = self.data_path.screenshots.len();
        let mut i: usize = 0;
        while i < n
            invariant
                n == self.data_path.screenshots.len(),
                sv == self.data_path.screenshots.deep_view(),
                0 <= i <= n,
                shots.deep_view() == sv.take(i as int),
            decreases n - i,
        {
            let s = self.data_path.screenshots[i].clone();
            proof {
                assert(sv[i as int] == self.data_path.screenshots@[i as int]@);
            }
            let ghost prev = shots.deep_view();
            shots.push(s);
            proof {
                assert(shots.deep_view() =~= prev.push(sv[i as int]));
                assert(prev.push(sv[i as int]) =~= sv.take(i + 1));
            }
            i = i + 1;
        }
        proof {
            assert(sv.take(n as int) =~= sv);
        }
        (dir, shots)
    }

    /// The captured versions.
    pub fn get_versions(&self) -> (r: &Vec<VersionPath>)
        ensures
            r.deep_view() == self.data_path.version.deep_view(),
    {
        &self.data_path.version
    }

    /// Every mod: root-level mods first, then each version's, in version
    /// order.
    pub fn get_all_mods(&self) -> (r: Vec<&ModPath>)
        ensures
            r.deep_view() == spec_all_mods(self.data_path.deep_view()),
    {
        let ghost mv = self.data_path.mods.deep_view();
        let mut out: Vec<&ModPath> = Vec::new();
        let n = self.data_path.mods.len();
        let mut i: usize = 0;
        while i < n
            invariant
                n == self.data_path.mods.len(),
                mv == self.data_path.mods.deep_view(),
                0 <= i <= n,
                out.deep_view() == mv.take(i as int),
            decreases n - i,
        {
            proof {
                assert(mv[i as int] == self.data_path.mods@[i as int].deep_view());
            }
            let ghost prev = out.deep_view();
            out.push(&self.data_path.mods[i]);
            proof {
                assert(out.deep_view() =~= prev.push(mv[i as int]));
                assert(prev.push(mv[i as int]) =~= mv.take(i + 1));
            }
            i = i + 1;
        }
        proof {
            assert(mv.take(n as int) =~= mv);
        }
        let ghost vv = self.data_path.version.deep_view();
        let vn = self.data_path.version.len();
        let mut v: usize = 0;
        while v < vn
            invariant
                vn == self.data_path.version.len(),
                vv == self.data_path.version.deep_view(),
                mv == self.data_path.mods.deep_view(),
                0 <= v <= vn,
                out.deep_view() == mv + mods_of_versions(vv.take(v as int)),
            decreases vn - v,
        {
            proof {
                assert(vv[v as int] == self.data_path.version@[v as int].deep_view());
            }
            let mods = &self.data_path.version[v].mods;
            let mn = mods.len();
            let mut m: usize = 0;
            while m < mn
                invariant
                    vn == self.data_path.version.len(),
                    vv == self.data_path.version.deep_view(),
                    mv == self.data_path.mods.deep_view(),
                    v < vn,
                    mods == &self.data_path.version@[v as int].mods,
                    mn == mods@.len(),
                    mods.deep_view() == vv[v as int].mods,
                    0 <= m <= mn,
                    out.deep_view() == mv + mods_of_versions(vv.take(v as int))
                        + mods.deep_view().take(m as int),
                decreases mn - m,
            {
                proof {
                    assert(mods.deep_view()[m as int] == mods@[m as int].deep_view());
                }
                let ghost prev = out.deep_view();
                out.push(&mods[m]);
                proof {
                    assert(out.deep_view() =~= prev.push(mods.deep_view()[m as int]));
                    assert(prev.push(mods.deep_view()[m as int]) =~= mv + mods_of_versions(
                        vv.take(v as int),
                    ) + mods.deep_view().take(m + 1));
                }
                m = m + 1;
            }
            proof {
                assert(vv.take(v + 1).drop_last() =~= vv.take(v as int));
                assert(vv.take(v + 1).last() == vv[v as int]);
                assert(mods.deep_view().take(mn as int) =~= vv[v as int].mods);
                assert(mv + mods_of_versions(vv.take(v as int)) + vv[v as int].mods =~= mv
                    + mods_of_versions(vv.take(v + 1)));
            }
            v = v + 1;
        }
        proof {
            assert(vv.take(vn as int) =~= vv);
        }
        out
    }

    /// The root-level mods alone.
    pub fn get_root_mods(&self) -> (r: &Vec<ModPath>)
        ensures
            r.deep_view() == self.data_path.mods.deep_view(),
    {
        &self.data_path.mods
    }

    /// The mods of the named version. An unknown name is `NotFound`, never
    /// an empty list.
    pub fn get_version_mods(&self, version_name: &str) -> (r: Result<&Vec<ModPath>, IndexError>)
        ensures
            match r {
                Result::Ok(mods) => find_version(self.data_path.version.deep_view(), version_name@)
                    == Option::Some(mods.deep_view()),
                Result::Err(e) => e == IndexError::NotFound && find_version(
                    self.data_path.version.deep_view(),
                    version_name@,
                ) is None,
            },
    {
        let ghost vv = self.data_path.version.deep_view();
        let n = self.data_path.version.len();
        proof {
            assert(vv.skip(0) =~= vv);
        }
        let mut i: usize = 0;
        while i < n
            invariant
                n == self.data_path.version.len(),
                vv == self.data_path.version.deep_view(),
                0 <= i <= n,
                find_version(vv, version_name@) == find_version(vv.skip(i as int), version_name@),
            decreases n - i,
        {
            proof {
                assert(vv[i as int] == self.data_path.version@[i as int].deep_view());
                assert(vv.skip(i as int).first() == vv[i as int]);
                assert(vv.skip(i as int).drop_first() =~= vv.skip(i + 1));
            }
            let version = &self.data_path.version[i];
            if str_eq(version.name.as_str(), version_name) {
                return Result::Ok(&version.mods);
            }
            i = i + 1;
        }
        proof {
            assert(vv.skip(n as int) =~= Seq::<VersionPathData>::empty());
        }
        Result::Err(IndexError::NotFound)
    }
}

} // verus!
