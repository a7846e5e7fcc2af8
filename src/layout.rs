//! The game's directory layout and the scan of installed addons.
use vstd::prelude::*;
use vstd::string::*;
use crate::types::{AddonInfo, SyncError};
use crate::catalog::{catalog, defs_view, get_addon_definitions};
use crate::toc::{parse_toc_version, toc_version};

verus! {

/// The directory that holds the addons, relative to the game root.
pub open spec fn addons_dir_spec() -> Seq<Seq<char>> {
    seq!["_retail_"@, "Interface"@, "AddOns"@]
}

pub open spec fn path_view(p: Seq<String>) -> Seq<Seq<char>> {
    p.map_values(|s: String| s@)
}

/// The path components of the addon directory, relative to the game root.
pub fn addons_dir() -> (r: Vec<String>)
    ensures
        path_view(r@) == addons_dir_spec(),
{
    let mut v: Vec<String> = Vec::new();
    v.push(String::from_str("_retail_"));
    v.push(String::from_str("Interface"));
    v.push(String::from_str("AddOns"));
    assert(path_view(v@) =~= addons_dir_spec());
    v
}

/// The directory of the addon `local_name`, relative to the game root.
pub fn addon_path(local_name: &String) -> (r: Vec<String>)
    ensures
        path_view(r@) == addons_dir_spec().push(local_name@),
{
    let mut v = addons_dir();
    v.push(local_name.clone());
    assert(path_view(v@) =~= addons_dir_spec().push(local_name@));
    v
}

/// A root is a game installation when `_retail_`, `_retail_/Interface` and
/// `_retail_/Interface/AddOns` all exist under it; the arguments say which do.
pub fn validate_wow_path_internal(retail_exists: bool, interface_exists: bool, addons_exists: bool) -> (r: bool)
    ensures
        r == (retail_exists && interface_exists && addons_exists),
{
    retail_exists && interface_exists && addons_exists
}

/// Whether `name` is the local name of a catalog entry.
pub open spec fn is_known(name: Seq<char>) -> bool {
    exists|i: int| 0 <= i < catalog().len() && catalog()[i].local_name == name
}

/// Whether `name` is the local name of a catalog entry.
pub fn is_known_addon(name: &String) -> (r: bool)
    ensures
        r == is_known(name@),
{
    let defs = get_addon_definitions();
    let mut i: usize = 0;
    while i < defs.len()
        invariant
            defs_view(defs@) == catalog(),
            i <= defs@.len(),
            forall|j: int| 0 <= j < i ==> catalog()[j].local_name != name@,
        decreases defs@.len() - i,
    {
        assert(defs_view(defs@)[i as int] == defs@[i as int]@);
        if defs[i].local_name == *name {
            return true;
        }
        i = i + 1;
    }
    false
}

/// The version reported for a descriptor: what it declares, or `unknown`
/// when it is missing or declares none.
pub open spec fn version_of(toc: Option<Seq<char>>) -> Seq<char> {
    match toc {
        Some(c) => match toc_version(c) {
            Some(v) => v,
            None => "unknown"@,
        },
        None => "unknown"@,
    }
}

/// A directory whose descriptor is missing, or declares no version, is
/// reported as `unknown`.
pub proof fn lemma_unparsable_reports_unknown(toc: Option<Seq<char>>)
    requires
        match toc {
            Some(c) => toc_version(c).is_none(),
            None => true,
        },
    ensures
        version_of(toc) == "unknown"@,
{
}

/// The version that a descriptor declares. A missing descriptor is
/// `NotFound`; one without a declaring line is a `ParseError`.
pub fn read_version_from_toc(content: &Option<String>) -> (r: Result<String, SyncError>)
    ensures
        match content {
            None => r is Err && r->Err_0 is NotFound,
            Some(c) => match toc_version(c@) {
                Some(v) => r is Ok && r->Ok_0@ == v,
                None => r is Err && r->Err_0 is ParseError,
            },
        },
{
    match content {
        None => Err(SyncError::NotFound(String::from_str("TOC file not found"))),
        Some(c) => match parse_toc_version(c.as_str()) {
            Some(v) => Ok(v),
            None => Err(SyncError::ParseError(String::from_str("Version not found in TOC file"))),
        },
    }
}

/// A subdirectory of the addon directory, as the scan sees it.
#[derive(Debug, Clone)]
pub struct AddonDirEntry {
    /// The directory's name.
    pub name: String,
    /// Its full path, for display.
    pub path: String,
    /// The content of `<name>.toc` inside it, when that file could be read.
    pub toc: Option<String>,
}

pub struct DirEntryView {
    pub name: Seq<char>,
    pub path: Seq<char>,
    pub toc: Option<Seq<char>>,
}

pub struct InfoView {
    pub name: Seq<char>,
    pub version: Seq<char>,
    pub path: Seq<char>,
}

impl View for AddonDirEntry {
    type V = DirEntryView;

    open spec fn view(&self) -> DirEntryView {
        DirEntryView {
            name: self.name@,
            path: self.path@,
            toc: match self.toc {
                Some(t) => Some(t@),
                None => None,
            },
        }
    }
}

impl View for AddonInfo {
    type V = InfoView;

    open spec fn view(&self) -> InfoView {
        InfoView { name: self.name@, version: self.version@, path: self.path@ }
    }
}

/// The report of a scan over the directories `es`: one entry per catalog
/// addon among them, in their order.
pub open spec fn scan_report(es: Seq<DirEntryView>) -> Seq<InfoView>
    decreases es.len(),
{
    if es.len() == 0 {
        Seq::empty()
    } else {
        let rest = scan_report(es.drop_last());
        let e = es.last();
        if is_known(e.name) {
            rest.push(InfoView { name: e.name, version: version_of(e.toc), path: e.path })
        } else {
            rest
        }
    }
}

pub open spec fn entries_view(v: Seq<AddonDirEntry>) -> Seq<DirEntryView> {
    v.map_values(|e: AddonDirEntry| e@)
}

pub open spec fn infos_view(v: Seq<AddonInfo>) -> Seq<InfoView> {
    v.map_values(|e: AddonInfo| e@)
}

proof fn lemma_report_names(es: Seq<DirEntryView>)
    ensures
        forall|j: int| 0 <= j < scan_report(es).len() ==> exists|i: int|
            0 <= i < es.len() && #[trigger] scan_report(es)[j].name == es[i].name,
    decreases es.len(),
{
    if es.len() > 0 {
        let pre = es.drop_last();
        lemma_report_names(pre);
        assert forall|j: int| 0 <= j < scan_report(es).len() implies exists|i: int|
            0 <= i < es.len() && #[trigger] scan_report(es)[j].name == es[i].name by {
            if j < scan_report(pre).len() {
                assert(scan_report(es)[j] == scan_report(pre)[j]);
                let i = choose|i: int| 0 <= i < pre.len() && scan_report(pre)[j].name == pre[i].name;
                assert(pre[i] == es[i]);
            } else {
                assert(scan_report(es)[j].name == es[es.len() - 1].name);
            }
        }
    }
}

/// Over directories with distinct names, a catalog addon's directory appears
/// in the report exactly once, with the version its descriptor declares, or
/// `unknown` when the descriptor is missing or declares none.
pub proof fn lemma_scan_reports_once(es: Seq<DirEntryView>, k: int)
    requires
        0 <= k < es.len(),
        is_known(es[k].name),
        forall|i: int, j: int| 0 <= i < es.len() && 0 <= j < es.len() && i != j ==> es[i].name != es[j].name,
    ensures
        exists|j: int| 0 <= j < scan_report(es).len() && #[trigger] scan_report(es)[j] == (InfoView {
            name: es[k].name,
            version: version_of(es[k].toc),
            path: es[k].path,
        }),
        forall|j1: int, j2: int| 0 <= j1 < scan_report(es).len() && 0 <= j2 < scan_report(es).len()
            && #[trigger] scan_report(es)[j1].name == es[k].name && #[trigger] scan_report(es)[j2].name == es[k].name
            ==> j1 == j2,
    decreases es.len(),
{
    let pre = es.drop_last();
    let last = es.len() - 1;
    let rep = scan_report(es);
    let prep = scan_report(pre);
    assert forall|j: int| 0 <= j < prep.len() implies rep[j] == prep[j] by {}
    if k == last {
        lemma_report_names(pre);
        assert forall|j: int| 0 <= j < prep.len() implies prep[j].name != es[k].name by {
            let i = choose|i: int| 0 <= i < pre.len() && #[trigger] prep[j].name == pre[i].name;
            assert(pre[i] == es[i]);
        }
        assert(rep[prep.len() as int] == (InfoView { name: es[k].name, version: version_of(es[k].toc), path: es[k].path }));
    } else {
        assert forall|i: int, j: int| 0 <= i < pre.len() && 0 <= j < pre.len() && i != j implies pre[i].name != pre[j].name by {
            assert(pre[i] == es[i] && pre[j] == es[j]);
        }
        assert(pre[k] == es[k]);
        lemma_scan_reports_once(pre, k);
        let j = choose|j: int| 0 <= j < prep.len() && #[trigger] prep[j] == (InfoView {
            name: es[k].name,
            version: version_of(es[k].toc),
            path: es[k].path,
        });
        assert(rep[j] == prep[j]);
        if rep.len() > prep.len() {
            assert(rep[prep.len() as int].name == es[last].name);
        }
    }
}

/// The installed catalog addons and their declared versions. `dirs` are the
/// subdirectories of the addon directory; without that directory the scan is
/// `NotFound`. A directory whose descriptor is missing or declares no version
/// is reported as `unknown`, and the scan goes on.
pub fn get_local_addon_versions(addons_dir_exists: bool, dirs: &Vec<AddonDirEntry>) -> (r: Result<Vec<AddonInfo>, SyncError>)
    ensures
        !addons_dir_exists ==> r is Err && r->Err_0 is NotFound,
        addons_dir_exists ==> r is Ok && infos_view(r->Ok_0@) == scan_report(entries_view(dirs@)),
{
    if !addons_dir_exists {
        return Err(SyncError::NotFound(String::from_str("AddOns directory not found")));
    }
    let mut out: Vec<AddonInfo> = Vec::new();
    let mut i: usize = 0;
    while i < dirs.len()
        invariant
            i <= dirs@.len(),
            infos_view(out@) == scan_report(entries_view(dirs@.take(i as int))),
        decreases dirs@.len() - i,
    {
        let ghost before = out@;
        let e = &dirs[i];
        assert(entries_view(dirs@.take(i + 1)).drop_last() =~= entries_view(dirs@.take(i as int)));
        assert(entries_view(dirs@.take(i + 1)).last() == e@);
        if is_known_addon(&e.name) {
            let version = match read_version_from_toc(&e.toc) {
                Ok(v) => v,
                Err(_) => String::from_str("unknown"),
            };
            out.push(AddonInfo { name: e.name.clone(), version, path: e.path.clone() });
            assert(infos_view(out@) =~= infos_view(before).push(out@.last()@));
        }
        i = i + 1;
    }
    assert(dirs@.take(dirs@.len() as int) =~= dirs@);
    Ok(out)
}

} // verus!
