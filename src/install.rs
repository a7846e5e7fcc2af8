//! The install and uninstall transactions: where the artifact comes from,
//! which extracted directory is the addon, and the tree operations that
//! replace or remove the installed copy, with a model of their effect.
use vstd::prelude::*;
use vstd::string::*;
use crate::types::{AddonDefinition, SyncError, UpdateMode};
use crate::remote::{api_repo, branch_archive_url, branch_commit_url, release_url};
use crate::layout::{addon_path, addons_dir_spec, path_view};

verus! {

/// Where the artifact of an addon is downloaded from.
#[derive(Debug, Clone)]
pub enum DownloadSource {
    /// The snapshot named by the latest release that this endpoint describes.
    LatestRelease(String),
    /// This archive URL.
    Archive(String),
}

/// The message of a branch-mode definition without a usable branch.
pub open spec fn missing_branch_message() -> Seq<char> {
    "Branch name is required for branch mode"@
}

/// A branch-mode definition carries a non-empty branch name.
pub open spec fn has_branch(d: AddonDefinition) -> bool {
    d.branch is Some && d.branch->Some_0@.len() > 0
}

/// The source that the definition `d` calls for. Branch mode without a
/// non-empty branch is a `ParseError`.
pub fn resolve_download(d: &AddonDefinition) -> (r: Result<DownloadSource, SyncError>)
    ensures
        d.update_mode == UpdateMode::Release ==> r is Ok && r->Ok_0 is LatestRelease
            && r->Ok_0->LatestRelease_0@ == api_repo(d.github_owner@, d.github_repo@) + "/releases/latest"@,
        d.update_mode == UpdateMode::Branch && has_branch(*d) ==> r is Ok && r->Ok_0 is Archive
            && r->Ok_0->Archive_0@ == "https://github.com/"@ + d.github_owner@ + "/"@ + d.github_repo@
            + "/archive/refs/heads/"@ + d.branch->Some_0@ + ".zip"@,
        d.update_mode == UpdateMode::Branch && !has_branch(*d) ==> r
            == Err::<DownloadSource, SyncError>(SyncError::ParseError(r->Err_0->ParseError_0))
            && r->Err_0->ParseError_0@ == missing_branch_message(),
{
    match d.update_mode {
        UpdateMode::Release => Ok(
            DownloadSource::LatestRelease(release_url(d.github_owner.as_str(), d.github_repo.as_str())),
        ),
        UpdateMode::Branch => match &d.branch {
            Some(b) if b.as_str().unicode_len() > 0 => Ok(
                DownloadSource::Archive(
                    branch_archive_url(d.github_owner.as_str(), d.github_repo.as_str(), b.as_str()),
                ),
            ),
            _ => Err(SyncError::ParseError(String::from_str("Branch name is required for branch mode"))),
        },
    }
}

/// Where the remote version of an addon is read from.
#[derive(Debug, Clone)]
pub enum VersionSource {
    /// The latest release that this endpoint describes.
    LatestRelease(String),
    /// The head commit of `branch`, which `commit_url` names.
    BranchHead { commit_url: String, branch: String },
}

/// The version source that the definition `d` calls for. Branch mode without
/// a non-empty branch is a `ParseError`.
pub fn resolve_version_source(d: &AddonDefinition) -> (r: Result<VersionSource, SyncError>)
    ensures
        d.update_mode == UpdateMode::Release ==> r is Ok && r->Ok_0 is LatestRelease
            && r->Ok_0->LatestRelease_0@ == api_repo(d.github_owner@, d.github_repo@) + "/releases/latest"@,
        d.update_mode == UpdateMode::Branch && has_branch(*d) ==> r is Ok && r->Ok_0 is BranchHead
            && r->Ok_0->commit_url@ == api_repo(d.github_owner@, d.github_repo@) + "/commits/"@
            + d.branch->Some_0@ && r->Ok_0->branch@ == d.branch->Some_0@,
        d.update_mode == UpdateMode::Branch && !has_branch(*d) ==> r
            == Err::<VersionSource, SyncError>(SyncError::ParseError(r->Err_0->ParseError_0))
            && r->Err_0->ParseError_0@ == missing_branch_message(),
{
    match d.update_mode {
        UpdateMode::Release => Ok(
            VersionSource::LatestRelease(release_url(d.github_owner.as_str(), d.github_repo.as_str())),
        ),
        UpdateMode::Branch => match &d.branch {
            Some(b) if b.as_str().unicode_len() > 0 => Ok(
                VersionSource::BranchHead {
                    commit_url: branch_commit_url(d.github_owner.as_str(), d.github_repo.as_str(), b.as_str()),
                    branch: b.clone(),
                },
            ),
            _ => Err(SyncError::ParseError(String::from_str("Branch name is required for branch mode"))),
        },
    }
}

/// The descriptor file name of the addon `local_name`.
pub fn toc_file_name(local_name: &String) -> (r: String)
    ensures
        r@ == local_name@ + ".toc"@,
{
    let r = local_name.clone();
    r.concat(".toc")
}

/// An immediate child of the extraction root.
#[derive(Debug, Clone)]
pub struct ExtractedChild {
    pub name: String,
    pub is_dir: bool,
    /// Whether the child holds the addon's descriptor file.
    pub has_toc: bool,
}

/// The message of the layout error for the addon `local`.
pub open spec fn layout_message(local: Seq<char>) -> Seq<char> {
    "Addon files with '"@ + local + ".toc"@ + "' not found in the downloaded archive"@
}

/// A child that is the addon's root: a directory with the descriptor.
pub open spec fn is_addon_root(c: ExtractedChild) -> bool {
    c.is_dir && c.has_toc
}

/// The index of the first child that is a directory holding the addon's
/// descriptor; without one, an `ArtifactLayoutError` naming that descriptor.
pub fn locate_addon_root(children: &Vec<ExtractedChild>, local_name: &String) -> (r: Result<usize, SyncError>)
    ensures
        match r {
            Ok(i) => i < children@.len() && is_addon_root(children@[i as int])
                && forall|j: int| 0 <= j < i ==> !is_addon_root(#[trigger] children@[j]),
            Err(e) => (forall|j: int| 0 <= j < children@.len() ==> !is_addon_root(#[trigger] children@[j]))
                && e is ArtifactLayoutError && e->ArtifactLayoutError_0@ == layout_message(local_name@),
        },
{
    let mut i: usize = 0;
    while i < children.len()
        invariant
            i <= children@.len(),
            forall|j: int| 0 <= j < i ==> !is_addon_root(#[trigger] children@[j]),
        decreases children@.len() - i,
    {
        if children[i].is_dir && children[i].has_toc {
            return Ok(i);
        }
        i = i + 1;
    }
    let mut m = String::from_str("Addon files with '");
    m.append(local_name.as_str());
    m.append(".toc");
    m.append("' not found in the downloaded archive");
    Err(SyncError::ArtifactLayoutError(m))
}

/// A path relative to the game root, component by component.
pub type TreePath = Seq<Seq<char>>;

/// An operation on the game's directory tree.
#[derive(Debug, Clone)]
pub enum FsOp {
    /// Remove this directory and everything under it.
    RemoveTree(Vec<String>),
    /// Copy the located addon root, recursively, to this directory.
    CopyTree(Vec<String>),
}

pub enum OpView {
    RemoveTree(TreePath),
    CopyTree(TreePath),
}

impl View for FsOp {
    type V = OpView;

    open spec fn view(&self) -> OpView {
        match self {
            FsOp::RemoveTree(p) => OpView::RemoveTree(path_view(p@)),
            FsOp::CopyTree(p) => OpView::CopyTree(path_view(p@)),
        }
    }
}

pub open spec fn ops_view(v: Seq<FsOp>) -> Seq<OpView> {
    v.map_values(|o: FsOp| o@)
}

/// `p` is `d` or lies under it.
pub open spec fn under(d: TreePath, p: TreePath) -> bool {
    d.len() <= p.len() && p.take(d.len() as int) == d
}

/// The tree after `op`, where `fs` is the set of paths that exist and `src`
/// the set of paths under the located addon root, relative to it (the root
/// itself is the empty path).
pub open spec fn apply_op(fs: Set<TreePath>, src: Set<TreePath>, op: OpView) -> Set<TreePath> {
    match op {
        OpView::RemoveTree(d) => Set::new(|p: TreePath| fs.contains(p) && !under(d, p)),
        OpView::CopyTree(d) => Set::new(
            |p: TreePath| fs.contains(p) || (under(d, p) && src.contains(p.skip(d.len() as int))),
        ),
    }
}

/// The tree after the operations `ops`, in order.
pub open spec fn apply_ops(fs: Set<TreePath>, src: Set<TreePath>, ops: Seq<OpView>) -> Set<TreePath>
    decreases ops.len(),
{
    if ops.len() == 0 {
        fs
    } else {
        apply_ops(apply_op(fs, src, ops[0]), src, ops.drop_first())
    }
}

/// The installed directory of the addon `local`.
pub open spec fn dest_of(local: Seq<char>) -> TreePath {
    addons_dir_spec().push(local)
}

/// The operations that install into `dest`: remove what is there, then copy.
pub open spec fn install_ops_spec(dest: TreePath, dest_exists: bool) -> Seq<OpView> {
    if dest_exists {
        seq![OpView::RemoveTree(dest), OpView::CopyTree(dest)]
    } else {
        seq![OpView::CopyTree(dest)]
    }
}

/// The operations that install the addon `local_name` over whatever is at its
/// directory: a full replace, with no merge.
pub fn install_ops(local_name: &String, dest_exists: bool) -> (r: Vec<FsOp>)
    ensures
        ops_view(r@) == install_ops_spec(dest_of(local_name@), dest_exists),
{
    let mut v: Vec<FsOp> = Vec::new();
    if dest_exists {
        v.push(FsOp::RemoveTree(addon_path(local_name)));
    }
    v.push(FsOp::CopyTree(addon_path(local_name)));
    assert(ops_view(v@) =~= install_ops_spec(dest_of(local_name@), dest_exists));
    v
}

/// A planned install: the child of the extraction root to copy, and the tree
/// operations.
#[derive(Debug, Clone)]
pub struct InstallPlan {
    pub source: usize,
    pub ops: Vec<FsOp>,
}

/// The install of `local_name` from an extraction root with `children`. With
/// no addon root among them it is an `ArtifactLayoutError` and plans no
/// operation, so the installed tree is left as it was.
pub fn plan_install(children: &Vec<ExtractedChild>, local_name: &String, dest_exists: bool) -> (r: Result<InstallPlan, SyncError>)
    ensures
        match r {
            Ok(p) => p.source < children@.len() && is_addon_root(children@[p.source as int])
                && (forall|j: int| 0 <= j < p.source ==> !is_addon_root(#[trigger] children@[j]))
                && ops_view(p.ops@) == install_ops_spec(dest_of(local_name@), dest_exists),
            Err(e) => (forall|j: int| 0 <= j < children@.len() ==> !is_addon_root(#[trigger] children@[j]))
                && e is ArtifactLayoutError && e->ArtifactLayoutError_0@ == layout_message(local_name@),
        },
{
    let source = locate_addon_root(children, local_name)?;
    Ok(InstallPlan { source, ops: install_ops(local_name, dest_exists) })
}

/// The tree after the install that `r` plans; a failed plan changes nothing.
pub open spec fn install_effect(fs: Set<TreePath>, src: Set<TreePath>, r: Result<InstallPlan, SyncError>) -> Set<TreePath> {
    match r {
        Ok(p) => apply_ops(fs, src, ops_view(p.ops@)),
        Err(_) => fs,
    }
}

/// An extraction root with no directory holding the descriptor fails the
/// install with an `ArtifactLayoutError`, and the tree is left as it was.
pub proof fn lemma_bad_layout_keeps_tree(
    children: Seq<ExtractedChild>,
    r: Result<InstallPlan, SyncError>,
    fs: Set<TreePath>,
    src: Set<TreePath>,
)
    requires
        forall|j: int| 0 <= j < children.len() ==> !is_addon_root(#[trigger] children[j]),
        match r {
            Ok(p) => p.source < children.len() && is_addon_root(children[p.source as int]),
            Err(_) => true,
        },
    ensures
        r is Err,
        install_effect(fs, src, r) == fs,
{
    if let Ok(p) = r {
        assert(!is_addon_root(children[p.source as int]));
    }
}

proof fn lemma_under_concat(d: TreePath, q: TreePath)
    ensures
        under(d, d + q),
        (d + q).skip(d.len() as int) == q,
{
    assert((d + q).take(d.len() as int) =~= d);
    assert((d + q).skip(d.len() as int) =~= q);
}

/// A tree in which every path's parent directory exists.
pub open spec fn tree_valid(fs: Set<TreePath>) -> bool {
    forall|p: TreePath| #[trigger] fs.contains(p) && p.len() > 0 ==> fs.contains(p.drop_last())
}

proof fn lemma_absent_dir_is_empty(fs: Set<TreePath>, d: TreePath, p: TreePath)
    requires
        tree_valid(fs),
        !fs.contains(d),
        under(d, p),
    ensures
        !fs.contains(p),
    decreases p.len() - d.len(),
{
    if p.len() > d.len() {
        let q = p.drop_last();
        assert(q.take(d.len() as int) =~= p.take(d.len() as int));
        lemma_absent_dir_is_empty(fs, d, q);
    } else {
        assert(p =~= p.take(d.len() as int));
    }
}

/// After an install, the addon's directory exists and holds exactly the
/// located addon root's content, whether a copy was there before or nothing
/// was; nothing outside it changes.
pub proof fn lemma_install_replaces(fs: Set<TreePath>, src: Set<TreePath>, local: Seq<char>)
    requires
        src.contains(Seq::empty()),
        tree_valid(fs),
    ensures
        ({
            let dest = dest_of(local);
            let out = apply_ops(fs, src, install_ops_spec(dest, fs.contains(dest)));
            &&& out.contains(dest)
            &&& forall|q: TreePath| #[trigger] out.contains(dest + q) <==> src.contains(q)
            &&& forall|p: TreePath| !under(dest, p) ==> (out.contains(p) <==> fs.contains(p))
        }),
{
    let dest = dest_of(local);
    let ops = install_ops_spec(dest, fs.contains(dest));
    let out = apply_ops(fs, src, ops);
    if !fs.contains(dest) {
        assert forall|p: TreePath| under(dest, p) implies !fs.contains(p) by {
            lemma_absent_dir_is_empty(fs, dest, p);
        }
    }
    if fs.contains(dest) {
        let mid = apply_op(fs, src, ops[0]);
        assert(ops.drop_first().drop_first().len() == 0);
        assert(apply_ops(fs, src, ops) == apply_ops(mid, src, ops.drop_first()));
        assert(ops.drop_first()[0] == ops[1]);
        assert(apply_ops(mid, src, ops.drop_first()) == apply_ops(
            apply_op(mid, src, ops.drop_first()[0]),
            src,
            ops.drop_first().drop_first(),
        ));
        assert(out == apply_op(mid, src, ops[1]));
    } else {
        assert(ops.drop_first().len() == 0);
        assert(apply_ops(fs, src, ops) == apply_ops(apply_op(fs, src, ops[0]), src, ops.drop_first()));
        assert(out == apply_op(fs, src, ops[0]));
    }
    assert forall|q: TreePath| #[trigger] out.contains(dest + q) <==> src.contains(q) by {
        lemma_under_concat(dest, q);
    }
    lemma_under_concat(dest, Seq::empty());
    assert(dest + Seq::<Seq<char>>::empty() =~= dest);
}

/// The operations that uninstall the addon `local_name`: removing its
/// directory. An absent addon is `NotInstalled`, and nothing is planned.
pub fn uninstall_ops(local_name: &String, installed: bool) -> (r: Result<Vec<FsOp>, SyncError>)
    ensures
        !installed ==> r is Err && r->Err_0 is NotInstalled
            && r->Err_0->NotInstalled_0@ == "Addon '"@ + local_name@ + "' is not installed"@,
        installed ==> r is Ok && ops_view(r->Ok_0@) == seq![OpView::RemoveTree(dest_of(local_name@))],
{
    if !installed {
        let mut m = String::from_str("Addon '");
        m.append(local_name.as_str());
        m.append("' is not installed");
        return Err(SyncError::NotInstalled(m));
    }
    let mut v: Vec<FsOp> = Vec::new();
    v.push(FsOp::RemoveTree(addon_path(local_name)));
    assert(ops_view(v@) =~= seq![OpView::RemoveTree(dest_of(local_name@))]);
    Ok(v)
}

/// The tree after the uninstall that `r` plans; a refused one changes nothing.
pub open spec fn uninstall_effect(fs: Set<TreePath>, r: Result<Vec<FsOp>, SyncError>) -> Set<TreePath> {
    match r {
        Ok(ops) => apply_ops(fs, Set::empty(), ops_view(ops@)),
        Err(_) => fs,
    }
}

/// Uninstalling an absent addon fails with `NotInstalled` and leaves the tree
/// as it was; uninstalling a present one removes its directory and everything
/// under it, and nothing else.
pub proof fn lemma_uninstall_effect(fs: Set<TreePath>, local: Seq<char>, r: Result<Vec<FsOp>, SyncError>)
    requires
        !fs.contains(dest_of(local)) ==> r is Err && r->Err_0 is NotInstalled,
        fs.contains(dest_of(local)) ==> r is Ok && ops_view(r->Ok_0@) == seq![OpView::RemoveTree(dest_of(local))],
    ensures
        !fs.contains(dest_of(local)) ==> r is Err && r->Err_0 is NotInstalled && uninstall_effect(fs, r) == fs,
        fs.contains(dest_of(local)) ==> forall|p: TreePath| #[trigger] uninstall_effect(fs, r).contains(p)
            <==> (fs.contains(p) && !under(dest_of(local), p)),
{
    if fs.contains(dest_of(local)) {
        let ops = seq![OpView::RemoveTree(dest_of(local))];
        assert(ops.drop_first().len() == 0);
        assert(apply_ops(fs, Set::empty(), ops) == apply_ops(apply_op(fs, Set::empty(), ops[0]), Set::empty(), ops.drop_first()));
    }
}

/// The message of a successful install of `name` into the directory shown as
/// `dest`.
pub fn install_message(name: &str, dest: &str) -> (r: String)
    ensures
        r@ == "Successfully installed "@ + name@ + " to "@ + dest@,
{
    let mut m = String::from_str("Successfully installed ");
    m.append(name);
    m.append(" to ");
    m.append(dest);
    m
}

/// The message of a successful uninstall of `name`.
pub fn uninstall_message(name: &str) -> (r: String)
    ensures
        r@ == "Successfully uninstalled "@ + name@,
{
    let mut m = String::from_str("Successfully uninstalled ");
    m.append(name);
    m
}

} // verus!
