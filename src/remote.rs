//! Remote version resolution: the hosting service's endpoints, and what the
//! engine makes of each answer.
use vstd::prelude::*;
use vstd::string::*;
use crate::types::{GitHubRelease, SyncError};
use crate::toc::{parse_toc_version, toc_version};

verus! {

/// The hosting service's API root for `owner/repo`.
pub open spec fn api_repo(owner: Seq<char>, repo: Seq<char>) -> Seq<char> {
    "https://api.github.com/repos/"@ + owner + "/"@ + repo
}

/// The raw-content root for `branch` of `owner/repo`.
pub open spec fn raw_root(owner: Seq<char>, repo: Seq<char>, branch: Seq<char>) -> Seq<char> {
    "https://raw.githubusercontent.com/"@ + owner + "/"@ + repo + "/"@ + branch + "/"@
}

fn api_repo_url(owner: &str, repo: &str) -> (r: String)
    ensures
        r@ == api_repo(owner@, repo@),
{
    let mut u = String::from_str("https://api.github.com/repos/");
    u.append(owner);
    u.append("/");
    u.append(repo);
    u
}

/// The latest-release endpoint of `owner/repo`.
pub fn release_url(owner: &str, repo: &str) -> (r: String)
    ensures
        r@ == api_repo(owner@, repo@) + "/releases/latest"@,
{
    let mut u = api_repo_url(owner, repo);
    u.append("/releases/latest");
    u
}

/// The endpoint that names the head commit of `branch`.
pub fn branch_commit_url(owner: &str, repo: &str, branch: &str) -> (r: String)
    ensures
        r@ == api_repo(owner@, repo@) + "/commits/"@ + branch@,
{
    let mut u = api_repo_url(owner, repo);
    u.append("/commits/");
    u.append(branch);
    u
}

/// The endpoint that lists the branches of `owner/repo`.
pub fn branches_url(owner: &str, repo: &str) -> (r: String)
    ensures
        r@ == api_repo(owner@, repo@) + "/branches"@,
{
    let mut u = api_repo_url(owner, repo);
    u.append("/branches");
    u
}

fn raw_root_url(owner: &str, repo: &str, branch: &str) -> (r: String)
    ensures
        r@ == raw_root(owner@, repo@, branch@),
{
    let mut u = String::from_str("https://raw.githubusercontent.com/");
    u.append(owner);
    u.append("/");
    u.append(repo);
    u.append("/");
    u.append(branch);
    u.append("/");
    u
}

/// The raw descriptor `<addon_name>.toc` at the root of `branch`.
pub fn raw_toc_url(owner: &str, repo: &str, branch: &str, addon_name: &str) -> (r: String)
    ensures
        r@ == raw_root(owner@, repo@, branch@) + addon_name@ + ".toc"@,
{
    let mut u = raw_root_url(owner, repo, branch);
    u.append(addon_name);
    u.append(".toc");
    u
}

/// The archive of the head of `branch`.
pub fn branch_archive_url(owner: &str, repo: &str, branch: &str) -> (r: String)
    ensures
        r@ == "https://github.com/"@ + owner@ + "/"@ + repo@ + "/archive/refs/heads/"@ + branch@
            + ".zip"@,
{
    let mut u = String::from_str("https://github.com/");
    u.append(owner);
    u.append("/");
    u.append(repo);
    u.append("/archive/refs/heads/");
    u.append(branch);
    u.append(".zip");
    u
}

/// The README names that are tried, in this order.
pub open spec fn readme_name(i: int) -> Seq<char> {
    if i == 0 {
        "README.md"@
    } else if i == 1 {
        "README.MD"@
    } else {
        "readme.md"@
    }
}

/// How many README names are tried.
pub const README_CANDIDATES: usize = 3;

/// The raw URL of the `i`-th README candidate of `branch`.
pub fn readme_url(owner: &str, repo: &str, branch: &str, i: usize) -> (r: String)
    requires
        i < README_CANDIDATES,
    ensures
        r@ == raw_root(owner@, repo@, branch@) + readme_name(i as int),
{
    let mut u = raw_root_url(owner, repo, branch);
    if i == 0 {
        u.append("README.md");
    } else if i == 1 {
        u.append("README.MD");
    } else {
        u.append("readme.md");
    }
    u
}

/// What to do next while looking for a README.
#[derive(Debug, Clone, Copy, PartialEq, Eq, Structural)]
pub enum ReadmeAction {
    /// Fetch the candidate of this index.
    Fetch(usize),
    /// The last answer is the README.
    UseBody,
    /// No candidate exists.
    NotFound,
}

/// A status in 200..=299.
pub open spec fn is_success(status: u16) -> bool {
    200 <= status <= 299
}

/// The next step of the README search, after `tried` candidates, the last of
/// which answered `last_status`.
pub fn readme_next(tried: usize, last_status: Option<u16>) -> (r: ReadmeAction)
    ensures
        match last_status {
            Some(st) if is_success(st) && tried > 0 => r == ReadmeAction::UseBody,
            _ => if tried < README_CANDIDATES {
                r == ReadmeAction::Fetch(tried)
            } else {
                r == ReadmeAction::NotFound
            },
        },
{
    if let Some(st) = last_status {
        if 200 <= st && st <= 299 && tried > 0 {
            return ReadmeAction::UseBody;
        }
    }
    if tried < README_CANDIDATES {
        ReadmeAction::Fetch(tried)
    } else {
        ReadmeAction::NotFound
    }
}

/// Accepts a status in 200..=299; any other is a `RemoteStatusError`
/// carrying it.
pub fn check_status(status: u16) -> (r: Result<(), SyncError>)
    ensures
        is_success(status) <==> r is Ok,
        !is_success(status) ==> r == Err::<(), SyncError>(SyncError::RemoteStatusError(status)),
{
    if 200 <= status && status <= 299 {
        Ok(())
    } else {
        Err(SyncError::RemoteStatusError(status))
    }
}

/// How long a branch-mode version identifier is.
pub const SHORT_ID_LEN: usize = 7;

/// A lowercase hexadecimal digit.
pub open spec fn is_lower_hex(c: char) -> bool {
    ('0' <= c && c <= '9') || ('a' <= c && c <= 'f')
}

/// A head commit hash from which a branch-mode identifier can be taken: at
/// least seven characters, the first seven lowercase hexadecimal digits.
pub open spec fn usable_hash(sha: Seq<char>) -> bool {
    sha.len() >= SHORT_ID_LEN && forall|i: int| 0 <= i < SHORT_ID_LEN ==> is_lower_hex(#[trigger] sha[i])
}

/// The branch-mode version identifier of a usable commit hash: its first
/// seven characters.
pub open spec fn short_id(sha: Seq<char>) -> Seq<char> {
    sha.take(SHORT_ID_LEN as int)
}

fn is_lower_hex_char(c: char) -> (r: bool)
    ensures
        r == is_lower_hex(c),
{
    ('0' <= c && c <= '9') || ('a' <= c && c <= 'f')
}

/// The version identifier of a branch whose head commit answer holds the hash
/// `sha`. No hash, or one that is not usable, is a `ParseError`.
pub fn short_commit(sha: &Option<String>) -> (r: Result<String, SyncError>)
    ensures
        match sha {
            Some(s) => (usable_hash(s@) ==> r is Ok && r->Ok_0@ == short_id(s@)) && (!usable_hash(s@)
                ==> r is Err && r->Err_0 is ParseError),
            None => r is Err && r->Err_0 is ParseError,
        },
{
    match sha {
        Some(s) => {
            let n = s.as_str().unicode_len();
            if n < SHORT_ID_LEN {
                return Err(SyncError::ParseError(String::from_str("Commit SHA is too short")));
            }
            let mut i: usize = 0;
            while i < SHORT_ID_LEN
                invariant
                    i <= SHORT_ID_LEN,
                    n == s@.len(),
                    n >= SHORT_ID_LEN,
                    *sha == Some(*s),
                    forall|j: int| 0 <= j < i ==> is_lower_hex(#[trigger] s@[j]),
                decreases SHORT_ID_LEN - i,
            {
                let c = s.as_str().get_char(i);
                if !is_lower_hex_char(c) {
                    assert(!is_lower_hex(s@[i as int]));
                    return Err(SyncError::ParseError(String::from_str("Commit SHA is not hexadecimal")));
                }
                i = i + 1;
            }
            let part = s.as_str().substring_char(0, SHORT_ID_LEN);
            assert(part@ =~= short_id(s@));
            Ok(String::from_str(part))
        },
        None => Err(SyncError::ParseError(String::from_str("Failed to get commit SHA"))),
    }
}

/// A branch-mode version identifier is exactly seven lowercase hexadecimal
/// digits, the first seven of the head commit hash.
pub proof fn lemma_short_id_shape(sha: Seq<char>)
    requires
        usable_hash(sha),
    ensures
        short_id(sha).len() == SHORT_ID_LEN,
        forall|i: int| 0 <= i < SHORT_ID_LEN ==> is_lower_hex(#[trigger] short_id(sha)[i]),
        forall|i: int| 0 <= i < SHORT_ID_LEN ==> short_id(sha)[i] == sha[i],
{
    assert forall|i: int| 0 <= i < SHORT_ID_LEN implies is_lower_hex(#[trigger] short_id(sha)[i]) by {
        assert(short_id(sha)[i] == sha[i]);
    }
}

/// The names of the listed branches, in order, leaving out entries without one.
pub open spec fn present_names(s: Seq<Option<Seq<char>>>) -> Seq<Seq<char>>
    decreases s.len(),
{
    if s.len() == 0 {
        Seq::empty()
    } else {
        let rest = present_names(s.drop_last());
        match s.last() {
            Some(n) => rest.push(n),
            None => rest,
        }
    }
}

pub open spec fn opt_views(v: Seq<Option<String>>) -> Seq<Option<Seq<char>>> {
    v.map_values(|o: Option<String>| match o {
        Some(s) => Some(s@),
        None => None,
    })
}

pub open spec fn str_views(v: Seq<String>) -> Seq<Seq<char>> {
    v.map_values(|s: String| s@)
}

/// The branch names of a branch listing whose entries carry `names`.
pub fn branch_names(names: &Vec<Option<String>>) -> (r: Vec<String>)
    ensures
        str_views(r@) == present_names(opt_views(names@)),
{
    let mut out: Vec<String> = Vec::new();
    let mut i: usize = 0;
    while i < names.len()
        invariant
            i <= names@.len(),
            str_views(out@) == present_names(opt_views(names@.take(i as int))),
        decreases names@.len() - i,
    {
        let ghost before = out@;
        assert(opt_views(names@.take(i + 1)).drop_last() =~= opt_views(names@.take(i as int)));
        match &names[i] {
            Some(n) => {
                out.push(n.clone());
                assert(str_views(out@) =~= str_views(before).push(n@));
            },
            None => {},
        }
        i = i + 1;
    }
    assert(names@.take(names@.len() as int) =~= names@);
    out
}

/// The version that a fetched remote descriptor declares; none is a
/// `ParseError`.
pub fn remote_toc_version(content: &str) -> (r: Result<String, SyncError>)
    ensures
        match toc_version(content@) {
            Some(v) => r is Ok && r->Ok_0@ == v,
            None => r is Err && r->Err_0 is ParseError,
        },
{
    match parse_toc_version(content) {
        Some(v) => Ok(v),
        None => Err(SyncError::ParseError(String::from_str("Version not found in TOC file"))),
    }
}

/// A resolved remote version: its identifier, and the artifact to fetch.
#[derive(Debug, Clone, PartialEq, Eq)]
pub struct RemoteVersion {
    pub version: String,
    pub artifact_url: String,
}

/// The remote version of release mode: the release's tag and snapshot.
pub fn release_version(release: &GitHubRelease) -> (r: RemoteVersion)
    ensures
        r.version@ == release.tag_name@,
        r.artifact_url@ == release.zipball_url@,
{
    RemoteVersion { version: release.tag_name.clone(), artifact_url: release.zipball_url.clone() }
}

/// The remote version of branch mode, from the head commit hash `sha` of
/// `branch`: the hash's first seven characters, and the branch's archive.
/// No hash, or one that is not usable, is a `ParseError`.
pub fn branch_version(owner: &str, repo: &str, branch: &str, sha: &Option<String>) -> (r: Result<RemoteVersion, SyncError>)
    ensures
        match sha {
            Some(s) if usable_hash(s@) => r is Ok && r->Ok_0.version@ == short_id(s@)
                && r->Ok_0.artifact_url@ == "https://github.com/"@ + owner@ + "/"@ + repo@
                + "/archive/refs/heads/"@ + branch@ + ".zip"@,
            _ => r is Err && r->Err_0 is ParseError,
        },
{
    let version = short_commit(sha)?;
    Ok(RemoteVersion { version, artifact_url: branch_archive_url(owner, repo, branch) })
}

} // verus!
