//! Data model shared by every part of the engine.
use vstd::prelude::*;

verus! {

/// How the remote version of an addon is resolved.
#[derive(Debug, Clone, Copy, PartialEq, Eq, Structural)]
pub enum UpdateMode {
    /// The latest tagged release.
    Release,
    /// The head commit of a tracked branch.
    Branch,
}

/// A catalog entry, fixed at build time.
#[derive(Debug, Clone)]
pub struct AddonDefinition {
    pub local_name: String,
    pub nice_name: String,
    pub github_owner: String,
    pub github_repo: String,
    pub description: String,
    pub update_mode: UpdateMode,
    /// Branch tracked in branch mode.
    pub branch: Option<String>,
}

/// Mathematical picture of an `AddonDefinition`.
pub struct DefinitionView {
    pub local_name: Seq<char>,
    pub nice_name: Seq<char>,
    pub github_owner: Seq<char>,
    pub github_repo: Seq<char>,
    pub description: Seq<char>,
    pub update_mode: UpdateMode,
    pub branch: Option<Seq<char>>,
}

pub open spec fn opt_str_view(o: Option<String>) -> Option<Seq<char>> {
    match o {
        Some(s) => Some(s@),
        None => None,
    }
}

impl View for AddonDefinition {
    type V = DefinitionView;

    open spec fn view(&self) -> DefinitionView {
        DefinitionView {
            local_name: self.local_name@,
            nice_name: self.nice_name@,
            github_owner: self.github_owner@,
            github_repo: self.github_repo@,
            description: self.description@,
            update_mode: self.update_mode,
            branch: opt_str_view(self.branch),
        }
    }
}

/// A stored per-addon exception to the catalog's update strategy; each field
/// applies on its own.
#[derive(Debug, Clone)]
pub struct AddonOverride {
    pub update_mode: Option<UpdateMode>,
    pub branch: Option<String>,
}

pub struct OverrideView {
    pub update_mode: Option<UpdateMode>,
    pub branch: Option<Seq<char>>,
}

impl View for AddonOverride {
    type V = OverrideView;

    open spec fn view(&self) -> OverrideView {
        OverrideView { update_mode: self.update_mode, branch: opt_str_view(self.branch) }
    }
}

/// The persisted configuration. `addon_overrides` holds at most one entry per
/// local name (see `AppConfig::wf`).
#[derive(Debug, Clone)]
pub struct AppConfig {
    pub wow_path: Option<String>,
    pub launch_on_startup: bool,
    pub minimize_on_startup: bool,
    pub language: String,
    pub addon_overrides: Vec<(String, AddonOverride)>,
}

/// The override entries of a configuration as (local name, override) pairs.
pub open spec fn override_entries(v: Seq<(String, AddonOverride)>) -> Seq<(Seq<char>, OverrideView)> {
    v.map_values(|e: (String, AddonOverride)| (e.0@, e.1@))
}

/// No two entries share a local name.
pub open spec fn keys_unique(s: Seq<(Seq<char>, OverrideView)>) -> bool {
    forall|i: int, j: int| 0 <= i < s.len() && 0 <= j < s.len() && i != j ==> s[i].0 != s[j].0
}

impl AppConfig {
    pub open spec fn overrides(&self) -> Seq<(Seq<char>, OverrideView)> {
        override_entries(self.addon_overrides@)
    }

    pub open spec fn wf(&self) -> bool {
        keys_unique(self.overrides())
    }
}

/// What the local scan reports for one installed addon.
#[derive(Debug, Clone)]
pub struct AddonInfo {
    pub name: String,
    /// The declared version, or `unknown`.
    pub version: String,
    pub path: String,
}

/// The fields of a latest-release answer that the engine uses.
#[derive(Debug, Clone)]
pub struct GitHubRelease {
    pub tag_name: String,
    pub name: String,
    pub published_at: String,
    pub zipball_url: String,
}

/// The failures that an engine operation reports.
#[derive(Debug, Clone, PartialEq, Eq)]
pub enum SyncError {
    /// An expected file or directory is absent.
    NotFound(String),
    /// A descriptor or answer lacks the expected field.
    ParseError(String),
    /// The transport failed.
    NetworkError(String),
    /// The remote answered with a status outside 200..=299.
    RemoteStatusError(u16),
    /// The extracted archive holds no directory with the addon's descriptor.
    ArtifactLayoutError(String),
    /// Creating, copying or removing on disk failed.
    FilesystemError(String),
    /// The addon to remove is not installed.
    NotInstalled(String),
}

} // verus!
