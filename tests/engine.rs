use std::io::Write;

use nihui_app::archive::{plan_extraction, read_archive};
use nihui_app::catalog::get_addon_definitions;
use nihui_app::config::{
    apply_override, default_language, default_launch_on_startup, default_minimize_on_startup,
    get_addon_list,
};
use nihui_app::discovery::{
    found_install_paths, install_candidates, normalize_candidates, normalize_install_path,
};
use nihui_app::install::{
    install_message, install_ops, locate_addon_root, plan_install, resolve_download,
    resolve_version_source, toc_file_name, uninstall_message, uninstall_ops, DownloadSource,
    ExtractedChild, FsOp, VersionSource,
};
use nihui_app::layout::{
    addon_path, addons_dir, get_local_addon_versions, read_version_from_toc,
    validate_wow_path_internal, AddonDirEntry,
};
use nihui_app::remote::{
    branch_archive_url, branch_commit_url, branch_version, release_version, RemoteVersion, branch_names, branches_url, check_status, raw_toc_url,
    readme_next, readme_url, release_url, remote_toc_version, short_commit, ReadmeAction,
};
use nihui_app::toc::parse_toc_version;
use nihui_app::types::{
    AddonDefinition, AddonOverride, AppConfig, GitHubRelease, SyncError, UpdateMode,
};

fn def(local: &str, mode: UpdateMode, branch: Option<&str>) -> AddonDefinition {
    AddonDefinition {
        local_name: local.to_string(),
        nice_name: "Nice".to_string(),
        github_owner: "o".to_string(),
        github_repo: "r".to_string(),
        description: "d".to_string(),
        update_mode: mode,
        branch: branch.map(|b| b.to_string()),
    }
}

fn child(name: &str, is_dir: bool, has_toc: bool) -> ExtractedChild {
    ExtractedChild { name: name.to_string(), is_dir, has_toc }
}

fn strings(v: &[&str]) -> Vec<String> {
    v.iter().map(|s| s.to_string()).collect()
}

#[test]
fn catalog_lists_seven_branch_addons() {
    let defs = get_addon_definitions();
    assert_eq!(defs.len(), 7);
    assert_eq!(defs[0].local_name, "Nihui_uf");
    assert_eq!(defs[0].github_repo, "Nihui_unitframe");
    assert_eq!(defs[6].local_name, "WaypointUI");
    assert_eq!(defs[6].github_owner, "Adaptvx");
    for d in &defs {
        assert_eq!(d.update_mode, UpdateMode::Branch);
        assert_eq!(d.branch.as_deref(), Some("main"));
    }
}

#[test]
fn configuration_defaults() {
    assert!(default_launch_on_startup());
    assert!(default_minimize_on_startup());
    assert_eq!(default_language(), "");
    let c = AppConfig::initial();
    assert_eq!(c.language, "en");
    assert!(c.wow_path.is_none());
    assert!(c.addon_overrides.is_empty());
}

#[test]
fn branch_only_override_keeps_catalog_strategy() {
    let mut c = AppConfig::initial();
    c.addon_overrides.push((
        "Nihui_uf".to_string(),
        AddonOverride { update_mode: None, branch: Some("dev".to_string()) },
    ));
    let list = get_addon_list(&Some(c));
    assert_eq!(list[0].update_mode, UpdateMode::Branch);
    assert_eq!(list[0].branch.as_deref(), Some("dev"));
    assert_eq!(list[1].branch.as_deref(), Some("main"));
}

#[test]
fn strategy_only_override_keeps_catalog_branch() {
    let mut c = AppConfig::initial();
    c.addon_overrides.push((
        "Nihui_ab".to_string(),
        AddonOverride { update_mode: Some(UpdateMode::Release), branch: None },
    ));
    let list = get_addon_list(&Some(c));
    assert_eq!(list[1].update_mode, UpdateMode::Release);
    assert_eq!(list[1].branch.as_deref(), Some("main"));
    assert_eq!(list[0].update_mode, UpdateMode::Branch);
}

#[test]
fn no_configuration_gives_catalog() {
    let list = get_addon_list(&None);
    assert_eq!(list.len(), 7);
    assert_eq!(list[3].local_name, "Nihui_cb");
    assert_eq!(list[3].branch.as_deref(), Some("main"));
}

#[test]
fn apply_override_without_override_copies() {
    let d = def("X", UpdateMode::Branch, Some("main"));
    let r = apply_override(&d, &None);
    assert_eq!(r.local_name, "X");
    assert_eq!(r.branch.as_deref(), Some("main"));
}

#[test]
fn set_override_replaces_earlier_entry() {
    let mut c = AppConfig::initial();
    c.set_override("Nihui_uf".to_string(), UpdateMode::Release, None);
    c.set_override("Nihui_ab".to_string(), UpdateMode::Branch, Some("dev".to_string()));
    c.set_override("Nihui_uf".to_string(), UpdateMode::Branch, Some("beta".to_string()));
    assert_eq!(c.addon_overrides.len(), 2);
    let o = c.override_for(&"Nihui_uf".to_string()).unwrap();
    assert_eq!(o.update_mode, Some(UpdateMode::Branch));
    assert_eq!(o.branch.as_deref(), Some("beta"));
    let o2 = c.override_for(&"Nihui_ab".to_string()).unwrap();
    assert_eq!(o2.branch.as_deref(), Some("dev"));
    assert!(c.override_for(&"Nihui_iv".to_string()).is_none());
    assert_eq!(c.language, "en");
}

#[test]
fn toc_version_among_other_lines() {
    let text = "## Interface: 110002\n## Title: Unit Frames\n## Version: 1.2.3\n## Author: n\n";
    assert_eq!(parse_toc_version(text), Some("1.2.3".to_string()));
}

#[test]
fn toc_version_with_spacing_and_crlf() {
    assert_eq!(parse_toc_version("##Version:1.2.3"), Some("1.2.3".to_string()));
    assert_eq!(parse_toc_version("a\r\n##   Version:   1.2.3  \r\nb"), Some("1.2.3".to_string()));
    assert_eq!(parse_toc_version("## Version: 2.0 beta\n"), Some("2.0 beta".to_string()));
}

#[test]
fn toc_version_on_indented_line() {
    assert_eq!(parse_toc_version("  ## Version: 1.2.3"), Some("1.2.3".to_string()));
    assert_eq!(parse_toc_version("## Title: X\n\t ## Version: 1.2.3\n"), Some("1.2.3".to_string()));
    assert_eq!(
        read_version_from_toc(&Some("   ## Version: 1.2.3\n".to_string())),
        Ok("1.2.3".to_string())
    );
    assert_eq!(remote_toc_version("  ##Version: 1.2.3"), Ok("1.2.3".to_string()));
}

#[test]
fn toc_version_first_line_wins() {
    let text = "## Version: 1.0\n## Version: 2.0\n";
    assert_eq!(parse_toc_version(text), Some("1.0".to_string()));
}

#[test]
fn toc_without_version_line() {
    assert_eq!(parse_toc_version(""), None);
    assert_eq!(parse_toc_version("## Title: X\n"), None);
    assert_eq!(parse_toc_version("## Version:"), None);
    assert_eq!(parse_toc_version("# Version: 1.0"), None);
}

#[test]
fn toc_version_of_only_spaces_is_empty() {
    assert_eq!(parse_toc_version("## Version:   \n"), Some("".to_string()));
}

#[test]
fn read_version_errors() {
    assert!(matches!(read_version_from_toc(&None), Err(SyncError::NotFound(_))));
    assert!(matches!(
        read_version_from_toc(&Some("## Title: X".to_string())),
        Err(SyncError::ParseError(_))
    ));
    assert_eq!(
        read_version_from_toc(&Some("## Version: 4.5".to_string())),
        Ok("4.5".to_string())
    );
    assert!(matches!(remote_toc_version("nothing"), Err(SyncError::ParseError(_))));
    assert_eq!(remote_toc_version("## Version: 9"), Ok("9".to_string()));
}

#[test]
fn scan_reports_unknown_for_unparsable_descriptor() {
    let dirs = vec![
        AddonDirEntry {
            name: "Nihui_uf".to_string(),
            path: "/g/Nihui_uf".to_string(),
            toc: Some("## Title: no version here\n".to_string()),
        },
        AddonDirEntry { name: "Other".to_string(), path: "/g/Other".to_string(), toc: None },
        AddonDirEntry { name: "Nihui_ab".to_string(), path: "/g/Nihui_ab".to_string(), toc: None },
        AddonDirEntry {
            name: "WaypointUI".to_string(),
            path: "/g/WaypointUI".to_string(),
            toc: Some("## Version: 3.1\n".to_string()),
        },
    ];
    let infos = get_local_addon_versions(true, &dirs).unwrap();
    assert_eq!(infos.len(), 3);
    assert_eq!(infos[0].name, "Nihui_uf");
    assert_eq!(infos[0].version, "unknown");
    assert_eq!(infos[1].name, "Nihui_ab");
    assert_eq!(infos[1].version, "unknown");
    assert_eq!(infos[2].version, "3.1");
    assert_eq!(infos[2].path, "/g/WaypointUI");
}

#[test]
fn scan_without_addon_directory_is_not_found() {
    assert!(matches!(get_local_addon_versions(false, &vec![]), Err(SyncError::NotFound(_))));
    assert_eq!(get_local_addon_versions(true, &vec![]).unwrap().len(), 0);
}

#[test]
fn branch_identifier_is_seven_characters() {
    let sha = Some("abcdef1234567890abcdef1234567890abcdef12".to_string());
    assert_eq!(short_commit(&sha), Ok("abcdef1".to_string()));
    assert!(matches!(short_commit(&Some("abc".to_string())), Err(SyncError::ParseError(_))));
    assert!(matches!(short_commit(&Some("abcdefg123".to_string())), Err(SyncError::ParseError(_))));
    assert!(matches!(short_commit(&Some("ABCDEF1234".to_string())), Err(SyncError::ParseError(_))));
    assert_eq!(short_commit(&Some("0123456".to_string())), Ok("0123456".to_string()));
    assert!(matches!(short_commit(&None), Err(SyncError::ParseError(_))));
}

#[test]
fn validate_needs_all_three_directories() {
    assert!(validate_wow_path_internal(true, true, true));
    assert!(!validate_wow_path_internal(false, true, true));
    assert!(!validate_wow_path_internal(true, false, true));
    assert!(!validate_wow_path_internal(true, true, false));
    assert_eq!(addons_dir(), strings(&["_retail_", "Interface", "AddOns"]));
}

#[test]
fn install_without_descriptor_is_layout_error() {
    let children = vec![child("r-main", true, false), child("notes.txt", false, true)];
    let r = plan_install(&children, &"X".to_string(), true);
    assert_eq!(
        r.unwrap_err(),
        SyncError::ArtifactLayoutError(
            "Addon files with 'X.toc' not found in the downloaded archive".to_string()
        )
    );
    assert!(locate_addon_root(&vec![], &"X".to_string()).is_err());
}

#[test]
fn install_over_existing_removes_then_copies() {
    let ops = install_ops(&"X".to_string(), true);
    let dest = strings(&["_retail_", "Interface", "AddOns", "X"]);
    assert_eq!(ops.len(), 2);
    assert!(matches!(&ops[0], FsOp::RemoveTree(p) if *p == dest));
    assert!(matches!(&ops[1], FsOp::CopyTree(p) if *p == dest));
    let fresh = install_ops(&"X".to_string(), false);
    assert_eq!(fresh.len(), 1);
    assert!(matches!(&fresh[0], FsOp::CopyTree(p) if *p == dest));
}

#[test]
fn uninstall_absent_is_not_installed() {
    let r = uninstall_ops(&"X".to_string(), false);
    assert_eq!(r.unwrap_err(), SyncError::NotInstalled("Addon 'X' is not installed".to_string()));
    let ok = uninstall_ops(&"X".to_string(), true).unwrap();
    assert_eq!(ok.len(), 1);
    assert!(matches!(&ok[0], FsOp::RemoveTree(p) if *p == addon_path(&"X".to_string())));
    assert_eq!(uninstall_message("X"), "Successfully uninstalled X");
}

#[test]
fn branch_install_end_to_end() {
    let d = def("X", UpdateMode::Branch, Some("main"));
    let version = short_commit(&Some("abcdef1234567890".to_string())).unwrap();
    assert_eq!(version, "abcdef1");
    let resolved = branch_version("o", "r", "main", &Some("abcdef1234567890".to_string())).unwrap();
    assert_eq!(
        resolved,
        RemoteVersion {
            version: "abcdef1".to_string(),
            artifact_url: "https://github.com/o/r/archive/refs/heads/main.zip".to_string(),
        }
    );
    match resolve_download(&d).unwrap() {
        DownloadSource::Archive(u) => {
            assert_eq!(u, "https://github.com/o/r/archive/refs/heads/main.zip")
        }
        DownloadSource::LatestRelease(_) => panic!("branch mode resolved to a release"),
    }
    let children =
        vec![child("pax_global_header", false, false), child("r-main", true, true)];
    let plan = plan_install(&children, &"X".to_string(), false).unwrap();
    assert_eq!(plan.source, 1);
    assert_eq!(plan.ops.len(), 1);
    assert!(matches!(&plan.ops[0], FsOp::CopyTree(p)
        if *p == strings(&["_retail_", "Interface", "AddOns", "X"])));
    assert_eq!(toc_file_name(&"X".to_string()), "X.toc");
}

#[test]
fn release_and_branchless_resolution() {
    let d = def("X", UpdateMode::Release, None);
    match resolve_download(&d).unwrap() {
        DownloadSource::LatestRelease(u) => {
            assert_eq!(u, "https://api.github.com/repos/o/r/releases/latest")
        }
        DownloadSource::Archive(_) => panic!("release mode resolved to an archive"),
    }
    let b = def("X", UpdateMode::Branch, None);
    assert_eq!(
        resolve_download(&b).unwrap_err(),
        SyncError::ParseError("Branch name is required for branch mode".to_string())
    );
    let empty = def("X", UpdateMode::Branch, Some(""));
    assert_eq!(
        resolve_download(&empty).unwrap_err(),
        SyncError::ParseError("Branch name is required for branch mode".to_string())
    );
    assert!(matches!(resolve_version_source(&empty), Err(SyncError::ParseError(_))));
    match resolve_version_source(&def("X", UpdateMode::Branch, Some("dev"))).unwrap() {
        VersionSource::BranchHead { commit_url, branch } => {
            assert_eq!(commit_url, "https://api.github.com/repos/o/r/commits/dev");
            assert_eq!(branch, "dev");
        }
        VersionSource::LatestRelease(_) => panic!("branch mode resolved to a release"),
    }
    match resolve_version_source(&d).unwrap() {
        VersionSource::LatestRelease(u) => {
            assert_eq!(u, "https://api.github.com/repos/o/r/releases/latest")
        }
        VersionSource::BranchHead { .. } => panic!("release mode resolved to a branch"),
    }
}

#[test]
fn endpoint_urls() {
    assert_eq!(release_url("o", "r"), "https://api.github.com/repos/o/r/releases/latest");
    assert_eq!(branch_commit_url("o", "r", "dev"), "https://api.github.com/repos/o/r/commits/dev");
    assert_eq!(branches_url("o", "r"), "https://api.github.com/repos/o/r/branches");
    assert_eq!(
        raw_toc_url("o", "r", "main", "X"),
        "https://raw.githubusercontent.com/o/r/main/X.toc"
    );
    assert_eq!(branch_archive_url("o", "r", "b"), "https://github.com/o/r/archive/refs/heads/b.zip");
    assert_eq!(readme_url("o", "r", "main", 0), "https://raw.githubusercontent.com/o/r/main/README.md");
    assert_eq!(readme_url("o", "r", "main", 1), "https://raw.githubusercontent.com/o/r/main/README.MD");
    assert_eq!(readme_url("o", "r", "main", 2), "https://raw.githubusercontent.com/o/r/main/readme.md");
}

#[test]
fn status_classification() {
    assert_eq!(check_status(200), Ok(()));
    assert_eq!(check_status(299), Ok(()));
    assert_eq!(check_status(199), Err(SyncError::RemoteStatusError(199)));
    assert_eq!(check_status(300), Err(SyncError::RemoteStatusError(300)));
    assert_eq!(check_status(404), Err(SyncError::RemoteStatusError(404)));
}

#[test]
fn readme_search_order() {
    assert_eq!(readme_next(0, None), ReadmeAction::Fetch(0));
    assert_eq!(readme_next(1, Some(404)), ReadmeAction::Fetch(1));
    assert_eq!(readme_next(2, Some(200)), ReadmeAction::UseBody);
    assert_eq!(readme_next(3, Some(404)), ReadmeAction::NotFound);
}

#[test]
fn branch_listing_skips_unnamed() {
    let names = vec![Some("main".to_string()), None, Some("dev".to_string())];
    assert_eq!(branch_names(&names), strings(&["main", "dev"]));
    assert!(branch_names(&vec![]).is_empty());
}

fn sample_zip() -> Vec<u8> {
    let mut w = zip::ZipWriter::new(std::io::Cursor::new(Vec::new()));
    let opts = zip::write::SimpleFileOptions::default()
        .compression_method(zip::CompressionMethod::Stored);
    w.add_directory("X-main/", opts).unwrap();
    w.start_file("X-main/X.toc", opts).unwrap();
    w.write_all(b"## Version: 1.0\n").unwrap();
    w.start_file("../evil.txt", opts).unwrap();
    w.write_all(b"bad").unwrap();
    w.start_file("X-main/../../climb.txt", opts).unwrap();
    w.write_all(b"bad").unwrap();
    w.start_file("X-main/sub/./a.lua", opts).unwrap();
    w.write_all(b"x").unwrap();
    w.finish().unwrap().into_inner()
}

#[test]
fn archive_entries_and_guarded_plan() {
    let entries = read_archive(sample_zip()).unwrap();
    let names: Vec<&str> = entries.iter().map(|e| e.name.as_str()).collect();
    assert_eq!(
        names,
        vec!["X-main/", "X-main/X.toc", "../evil.txt", "X-main/../../climb.txt", "X-main/sub/./a.lua"]
    );
    assert_eq!(entries[1].data, b"## Version: 1.0\n".to_vec());
    assert!(entries[2].enclosed.is_none());
    let steps = plan_extraction(&entries);
    assert_eq!(steps.len(), 3);
    assert_eq!(steps[2].entry, 4);
    assert_eq!(steps[2].path, "X-main/sub/./a.lua");
    assert_eq!(steps[0].path, "X-main/");
    assert!(steps[0].is_dir);
    assert_eq!(steps[1].entry, 1);
    assert_eq!(steps[1].path, "X-main/X.toc");
    assert!(!steps[1].is_dir);
}

#[test]
fn unreadable_archive_is_layout_error() {
    assert!(matches!(read_archive(b"not a zip".to_vec()), Err(SyncError::ArtifactLayoutError(_))));
}

#[test]
fn install_candidates_from_product_database() {
    let content = "junk\u{0}C:/Games/World of Warcraft\u{0}D:\\BNet\\World of Warcraft\u{1}x\u{0}C:/Games/World of Warcraft\u{0}";
    assert_eq!(
        install_candidates(content),
        strings(&["C:\\Games\\World of Warcraft", "D:\\BNet\\World of Warcraft"])
    );
    assert!(install_candidates("nothing here").is_empty());
    assert_eq!(normalize_install_path("E:/a/b\u{2}rest"), "E:\\a\\b");
    assert_eq!(
        normalize_candidates(&strings(&["C:/W", "C:\\W", "D:/X\u{1}y"])),
        strings(&["C:\\W", "D:\\X"])
    );
}

#[test]
fn no_installation_found() {
    assert!(matches!(found_install_paths(vec![]), Err(SyncError::NotFound(_))));
    assert_eq!(found_install_paths(strings(&["C:\\W"])), Ok(strings(&["C:\\W"])));
}

#[test]
fn install_message_names_addon_and_destination() {
    assert_eq!(install_message("X", "/g/AddOns/X"), "Successfully installed X to /g/AddOns/X");
}

#[test]
fn release_mode_version_is_tag_and_snapshot() {
    let release = GitHubRelease {
        tag_name: "v2.1.0".to_string(),
        name: "Release 2.1".to_string(),
        published_at: "2024-01-01T00:00:00Z".to_string(),
        zipball_url: "https://api.github.com/repos/o/r/zipball/v2.1.0".to_string(),
    };
    let v = release_version(&release);
    assert_eq!(v.version, "v2.1.0");
    assert_eq!(v.artifact_url, "https://api.github.com/repos/o/r/zipball/v2.1.0");
    assert!(matches!(branch_version("o", "r", "main", &None), Err(SyncError::ParseError(_))));
}

#[test]
fn safe_names_are_extracted_and_escaping_ones_skipped() {
    let mut w = zip::ZipWriter::new(std::io::Cursor::new(Vec::new()));
    let opts = zip::write::SimpleFileOptions::default()
        .compression_method(zip::CompressionMethod::Stored);
    for name in ["X-main\\a.lua", "a/../b.lua", "./c.lua", "/etc/passwd", "a/../../b", ".."] {
        w.start_file(name, opts).unwrap();
        w.write_all(b"x").unwrap();
    }
    let bytes = w.finish().unwrap().into_inner();
    let entries = read_archive(bytes).unwrap();
    let steps = plan_extraction(&entries);
    let written: Vec<&str> = steps.iter().map(|s| s.path.as_str()).collect();
    assert_eq!(written, vec!["X-main\\a.lua", "a/../b.lua", "./c.lua"]);
    assert_eq!(steps.iter().map(|s| s.entry).collect::<Vec<_>>(), vec![0, 1, 2]);
}
