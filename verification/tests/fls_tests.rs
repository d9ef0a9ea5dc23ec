use std::collections::BTreeSet;

use fls::buck::{classify_labels, resolve, resolve_query, verify_workspace_target, workspace_target};
use fls::collections::{TextMap, TextSet};
use fls::environment::{buck2_pin, toml_entry, TomlValue, buck2_pin_version, ensure_buck2_version, ensure_supported_host, pinned_buck2_version, supported_host_triples, Buck2Pin};
use fls::git::{join_path, sparse_enabled, split_nul_paths, text, Dirtiness, Git, PathStyle, SparseSnapshot};
use fls::manifest::{validate_identifier, validate_top_level_path, Manifest, ManifestFile, Project, ProjectFile, CURRENT_SCHEMA};
use fls::state::{load, State};
use fls::workspace::{ChangeKind, ChangeRequest, ProjectStatus, Workspace};
use fls::Error;

fn set_of(items: &[&str]) -> TextSet {
    let mut s = TextSet::new();
    for item in items {
        s.insert(item.to_string());
    }
    s
}

fn members(s: &TextSet) -> Vec<String> {
    s.to_vec()
}

fn manifest_of(projects: &[(&str, &str)], control_paths: &[&str]) -> Manifest {
    let mut map = TextMap::new();
    for (id, path) in projects {
        map.insert(
            id.to_string(),
            Project { id: id.to_string(), path: path.to_string(), description: String::new() },
        );
    }
    Manifest {
        schema_version: CURRENT_SCHEMA,
        projects: map,
        control_paths: control_paths.iter().map(|p| p.to_string()).collect(),
        warnings: Vec::new(),
        mutation_supported: true,
    }
}

fn no_git() -> Git {
    Git { root: String::new(), git_dir: String::new() }
}

fn message(e: &Error) -> String {
    e.text()
}

#[test]
fn classifies_only_root_repository_projects() {
    let manifest = manifest_of(&[("UserCenter", "UserCenter")], &["third-party"]);
    let resolution = classify_labels(
        &manifest,
        vec![
            "root//UserCenter:workspace".to_owned(),
            "root//third-party/rust:serde".to_owned(),
            "toolchains//:rust".to_owned(),
            "root//Unregistered:target".to_owned(),
        ],
    )
    .unwrap();
    assert_eq!(members(&resolution.projects), vec!["UserCenter".to_owned()]);
    assert_eq!(members(&resolution.unknown_root_packages), vec!["Unregistered".to_owned()]);
}

#[test]
fn declared_host_matrix_has_no_duplicates() {
    let unique = supported_host_triples().into_iter().collect::<BTreeSet<_>>();
    assert_eq!(unique.len(), 9);
}

#[test]
fn inference_only_accepts_full_top_level_patterns() {
    let manifest = manifest_of(&[("TeraPanel", "TeraPanel")], &[]);
    let git = no_git();
    let full = SparseSnapshot { enabled: true, patterns: "/TeraPanel/\n/TeraPanel/BUCK\n".to_owned() };
    assert!(git.inferred_materialized_projects(&manifest, &full).contains("TeraPanel"));
    let metadata_only = SparseSnapshot { enabled: true, patterns: "/TeraPanel/BUCK\n".to_owned() };
    assert!(git.inferred_materialized_projects(&manifest, &metadata_only).is_empty());
}

#[test]
fn identifier_lookup_is_ascii_case_insensitive() {
    let manifest = manifest_of(&[("TeraPanel", "TeraPanel")], &[]);
    assert_eq!(manifest.resolve_id("terapanel"), Some("TeraPanel"));
}

#[test]
fn top_level_paths_reject_nested_paths() {
    assert!(validate_top_level_path("nested/path", "项目路径").is_err());
    assert!(validate_top_level_path("Project", "项目路径").is_ok());
}

#[test]
fn materialized_projects_include_retained_projects() {
    let mut state = State::current();
    state.resolved_projects.insert("TeraPanel".to_owned());
    state.retained_projects.insert("UserCenter".to_owned(), "存在未提交修改".to_owned());
    assert_eq!(
        members(&state.materialized_projects()),
        vec!["TeraPanel".to_owned(), "UserCenter".to_owned()]
    );
}

// ---------------------------------------------------------------- manifest

#[test]
fn identifiers_allow_letters_digits_dashes_and_underscores() {
    assert!(validate_identifier("Tera_Panel-2").is_ok());
    assert!(validate_identifier("").is_err());
    assert!(validate_identifier("has space").is_err());
}

#[test]
fn manifest_file_loads_into_manifest() {
    let mut projects = TextMap::new();
    projects.insert("TeraPanel".to_owned(), ProjectFile { path: "TeraPanel".to_owned(), description: "面板".to_owned() });
    let raw = ManifestFile { schema_version: 1, control_paths: vec!["third-party".to_owned()], projects };
    let manifest = Manifest::load(&raw).unwrap();
    assert!(manifest.mutation_supported);
    assert_eq!(manifest.projects.get("TeraPanel").unwrap().description, "面板");
    assert!(manifest.require_mutation_support().is_ok());
}

#[test]
fn project_paths_are_found_without_case() {
    let manifest = manifest_of(&[("TeraPanel", "TeraPanel")], &[]);
    assert_eq!(manifest.project_by_path("terapanel").unwrap().id, "TeraPanel");
    assert!(manifest.project_by_path("Other").is_none());
}

// ---------------------------------------------------------------- environment

#[test]
fn host_outside_matrix_is_refused_with_the_matrix() {
    assert_eq!(ensure_supported_host("x86_64-unknown-linux-gnu").unwrap(), "x86_64-unknown-linux-gnu");
    let e = ensure_supported_host("sparc-sun-solaris").unwrap_err();
    assert!(message(&e).starts_with("当前 host triple `sparc-sun-solaris` 不受 fls 支持；支持范围为：aarch64-apple-darwin, "));
}

#[test]
fn buck2_pin_must_be_exact() {
    assert_eq!(ensure_buck2_version(Ok("2025-01-01".to_owned()), "buck2 2025").unwrap(), "2025-01-01");
    assert_eq!(
        message(&ensure_buck2_version(Ok("latest".to_owned()), "x").unwrap_err()),
        "mise.toml 必须精确固定 Buck2 版本，当前值为 `latest`"
    );
    assert_eq!(message(&ensure_buck2_version(Ok("1.0".to_owned()), "  ").unwrap_err()), "锁定的 Buck2 没有返回版本信息");
    assert_eq!(message(&buck2_pin_version(Buck2Pin::Missing).unwrap_err()), "mise.toml 没有固定 Buck2 版本");
    assert_eq!(buck2_pin_version(Buck2Pin::Other(Some("3".to_owned()))).unwrap(), "3");
}

// ---------------------------------------------------------------- git

#[test]
fn printed_text_is_trimmed_and_invalid_utf8_is_refused() {
    assert_eq!(text(b"  abc\n", "HEAD").unwrap(), "abc");
    let e = text(&[0xff, 0xfe], "HEAD").unwrap_err();
    assert!(message(&e).starts_with("HEAD 不是有效的 UTF-8: "));
}

#[test]
fn nul_separated_paths_skip_empty_records() {
    assert_eq!(split_nul_paths(b"a\0b/c\0\0").unwrap(), vec!["a".to_owned(), "b/c".to_owned()]);
}

#[test]
fn paths_join_like_unix_paths() {
    assert_eq!(join_path(PathStyle::Unix, "/repo/.git", "fls"), "/repo/.git/fls");
    assert_eq!(join_path(PathStyle::Unix, "/repo/", "fls"), "/repo/fls");
    assert_eq!(join_path(PathStyle::Unix, "/repo", "/etc/hooks"), "/etc/hooks");
    assert_eq!(join_path(PathStyle::Unix, "", "fls"), "fls");
    let git = Git { root: "/repo".to_owned(), git_dir: "/repo/.git".to_owned() };
    assert_eq!(git.state_path(PathStyle::Unix), "/repo/.git/fls/state.toml");
}

#[test]
fn paths_join_like_windows_paths() {
    let w = PathStyle::Windows;
    assert_eq!(join_path(w, "C:/repo/.git", "fls"), "C:/repo/.git\\fls");
    assert_eq!(join_path(w, "C:\\repo\\", "fls"), "C:\\repo\\fls");
    assert_eq!(join_path(w, "C:/repo", "D:/hooks"), "D:/hooks");
    assert_eq!(join_path(w, "C:/repo", "\\\\server\\share\\hooks"), "\\\\server\\share\\hooks");
    assert_eq!(join_path(w, "C:/repo", "D:hooks"), "D:hooks");
    assert_eq!(join_path(w, "C:/repo", "/hooks"), "C:/hooks");
    assert_eq!(join_path(w, "//server/share/repo", "/hooks"), "//server/share/hooks");
    assert_eq!(join_path(w, "C:", "hooks"), "C:hooks");
    assert_eq!(join_path(PathStyle::Unix, "/repo", "C:/hooks"), "/repo/C:/hooks");
}

#[test]
fn sparse_checkout_is_on_only_for_true() {
    assert!(sparse_enabled(true, b"TRUE\n"));
    assert!(!sparse_enabled(false, b"true"));
    assert!(!sparse_enabled(true, b"false"));
    assert!(!sparse_enabled(true, &[0xff]));
}

#[test]
fn dirtiness_reads_status_records() {
    let git = no_git();
    let d = git.dirtiness(b"", b"! build/out\0");
    assert!(!d.blocking);
    assert!(d.ignored);
    let d = git.dirtiness(b"1 .M N...", b"? new\0");
    assert!(d.blocking);
    assert!(!d.ignored);
}

#[test]
fn hooks_path_is_made_absolute() {
    let git = Git { root: "/repo".to_owned(), git_dir: "/repo/.git".to_owned() };
    let (path, configured) = git.hooks_path(PathStyle::Unix, None, b".git/hooks\n").unwrap();
    assert_eq!(path, "/repo/.git/hooks");
    assert!(!configured);
    let (path, configured) = git.hooks_path(PathStyle::Unix, Some(b"/etc/hooks".to_vec()), b"").unwrap();
    assert_eq!(path, "/etc/hooks");
    assert!(configured);
    let windows = Git { root: "C:/repo".to_owned(), git_dir: "C:/repo/.git".to_owned() };
    let (path, configured) = windows.hooks_path(PathStyle::Windows, Some(b"C:/hooks\n".to_vec()), b"").unwrap();
    assert_eq!(path, "C:/hooks");
    assert!(configured);
    let (path, _) = windows.hooks_path(PathStyle::Windows, None, b".git/hooks").unwrap();
    assert_eq!(path, "C:/repo\\.git/hooks");
}

#[test]
fn sparse_patterns_keep_root_files_metadata_controls_and_projects() {
    let manifest = manifest_of(&[("A", "A"), ("B", "B")], &["third-party"]);
    let git = no_git();
    let files = vec!["README.md".to_owned(), "A/BUCK".to_owned(), "A/src/x.rs".to_owned(), "B/defs.bzl".to_owned()];
    let patterns = git.sparse_patterns(&manifest, &TextMap::new(), &set_of(&["A"]), &files).unwrap();
    assert_eq!(patterns, "/A/\n/A/BUCK\n/B/defs.bzl\n/README.md\n/third-party/\n");
    let e = git.sparse_patterns(&manifest, &TextMap::new(), &set_of(&["Gone"]), &files).unwrap_err();
    assert_eq!(message(&e), "状态中的项目 `Gone` 没有已知路径，无法安全生成稀疏检出规则");
}

// ---------------------------------------------------------------- buck

#[test]
fn query_covers_known_explicit_projects() {
    let manifest = manifest_of(&[("A", "a"), ("B", "b")], &[]);
    assert_eq!(resolve_query(&manifest, &set_of(&["A", "B", "Z"])).unwrap(), "deps(set('//a/...' '//b/...'))");
    assert!(resolve_query(&manifest, &set_of(&["Z"])).is_none());
    assert_eq!(workspace_target("a"), "//a:workspace");
    assert_eq!(
        verify_workspace_target("1.2", "a"),
        vec!["--locked", "exec", "buck2@1.2", "--", "buck2", "uquery", "//a:workspace", "--json", "--console=simple"]
    );
}

#[test]
fn query_answer_is_parsed_as_json() {
    let manifest = manifest_of(&[("A", "a")], &[]);
    let r = resolve(&manifest, br#"["root//a:lib", "root//x:y"]"#).unwrap();
    assert_eq!(members(&r.projects), vec!["A".to_owned()]);
    assert_eq!(members(&r.unknown_root_packages), vec!["x".to_owned()]);
    assert_eq!(r.labels.len(), 2);
    let e = resolve(&manifest, b"not json").unwrap_err();
    assert!(message(&e).starts_with("无法解析 Buck2 uquery 的 JSON 输出: "));
}

// ---------------------------------------------------------------- state

#[test]
fn previous_state_schema_is_migrated_and_newer_is_read_only() {
    let mut old = State::current();
    old.schema_version = 0;
    let loaded = load(Some(old));
    assert!(loaded.mutation_supported);
    assert_eq!(loaded.state.unwrap().schema_version, 1);
    assert_eq!(loaded.warnings.len(), 1);
    let mut newer = State::current();
    newer.schema_version = 7;
    let loaded = load(Some(newer));
    assert!(!loaded.mutation_supported);
    assert_eq!(loaded.warnings[0], "本地 fls 状态 schema 7 比当前支持的 schema 1 新；已禁止修改工作树。");
    assert!(load(None).state.is_none());
}

// ---------------------------------------------------------------- workspace

fn workspace(projects: &[(&str, &str)], explicit: &[&str], resolved: &[&str]) -> Workspace {
    let manifest = manifest_of(projects, &[]);
    let mut state = State::current();
    state.explicit_projects = set_of(explicit);
    state.resolved_projects = set_of(resolved);
    state.resolved_at_head = "abc".to_owned();
    let loaded = load(Some(state));
    Workspace::open(
        Git { root: "/repo".to_owned(), git_dir: "/repo/.git".to_owned() },
        manifest,
        SparseSnapshot { enabled: true, patterns: String::new() },
        loaded,
        Ok("abc".to_owned()),
    )
    .unwrap()
}

#[test]
fn inputs_resolve_without_case_and_unknown_ones_are_refused() {
    let w = workspace(&[("TeraPanel", "TeraPanel")], &["Gone"], &[]);
    assert_eq!(members(&w.resolve_inputs(&vec!["terapanel".to_owned()]).unwrap()), vec!["TeraPanel".to_owned()]);
    let e = w.resolve_inputs(&vec!["nope".to_owned()]).unwrap_err();
    assert_eq!(message(&e), "未知项目 `nope`；可使用 `fls list` 查看项目 ID");
    assert_eq!(members(&w.resolve_removal_inputs(&vec!["gone".to_owned()]).unwrap()), vec!["Gone".to_owned()]);
}

#[test]
fn open_without_state_adopts_full_directories() {
    let manifest = manifest_of(&[("A", "A"), ("B", "B")], &[]);
    let sparse = SparseSnapshot { enabled: true, patterns: "/A/\n/B/BUCK\n".to_owned() };
    let w = Workspace::open(no_git(), manifest, sparse, load(None), Ok("h".to_owned())).unwrap();
    assert_eq!(members(&w.state.explicit_projects), vec!["A".to_owned()]);
    assert_eq!(w.state.resolved_at_head, "h");
    assert!(!w.state_exists());
    let manifest = manifest_of(&[("A", "A")], &[]);
    let e = Workspace::open(no_git(), manifest, SparseSnapshot { enabled: false, patterns: String::new() }, load(None), Err(Error::message("no head")));
    assert_eq!(message(&e.unwrap_err()), "no head");
}

#[test]
fn statuses_are_sorted_without_case_and_list_undeclared_selections() {
    let w = workspace(&[("beta", "beta"), ("Alpha", "Alpha"), ("gamma", "gamma")], &["beta", "Zed"], &["beta", "gamma"]);
    let statuses = w.statuses();
    let ids: Vec<&str> = statuses.iter().map(|s| s.id.as_str()).collect();
    assert_eq!(ids, vec!["Alpha", "beta", "gamma", "Zed"]);
    let kinds: Vec<&str> = statuses.iter().map(|s| s.status.as_str()).collect();
    assert_eq!(kinds, vec!["available", "explicit", "dependency", "unavailable"]);
    assert_eq!(statuses[3].reason.as_deref(), Some("项目仍被显式选择，但当前清单已不再声明它"));
    assert!(statuses[3].path.is_none());
}

#[test]
fn registered_paths_need_tracked_files() {
    let w = workspace(&[("A", "A"), ("B", "B")], &[], &[]);
    assert!(w.validate_registered_paths(&vec!["A/x".to_owned(), "B/y".to_owned()]).is_ok());
    let e = w.validate_registered_paths(&vec!["A/x".to_owned(), "B".to_owned()]).unwrap_err();
    assert_eq!(message(&e), "以下登记项目没有任何被 Git 跟踪的文件：B");
}

#[test]
fn change_kind_keeps_its_name() {
    assert_eq!(fls::output::command_name(ChangeKind::Replace), "Set");
    let request = ChangeRequest { kind: ChangeKind::Add, projects: TextSet::new() };
    assert_eq!(request.kind, ChangeKind::Add);
}

#[test]
fn status_line_pads_fields() {
    let s = ProjectStatus {
        id: "A".to_owned(),
        path: None,
        description: "d".to_owned(),
        status: "explicit".to_owned(),
        reason: Some("r".to_owned()),
    };
    let lines = fls::output::status_lines(&s);
    assert_eq!(lines[0], format!("{:<28} {:<12} {:<28} {}", "A", "explicit", "-", "d"));
    assert_eq!(lines[1], "  原因：r");
}

#[test]
fn dirtiness_is_a_plain_pair() {
    let d = Dirtiness { blocking: false, ignored: true };
    assert!(d.ignored && !d.blocking);
}

#[test]
fn manifests_with_clashing_projects_are_refused() {
    let mut projects = TextMap::new();
    projects.insert("Alpha".to_owned(), ProjectFile { path: "alpha".to_owned(), description: String::new() });
    projects.insert("alpha".to_owned(), ProjectFile { path: "other".to_owned(), description: String::new() });
    let raw = ManifestFile { schema_version: 1, control_paths: Vec::new(), projects };
    assert_eq!(
        message(&Manifest::load(&raw).unwrap_err()),
        "fls-projects.toml 中的项目 ID `alpha` 与另一个 ID 仅大小写不同"
    );
    let mut projects = TextMap::new();
    projects.insert("A".to_owned(), ProjectFile { path: "same".to_owned(), description: String::new() });
    projects.insert("B".to_owned(), ProjectFile { path: "SAME".to_owned(), description: String::new() });
    let raw = ManifestFile { schema_version: 1, control_paths: Vec::new(), projects };
    assert_eq!(message(&Manifest::load(&raw).unwrap_err()), "fls-projects.toml 中的项目路径 `SAME` 重复");
    let raw = ManifestFile { schema_version: 1, control_paths: Vec::new(), projects: TextMap::new() };
    assert_eq!(message(&Manifest::load(&raw).unwrap_err()), "fls-projects.toml 没有声明任何项目");
    let mut projects = TextMap::new();
    projects.insert("A".to_owned(), ProjectFile { path: "a".to_owned(), description: String::new() });
    let raw = ManifestFile { schema_version: 1, control_paths: vec!["A".to_owned()], projects };
    assert_eq!(message(&Manifest::load(&raw).unwrap_err()), "控制路径 `A` 与项目路径重叠");
}

#[test]
fn newer_manifest_schema_forbids_changes() {
    let mut projects = TextMap::new();
    projects.insert("A".to_owned(), ProjectFile { path: "a".to_owned(), description: String::new() });
    let raw = ManifestFile { schema_version: 3, control_paths: Vec::new(), projects };
    let manifest = Manifest::load(&raw).unwrap();
    assert!(!manifest.mutation_supported);
    assert_eq!(manifest.warnings, vec!["fls-projects.toml schema 3 比当前 fls 支持的 schema 1 新；已禁止修改工作树。".to_owned()]);
    assert_eq!(
        message(&manifest.require_mutation_support().unwrap_err()),
        "当前 fls-projects.toml schema 不受此版本 fls 支持；请先更新 fls 或迁移配置"
    );
}

#[test]
fn listing_shows_every_declared_or_selected_project() {
    let w = workspace(&[("A", "A"), ("B", "B")], &["Gone"], &["A"]);
    let ids: Vec<String> = w.statuses().into_iter().map(|s| s.id).collect();
    for id in ["A", "B", "Gone"] {
        assert!(ids.iter().any(|x| x == id));
    }
}

#[test]
fn buck2_pin_is_read_from_mise_toml() {
    assert_eq!(pinned_buck2_version("mise.toml", "[tools]\nbuck2 = \"2025-06-01\"\n").unwrap(), "2025-06-01");
    assert_eq!(pinned_buck2_version("mise.toml", "[tools.buck2]\nversion = \"2025-06-01\"\n").unwrap(), "2025-06-01");
    assert_eq!(message(&pinned_buck2_version("mise.toml", "[tools]\nnode = \"22\"\n").unwrap_err()), "mise.toml 没有固定 Buck2 版本");
    assert_eq!(
        message(&pinned_buck2_version("mise.toml", "[tools]\nbuck2 = 3\n").unwrap_err()),
        "mise.toml 中的 Buck2 版本不是精确字符串"
    );
    let e = pinned_buck2_version("/repo/mise.toml", "[tools\n").unwrap_err();
    assert!(message(&e).starts_with("无法解析 /repo/mise.toml: "));
}

#[test]
fn buck2_pin_is_looked_up_in_the_parsed_document() {
    let text = |s: &str| TomlValue::Text(s.to_owned());
    let table = |entries: Vec<(&str, TomlValue)>| TomlValue::Table(entries.into_iter().map(|(k, v)| (k.to_owned(), v)).collect());
    let doc = table(vec![("tools", table(vec![("buck2", text("2025-06-01")), ("node", text("22"))]))]);
    assert!(matches!(buck2_pin(&doc), Buck2Pin::Text(v) if v == "2025-06-01"));
    let doc = table(vec![("tools", table(vec![("buck2", table(vec![("version", text("1"))]))]))]);
    assert!(matches!(buck2_pin(&doc), Buck2Pin::Other(Some(v)) if v == "1"));
    let doc = table(vec![("tools", table(vec![("buck2", TomlValue::Other)]))]);
    assert!(matches!(buck2_pin(&doc), Buck2Pin::Other(None)));
    assert!(matches!(buck2_pin(&table(vec![("tools", text("x"))])), Buck2Pin::Missing));
    assert!(toml_entry(&text("x"), "tools").is_none());
}
