use fls::buck::empty_resolution;
use fls::cli::{answer_tokens, choices, doctor_exit_code, reconcile_result, is_confirmation, parse_answer, parse_index, removal_question, ChoiceKind, Cli, Command, OutputArgs};
use fls::collections::{TextMap, TextSet};
use fls::doctor::{normalized_patterns, run, CheckStatus, DoctorFacts, Report};
use fls::git::{Git, SparseSnapshot};
use fls::git::PathStyle;
use fls::hooks::{hook_script, hooks, inspect_hook, inspect_setup, install_decision, install_setup, is_managed, HookSetup, MARKER};
use fls::manifest::{Manifest, Project, CURRENT_SCHEMA};
use fls::metadata::{is_metadata_file, metadata_patterns};
use fls::output::{check_line, choice_line, doctor_verdict, join_set, padded_left, padded_right};
use fls::process::{checked, format_command, Output};
use fls::state::{load, State};
use fls::workspace::{ProjectStatus, Workspace};
use fls::Error;

fn set_of(items: &[&str]) -> TextSet {
    let mut s = TextSet::new();
    for item in items {
        s.insert(item.to_string());
    }
    s
}

fn status(id: &str, status: &str) -> ProjectStatus {
    ProjectStatus { id: id.to_owned(), path: Some(id.to_owned()), description: String::new(), status: status.to_owned(), reason: None }
}

fn message(e: &Error) -> String {
    e.text()
}

// ---------------------------------------------------------------- cli

#[test]
fn json_is_wanted_where_asked() {
    let cli = Cli { command: Command::List(OutputArgs { json: true }) };
    assert!(cli.wants_json());
    let cli = Cli { command: Command::Doctor(OutputArgs { json: false }) };
    assert!(!cli.wants_json());
}

#[test]
fn choices_depend_on_the_command() {
    let all = || vec![status("A", "explicit"), status("B", "dependency"), status("C", "unavailable")];
    let ids = |v: Vec<ProjectStatus>| v.into_iter().map(|s| s.id).collect::<Vec<_>>();
    assert_eq!(ids(choices(all(), ChoiceKind::Add)), vec!["B"]);
    assert_eq!(ids(choices(all(), ChoiceKind::Remove)), vec!["A", "C"]);
    assert_eq!(ids(choices(all(), ChoiceKind::Replace)), vec!["A", "B"]);
}

#[test]
fn answers_select_by_number() {
    let cs = vec![status("A", "explicit"), status("B", "available"), status("C", "available")];
    assert_eq!(parse_answer(&cs, " 1, 3 ", false).unwrap().to_vec(), vec!["A", "C"]);
    assert_eq!(parse_answer(&cs, "ALL", false).unwrap().to_vec(), vec!["A", "B", "C"]);
    assert!(parse_answer(&cs, "  ", false).unwrap().is_empty());
    assert_eq!(parse_answer(&cs, "", true).unwrap().to_vec(), vec!["A"]);
    assert_eq!(parse_answer(&cs, "0 +2", false).unwrap().to_vec(), vec!["A", "B"]);
    assert_eq!(message(&parse_answer(&cs, "1 x", false).unwrap_err()), "无效选择 `x`；请输入列表中的编号");
    assert_eq!(message(&parse_answer(&cs, "4", false).unwrap_err()), "选择 `4` 超出 1..=3 的范围");
    assert_eq!(message(&parse_answer(&cs, "04", false).unwrap_err()), "选择 `4` 超出 1..=3 的范围");
}

#[test]
fn indices_parse_as_unsigned_numbers() {
    assert_eq!(parse_index("42"), Some(42));
    assert_eq!(parse_index("+7"), Some(7));
    assert_eq!(parse_index("-1"), None);
    assert_eq!(parse_index("+"), None);
    assert_eq!(parse_index(""), None);
    assert_eq!(parse_index("99999999999999999999999"), None);
    assert_eq!(answer_tokens("1,,2\t3"), vec!["1", "2", "3"]);
}

#[test]
fn confirmation_needs_yes() {
    assert!(is_confirmation(" Y\n"));
    assert!(is_confirmation("yes"));
    assert!(!is_confirmation("no"));
    assert!(!is_confirmation(""));
    assert_eq!(removal_question(&set_of(&["A", "B"])), "将从工作树移除这些干净项目：A, B。继续？[y/N] ");
}

// ---------------------------------------------------------------- output

#[test]
fn fields_are_padded_like_format() {
    assert_eq!(padded_right("ab", 4), format!("{:<4}", "ab"));
    assert_eq!(padded_right("abcdef", 4), "abcdef");
    assert_eq!(padded_left("7", 2), format!("{:>2}", "7"));
    assert_eq!(join_set(&TextSet::new()), "（无）");
    assert_eq!(join_set(&set_of(&["b", "a"])), "a, b");
    let line = choice_line(3, &status("A", "explicit"), true);
    assert_eq!(line, format!("  {:>2}. [{}] {:<28} {}", 3, "x", "A", ""));
}

// ---------------------------------------------------------------- process

#[test]
fn failed_commands_show_their_output() {
    assert_eq!(format_command("git", &vec!["status".to_owned(), "-z".to_owned()]), "git status -z");
    let out = Output { success: false, status: Some(-3), stdout: b"out".to_vec(), stderr: b"  err\n".to_vec() };
    let e = checked("git x".to_owned(), out).unwrap_err();
    assert_eq!(message(&e), "命令 `git x` 执行失败（退出码 -3）:\nerr");
    let out = Output { success: false, status: None, stdout: vec![0xff], stderr: Vec::new() };
    let e = checked("git x".to_owned(), out).unwrap_err();
    assert_eq!(message(&e), "命令 `git x` 执行失败（退出码 被信号终止）:\n\u{FFFD}");
    let out = Output { success: true, status: Some(0), stdout: b"ok".to_vec(), stderr: Vec::new() };
    assert_eq!(checked("git".to_owned(), out).unwrap().stdout, b"ok".to_vec());
}

// ---------------------------------------------------------------- hooks

#[test]
fn hooks_are_recognised_by_their_marker() {
    assert_eq!(hooks(), vec!["post-checkout", "post-merge", "post-rewrite"]);
    assert!(is_managed(hook_script()));
    assert!(hook_script().contains(MARKER));
    assert_eq!(install_decision("/h/post-merge", Some("#!/bin/sh\necho hi\n")).unwrap(), "未覆盖已有 hook `/h/post-merge`；请在其中调用 `fls reconcile --hook`。");
    assert!(install_decision("/h/post-merge", Some(hook_script())).is_none());
    assert!(install_decision("/h/post-merge", None).is_none());
    assert_eq!(inspect_hook("/h/x", None).unwrap(), "缺少 /h/x；下一次成功执行 fls 修改命令时会尝试安装。");
    assert_eq!(inspect_hook("/h/x", Some("echo")).unwrap(), "/h/x 已存在但不由 fls 管理；请手动接入 `fls reconcile --hook`。");
    assert!(inspect_hook("/h/x", Some(hook_script())).is_none());
}

// ---------------------------------------------------------------- metadata

#[test]
fn metadata_rules_cover_buck_files() {
    assert!(is_metadata_file("a/b/BUCK"));
    assert!(is_metadata_file("defs.bzl"));
    assert!(!is_metadata_file("a/BUCK.md"));
    let files = vec!["x/BUCK".to_owned(), "x/src.rs".to_owned(), "y/rules.bzl".to_owned()];
    assert_eq!(metadata_patterns(&files), "/x/BUCK\n/y/rules.bzl\n");
    assert_eq!(metadata_patterns(&Vec::new()), "\n");
}

// ---------------------------------------------------------------- doctor

fn workspace(state_exists: bool) -> Workspace {
    let mut map = TextMap::new();
    map.insert("A".to_owned(), Project { id: "A".to_owned(), path: "A".to_owned(), description: String::new() });
    let manifest = Manifest { schema_version: CURRENT_SCHEMA, projects: map, control_paths: Vec::new(), warnings: Vec::new(), mutation_supported: true };
    let loaded = if state_exists {
        let mut s = State::current();
        s.explicit_projects = set_of(&["A"]);
        s.resolved_projects = set_of(&["A"]);
        load(Some(s))
    } else {
        load(None)
    };
    Workspace::open(
        Git { root: "/repo".to_owned(), git_dir: "/repo/.git".to_owned() },
        manifest,
        SparseSnapshot { enabled: true, patterns: "/A/\n\n/README.md\n/A/BUCK\n".to_owned() },
        loaded,
        Ok("h".to_owned()),
    )
    .unwrap()
}

fn healthy_facts() -> DoctorFacts {
    let mut resolution = empty_resolution();
    resolution.projects = set_of(&["A"]);
    resolution.labels = vec!["root//A:x".to_owned()];
    DoctorFacts {
        git_version: Ok("git version 2.45".to_owned()),
        host_triple: "x86_64-unknown-linux-gnu".to_owned(),
        buck_version: Ok("buck2 1".to_owned()),
        buck_pin: Ok("2025-05-01".to_owned()),
        files: Ok(vec!["README.md".to_owned(), "A/BUCK".to_owned()]),
        resolution: Ok(resolution),
        missing_targets: TextSet::new(),
        hooks: Ok(Vec::new()),
    }
}

#[test]
fn doctor_passes_a_consistent_worktree() {
    let w = workspace(true);
    let report = run(&w, healthy_facts());
    assert!(report.healthy);
    let names: Vec<&str> = report.checks.iter().map(|c| c.name.as_str()).collect();
    assert_eq!(names, vec!["git", "host-triple", "buck2", "manifest-schema", "project-paths", "dependency-graph", "workspace-targets", "state-schema", "sparse-checkout", "git-hooks"]);
    assert_eq!(report.checks[2].message, "buck2 1（mise 固定 2025-05-01）");
    assert_eq!(report.checks[4].message, "1 个项目路径均由 Git 跟踪");
    assert_eq!(report.checks[5].message, "Buck2 已解析 1 个项目、1 个 targets");
    assert_eq!(check_line(&report.checks[0]), format!("[PASS] {:<20} {}", "git", "git version 2.45"));
    assert_eq!(doctor_verdict(&report), "doctor 检查通过。");
}

#[test]
fn doctor_fails_on_failed_checks_and_warns_without_state() {
    let w = workspace(false);
    let mut facts = healthy_facts();
    facts.missing_targets = set_of(&["A"]);
    facts.hooks = Ok(vec!["缺少 x".to_owned(), "缺少 y".to_owned()]);
    let report = run(&w, facts);
    assert!(!report.healthy);
    assert_eq!(report.checks[6].status, CheckStatus::Fail);
    assert_eq!(report.checks[6].message, "缺少可查询的 :workspace target：A");
    assert_eq!(report.checks[7].status, CheckStatus::Warning);
    assert_eq!(report.checks[9].status, CheckStatus::Warning);
    assert_eq!(report.checks[9].message, "缺少 x 缺少 y");
    assert_eq!(doctor_verdict(&report), "doctor 检查未通过；修改命令可能拒绝服务。");
}

#[test]
fn report_health_follows_its_checks() {
    let mut r = Report::new();
    r.push("a", CheckStatus::Warning, "w".to_owned());
    assert!(r.healthy);
    r.push("b", CheckStatus::Fail, "f".to_owned());
    r.push("c", CheckStatus::Pass, "p".to_owned());
    assert!(!r.healthy);
    assert_eq!(r.checks.len(), 3);
}

#[test]
fn pattern_lines_ignore_blank_lines_and_spaces() {
    let a = normalized_patterns("/A/\n  /B/  \n\n");
    let b = normalized_patterns("/B/\r\n/A/");
    assert!(a.same_members(&b));
    assert_eq!(a.to_vec(), vec!["/A/", "/B/"]);
}

#[test]
fn doctor_exits_with_one_when_unhealthy() {
    let mut r = Report::new();
    r.push("a", CheckStatus::Warning, "w".to_owned());
    assert_eq!(doctor_exit_code(&r), 0);
    r.push("b", CheckStatus::Fail, "f".to_owned());
    assert_eq!(doctor_exit_code(&r), 1);
}

#[test]
fn a_failed_reconcile_from_the_hook_only_warns() {
    let (r, w) = reconcile_result(true, Err(Error::message("boom")));
    assert_eq!(r.unwrap(), 0);
    assert_eq!(w.unwrap(), "fls reconcile hook 警告：boom");
    let (r, w) = reconcile_result(false, Err(Error::message("boom")));
    assert_eq!(r.unwrap_err().text(), "boom");
    assert!(w.is_none());
    let (r, w) = reconcile_result(true, Ok(0));
    assert_eq!(r.unwrap(), 0);
    assert!(w.is_none());
}

#[test]
fn a_custom_hooks_path_is_left_alone_with_one_warning() {
    match install_setup(PathStyle::Unix, "/etc/hooks", true) {
        HookSetup::Custom(w) => assert_eq!(
            w,
            "检测到自定义 core.hooksPath（/etc/hooks）；fls 不会写入或覆盖自定义 hooks，请自行调用 `fls reconcile --hook`。"
        ),
        HookSetup::Hooks(..) => panic!("custom hooks must not be written"),
    }
    match inspect_setup(PathStyle::Unix, "/etc/hooks", true) {
        HookSetup::Custom(w) => assert_eq!(w, "自定义 core.hooksPath 为 /etc/hooks，fls 无法确认 reconcile hook 已接入。"),
        HookSetup::Hooks(..) => panic!("custom hooks must not be inspected"),
    }
    match install_setup(PathStyle::Unix, "/repo/.git/hooks", false) {
        HookSetup::Hooks(dir, paths) => {
            assert_eq!(dir, "/repo/.git/hooks");
            assert_eq!(
                paths,
                vec!["/repo/.git/hooks/post-checkout", "/repo/.git/hooks/post-merge", "/repo/.git/hooks/post-rewrite"]
            );
        }
        HookSetup::Custom(_) => panic!("the default hooks directory is installed into"),
    }
}
