use fls::applying::{ApplyEvent, ApplyPhase, Progress};
use fls::buck::{empty_resolution, DependencyResolution};
use fls::collections::{TextMap, TextSet};
use fls::git::{Dirtiness, Git, SparseSnapshot};
use fls::manifest::{Manifest, Project, CURRENT_SCHEMA};
use fls::planning::{remove_each, selection_inputs, write_failure, PlanFacts};
use fls::state::{load, State};
use fls::workspace::{ChangeKind, ChangeRequest, Plan, Workspace};
use fls::Error;

fn set_of(items: &[&str]) -> TextSet {
    let mut s = TextSet::new();
    for item in items {
        s.insert(item.to_string());
    }
    s
}

fn members(s: &TextSet) -> Vec<String> {
    s.to_vec()
}

fn workspace(projects: &[&str], explicit: &[&str], resolved: &[&str], retained: &[&str]) -> Workspace {
    let mut map = TextMap::new();
    for id in projects {
        map.insert(id.to_string(), Project { id: id.to_string(), path: id.to_string(), description: String::new() });
    }
    let manifest = Manifest {
        schema_version: CURRENT_SCHEMA,
        projects: map,
        control_paths: Vec::new(),
        warnings: Vec::new(),
        mutation_supported: true,
    };
    let mut state = State::current();
    state.explicit_projects = set_of(explicit);
    state.resolved_projects = set_of(resolved);
    for id in retained {
        state.retained_projects.insert(id.to_string(), "kept".to_owned());
    }
    state.resolved_at_head = "h0".to_owned();
    Workspace::open(
        Git { root: "/repo".to_owned(), git_dir: "/repo/.git".to_owned() },
        manifest,
        SparseSnapshot { enabled: true, patterns: "/A/\n".to_owned() },
        load(Some(state)),
        Ok("h0".to_owned()),
    )
    .unwrap()
}

fn files(projects: &[&str]) -> Vec<String> {
    let mut v = vec!["README.md".to_owned()];
    for p in projects {
        v.push(format!("{p}/BUCK"));
    }
    v
}

fn resolution(projects: &[&str]) -> DependencyResolution {
    let mut r = empty_resolution();
    r.projects = set_of(projects);
    r
}

fn clean() -> Dirtiness {
    Dirtiness { blocking: false, ignored: false }
}

fn facts(projects: &[&str], resolved: &[&str], dirt: TextMap<Result<Dirtiness, Error>>) -> PlanFacts {
    PlanFacts {
        environment: Ok(()),
        files: Ok(files(projects)),
        resolution: Ok(resolution(resolved)),
        targets: Ok(()),
        dirt,
        head: Ok("h1".to_owned()),
    }
}

fn message(e: &Error) -> String {
    e.text()
}

#[test]
fn adding_checks_out_the_resolved_projects() {
    let w = workspace(&["A", "B", "C"], &["A"], &["A"], &[]);
    let request = ChangeRequest { kind: ChangeKind::Add, projects: set_of(&["B"]) };
    let plan = w.plan(&request, facts(&["A", "B", "C"], &["A", "B", "C"], TextMap::new())).unwrap();
    assert_eq!(members(&plan.explicit_projects), vec!["A", "B"]);
    assert_eq!(members(&plan.added_projects), vec!["B", "C"]);
    assert!(plan.removed_projects.is_empty());
    assert_eq!(plan.next_state.resolved_at_head, "h1");
    assert_eq!(plan.expected_head, "h1");
    assert_eq!(plan.sparse_patterns, "/A/\n/A/BUCK\n/B/\n/B/BUCK\n/C/\n/C/BUCK\n/README.md\n");
    assert!(plan.changes_worktree());
    assert!(plan.added_projects.to_vec().iter().all(|id| !plan.removed_projects.contains(id)));
}

#[test]
fn removing_releases_clean_dependencies_and_warns_of_ignored_files() {
    let w = workspace(&["A", "B"], &["A", "B"], &["A", "B"], &[]);
    let mut dirt = TextMap::new();
    dirt.insert("B".to_owned(), Ok(Dirtiness { blocking: false, ignored: true }));
    let request = ChangeRequest { kind: ChangeKind::Remove, projects: set_of(&["B"]) };
    let plan = w.plan(&request, facts(&["A", "B"], &["A"], dirt)).unwrap();
    assert_eq!(members(&plan.removed_projects), vec!["B"]);
    assert!(plan.added_projects.is_empty());
    assert_eq!(plan.warnings, vec!["项目 `B` 中存在被 Git 忽略的输出；稀疏检出不会删除这些文件，目录可能保留。".to_owned()]);
    assert!(!plan.resolved_projects.contains("B"));
}

#[test]
fn removing_a_dirty_project_cancels_unless_reconciling() {
    let w = workspace(&["A", "B"], &["A", "B"], &["A", "B"], &[]);
    let mut dirt = TextMap::new();
    dirt.insert("B".to_owned(), Ok(Dirtiness { blocking: true, ignored: false }));
    let request = ChangeRequest { kind: ChangeKind::Remove, projects: set_of(&["B"]) };
    let e = w.plan(&request, facts(&["A", "B"], &["A"], dirt)).unwrap_err();
    assert_eq!(message(&e), "项目 `B`（B）存在已跟踪、暂存或未跟踪的本地修改；整个操作已取消");

    let w = workspace(&["A", "B"], &["A"], &["A", "B"], &[]);
    let mut dirt = TextMap::new();
    dirt.insert("B".to_owned(), Ok(Dirtiness { blocking: true, ignored: false }));
    let request = ChangeRequest { kind: ChangeKind::Reconcile, projects: TextSet::new() };
    let plan = w.plan(&request, facts(&["A", "B"], &["A"], dirt)).unwrap();
    assert!(plan.removed_projects.is_empty());
    assert_eq!(plan.retained_projects.get("B").unwrap(), "存在已跟踪、暂存或未跟踪的本地修改");
}

#[test]
fn removing_a_dependency_is_refused() {
    let w = workspace(&["A", "B"], &["A"], &["A", "B"], &[]);
    let request = ChangeRequest { kind: ChangeKind::Remove, projects: set_of(&["B"]) };
    let e = w.plan(&request, facts(&["A", "B"], &["A"], TextMap::new())).unwrap_err();
    assert_eq!(message(&e), "项目 `B` 不是显式选择；依赖项目应通过移除其上游项目来释放");
    let e = remove_each(set_of(&["A"]), &set_of(&["A", "C"])).unwrap_err();
    assert_eq!(message(&e), "项目 `C` 不是显式选择；依赖项目应通过移除其上游项目来释放");
}

#[test]
fn replacing_keeps_undeclared_selections() {
    let w = workspace(&["A", "B"], &["A", "Gone"], &["A"], &[]);
    let request = ChangeRequest { kind: ChangeKind::Replace, projects: set_of(&["B"]) };
    let mut dirt = TextMap::new();
    dirt.insert("A".to_owned(), Ok(clean()));
    let plan = w.plan(&request, facts(&["A", "B"], &["B"], dirt)).unwrap_err();
    // the undeclared selection has no known directory, so no rules can be written for it
    assert_eq!(message(&plan), "状态中的项目 `Gone` 没有已知路径，无法安全生成稀疏检出规则");
    let explicit = w.plan_selection(&request, Ok(()), &files(&["A", "B"])).unwrap();
    assert_eq!(members(&explicit), vec!["B", "Gone"]);
}

#[test]
fn refusals_come_in_order() {
    let w = workspace(&["A"], &["A"], &["A"], &[]);
    let request = ChangeRequest { kind: ChangeKind::Add, projects: TextSet::new() };
    let mut f = facts(&["A"], &["A"], TextMap::new());
    f.environment = Err(Error::message("host"));
    assert_eq!(message(&w.plan(&request, f).unwrap_err()), "host");
    let mut f = facts(&["A"], &["A"], TextMap::new());
    f.files = Ok(vec!["README.md".to_owned()]);
    assert_eq!(message(&w.plan(&request, f).unwrap_err()), "以下登记项目没有任何被 Git 跟踪的文件：A");
    let mut f = facts(&["A"], &["A"], TextMap::new());
    let mut r = resolution(&["A"]);
    r.unknown_root_packages = set_of(&["x", "y"]);
    f.resolution = Ok(r);
    assert_eq!(
        message(&w.plan(&request, f).unwrap_err()),
        "Buck2 依赖图引用了未登记的顶层项目：x, y。请先在 fls-projects.toml 中登记完整项目图。"
    );
    let mut f = facts(&["A"], &["A"], TextMap::new());
    f.resolution = Ok(resolution(&["Other"]));
    assert_eq!(message(&w.plan(&request, f).unwrap_err()), "Buck2 解析到了清单外项目 `Other`");
    let mut f = facts(&["A"], &["A"], TextMap::new());
    f.targets = Err(Error::message("no target"));
    assert_eq!(message(&w.plan(&request, f).unwrap_err()), "no target");
    let mut f = facts(&["A"], &["A"], TextMap::new());
    f.head = Err(Error::message("no head"));
    assert_eq!(message(&w.plan(&request, f).unwrap_err()), "no head");
}

#[test]
fn state_of_a_newer_schema_refuses_changes() {
    let mut w = workspace(&["A"], &["A"], &["A"], &[]);
    w.state_mutation_supported = false;
    let request = ChangeRequest { kind: ChangeKind::Add, projects: TextSet::new() };
    let e = w.plan(&request, facts(&["A"], &["A"], TextMap::new())).unwrap_err();
    assert_eq!(message(&e), "当前本地状态 schema 不受此版本 fls 支持；修改工作树已被拒绝");
}

#[test]
fn candidates_are_what_the_resolution_no_longer_reaches() {
    let w = workspace(&["A", "B", "C"], &["A"], &["A", "B"], &["C"]);
    let c = w.removal_candidates(&set_of(&["A"]), &set_of(&["A"]));
    assert_eq!(members(&c), vec!["B", "C"]);
}

fn sample_plan() -> (Workspace, Plan) {
    let w = workspace(&["A", "B"], &["A"], &["A"], &[]);
    let request = ChangeRequest { kind: ChangeKind::Add, projects: set_of(&["B"]) };
    let plan = w.plan(&request, facts(&["A", "B"], &["A", "B"], TextMap::new())).unwrap();
    (w, plan)
}

#[test]
fn applying_walks_through_its_steps() {
    let (w, plan) = sample_plan();
    let app = w.apply(plan);
    assert_eq!(app.phase, ApplyPhase::Lock);
    let app = match app.step(&w, ApplyEvent::Locked(Ok(()))) { Progress::Next(a) => a, _ => panic!("stopped") };
    assert_eq!(app.phase, ApplyPhase::Head);
    let app = match app.step(&w, ApplyEvent::Head(Ok("h1".to_owned()))) { Progress::Next(a) => a, _ => panic!("stopped") };
    assert_eq!(app.phase, ApplyPhase::State);
    let app = match app.step(&w, ApplyEvent::State(Ok(None))) { Progress::Next(a) => a, _ => panic!("stopped") };
    assert_eq!(app.phase, ApplyPhase::Rules);
    let app = match app.step(&w, ApplyEvent::RulesSet(Ok(()))) { Progress::Next(a) => a, _ => panic!("stopped") };
    let app = match app.step(&w, ApplyEvent::Written(Ok(()))) { Progress::Next(a) => a, _ => panic!("stopped") };
    assert_eq!(app.phase, ApplyPhase::Hooks);
    match app.step(&w, ApplyEvent::HooksInstalled(Err(Error::message("denied")))) {
        Progress::Finished(Ok(outcome)) => {
            assert_eq!(outcome.warnings, vec!["工作树已经更新，但安装 Git reconcile hooks 失败：denied".to_owned()]);
        },
        _ => panic!("not finished"),
    }
}

#[test]
fn applying_stops_when_head_or_state_moved() {
    let (w, plan) = sample_plan();
    let app = w.apply(plan);
    let app = match app.step(&w, ApplyEvent::Locked(Ok(()))) { Progress::Next(a) => a, _ => panic!("stopped") };
    match app.step(&w, ApplyEvent::Head(Ok("other".to_owned()))) {
        Progress::Finished(Err(e)) => assert_eq!(message(&e), "计算计划后 HEAD 已改变；为避免应用过期依赖图，本次操作已取消，请重试"),
        _ => panic!("went on"),
    }
    let (w, plan) = sample_plan();
    let app = w.apply(plan);
    let app = match app.step(&w, ApplyEvent::Locked(Ok(()))) { Progress::Next(a) => a, _ => panic!("stopped") };
    let app = match app.step(&w, ApplyEvent::Head(Ok("h1".to_owned()))) { Progress::Next(a) => a, _ => panic!("stopped") };
    let mut changed = State::current();
    changed.resolved_at_head = "zzz".to_owned();
    match app.step(&w, ApplyEvent::State(Ok(Some(changed)))) {
        Progress::Finished(Err(e)) => assert_eq!(message(&e), "计算计划后本地 fls 状态已改变；本次操作已取消，请重试"),
        _ => panic!("went on"),
    }
}

#[test]
fn failed_state_write_restores_rules_then_reports() {
    let (w, plan) = sample_plan();
    let mut app = w.apply(plan);
    for event in [ApplyEvent::Locked(Ok(())), ApplyEvent::Head(Ok("h1".to_owned())), ApplyEvent::State(Ok(None)), ApplyEvent::RulesSet(Ok(()))] {
        app = match app.step(&w, event) { Progress::Next(a) => a, _ => panic!("stopped") };
    }
    let app = match app.step(&w, ApplyEvent::Written(Err(Error::message("disk full")))) { Progress::Next(a) => a, _ => panic!("stopped") };
    assert_eq!(app.phase, ApplyPhase::Restore);
    match app.step(&w, ApplyEvent::Restored(Err(Error::message("git broke")))) {
        Progress::Finished(Err(e)) => assert_eq!(
            message(&e),
            "写入 fls 状态失败，且无法恢复原稀疏检出规则。原错误：disk full；恢复错误：git broke"
        ),
        _ => panic!("went on"),
    }
    assert_eq!(message(&write_failure(Error::message("disk full"), Ok(()))), "disk full");
}

#[test]
fn unreadable_directories_stop_even_a_reconcile() {
    let w = workspace(&["A", "B", "C"], &["A"], &["A", "B", "C"], &[]);
    let mut dirt = TextMap::new();
    dirt.insert("B".to_owned(), Err(Error::message("status failed")));
    dirt.insert("C".to_owned(), Ok(Dirtiness { blocking: true, ignored: false }));
    let request = ChangeRequest { kind: ChangeKind::Reconcile, projects: TextSet::new() };
    let e = w.plan(&request, facts(&["A", "B", "C"], &["A"], dirt)).unwrap_err();
    assert_eq!(message(&e), "status failed");
    let mut dirt = TextMap::new();
    dirt.insert("B".to_owned(), Ok(Dirtiness { blocking: true, ignored: false }));
    dirt.insert("C".to_owned(), Err(Error::message("status failed")));
    let request = ChangeRequest { kind: ChangeKind::Remove, projects: TextSet::new() };
    let e = w.plan(&request, facts(&["A", "B", "C"], &["A"], dirt)).unwrap_err();
    assert_eq!(message(&e), "项目 `B`（B）存在已跟踪、暂存或未跟踪的本地修改；整个操作已取消");
}

#[test]
fn workspace_targets_stop_at_the_first_undeclared_project() {
    let w = workspace(&["A", "C"], &["A"], &["A"], &[]);
    assert_eq!(w.workspace_targets(&resolution(&["A", "C"])), vec!["//A:workspace", "//C:workspace"]);
    assert_eq!(w.workspace_targets(&resolution(&["A", "B", "C"])), vec!["//A:workspace"]);
    let mut r = resolution(&["A"]);
    r.unknown_root_packages = set_of(&["x"]);
    assert!(w.workspace_targets(&r).is_empty());
}

#[test]
fn a_missing_target_before_an_undeclared_project_is_reported_first() {
    let w = workspace(&["A"], &["A"], &["A"], &[]);
    let r = resolution(&["A", "Other"]);
    assert_eq!(message(&w.check_resolution(&r, Err(Error::message("no target"))).unwrap_err()), "no target");
    assert_eq!(message(&w.check_resolution(&r, Ok(())).unwrap_err()), "Buck2 解析到了清单外项目 `Other`");
    assert!(w.check_resolution(&resolution(&["A"]), Ok(())).is_ok());
}

#[test]
fn adding_the_same_projects_twice_selects_the_same() {
    let request = ChangeRequest { kind: ChangeKind::Add, projects: set_of(&["B"]) };
    let w = workspace(&["A", "B"], &["A"], &["A"], &[]);
    let first = w.plan_selection(&request, Ok(()), &files(&["A", "B"])).unwrap();
    assert_eq!(members(&first), vec!["A", "B"]);
    let again = workspace(&["A", "B"], &["A", "B"], &["A", "B"], &[]);
    let second = again.plan_selection(&request, Ok(()), &files(&["A", "B"])).unwrap();
    assert_eq!(members(&second), members(&first));
}

#[test]
fn selection_waits_for_the_environment_then_the_file_listing() {
    let (gate, listed) = selection_inputs(&Err(Error::message("host")), &Err(Error::message("git")));
    assert_eq!(message(&gate.unwrap_err()), "host");
    assert!(listed.is_empty());
    let (gate, listed) = selection_inputs(&Ok(()), &Err(Error::message("git")));
    assert_eq!(message(&gate.unwrap_err()), "git");
    assert!(listed.is_empty());
    let (gate, listed) = selection_inputs(&Ok(()), &Ok(files(&["A"])));
    assert!(gate.is_ok());
    assert_eq!(listed, vec!["README.md", "A/BUCK"]);
}
