//! `fls doctor`: each check of the worktree and its tools, and whether all passed.
use vstd::prelude::*;

use crate::buck::DependencyResolution;
use crate::collections::TextSet;
use crate::environment::{buck2_check, ensure_buck2_version, ensure_supported_host, host_check};
use crate::error::{error_text, string_result_view, Error, ErrorView};
use crate::text::{concat2, concat3, decimal, decimal_text, join, joined, owned, split_on, trimmed, views};
use crate::metadata::expected_rules;
use crate::workspace::{unregistered_paths, Workspace};

verus! {

/// How a check came out.
#[derive(Clone, Copy, Debug, PartialEq, Eq, Structural)]
pub enum CheckStatus {
    Pass,
    Warning,
    Fail,
}

/// One check: its name, how it came out and what it found.
#[derive(Debug)]
pub struct Check {
    pub name: String,
    pub status: CheckStatus,
    pub message: String,
}

/// All checks, and whether none failed.
#[derive(Debug)]
pub struct Report {
    pub healthy: bool,
    pub checks: Vec<Check>,
}

/// The texts of a check.
pub struct CheckView {
    pub name: Seq<char>,
    pub status: CheckStatus,
    pub message: Seq<char>,
}

pub open spec fn check_view(c: Check) -> CheckView {
    CheckView { name: c.name@, status: c.status, message: c.message@ }
}

pub open spec fn checks_view(v: Seq<Check>) -> Seq<CheckView> {
    v.map_values(|c: Check| check_view(c))
}

/// No check of `v` failed.
pub open spec fn none_failed(v: Seq<CheckView>) -> bool {
    forall|i: int| 0 <= i < v.len() ==> #[trigger] v[i].status != CheckStatus::Fail
}

impl Report {
    /// A report is healthy exactly when none of its checks failed.
    pub open spec fn wf(&self) -> bool {
        self.healthy == none_failed(checks_view(self.checks@))
    }

    /// A report with no checks yet.
    pub fn new() -> (r: Report)
        ensures
            r.wf(),
            r.healthy,
            r.checks@.len() == 0,
    {
        Report { healthy: true, checks: Vec::new() }
    }

    /// Adds a check; a failed one makes the report unhealthy.
    pub fn push(&mut self, name: &str, status: CheckStatus, message: String)
        ensures
            checks_view(final(self).checks@) == checks_view(old(self).checks@).push(
                CheckView { name: name@, status, message: message@ }),
            final(self).healthy == (old(self).healthy && status != CheckStatus::Fail),
            old(self).wf() ==> final(self).wf(),
    {
        self.add(Check { name: owned(name), status, message });
    }

    /// Adds a check; a failed one makes the report unhealthy.
    pub fn add(&mut self, c: Check)
        ensures
            checks_view(final(self).checks@) == checks_view(old(self).checks@).push(check_view(c)),
            final(self).healthy == (old(self).healthy && c.status != CheckStatus::Fail),
            old(self).wf() ==> final(self).wf(),
    {
        proof {
            if old(self).wf() {
                report_health_follows_checks(checks_view(self.checks@), check_view(c), self.healthy);
            }
        }
        if c.status == CheckStatus::Fail {
            self.healthy = false;
        }
        let ghost before = self.checks@;
        let ghost cv = check_view(c);
        self.checks.push(c);
        assert(checks_view(self.checks@) =~= checks_view(before).push(cv));
    }
}

/// Adding checks keeps a report's health the conjunction of its checks.
pub proof fn report_health_follows_checks(r: Seq<CheckView>, c: CheckView, healthy: bool)
    requires
        healthy == none_failed(r),
    ensures
        (healthy && c.status != CheckStatus::Fail) == none_failed(r.push(c)),
{
    if !(healthy && c.status != CheckStatus::Fail) && none_failed(r.push(c)) {
        if !healthy {
            let i = choose|i: int| 0 <= i < r.len() && #[trigger] r[i].status == CheckStatus::Fail;
            assert(r.push(c)[i] == r[i]);
        } else {
            assert(r.push(c)[r.len() as int] == c);
        }
    }
}

/// What was read of the tools and the worktree for the checks.
#[derive(Debug)]
pub struct DoctorFacts {
    /// What `git --version` gave.
    pub git_version: Result<String, Error>,
    /// The host triple this program runs on.
    pub host_triple: String,
    /// What the locked Buck2 reported as its version.
    pub buck_version: Result<String, Error>,
    /// The Buck2 version that `mise.toml` pins.
    pub buck_pin: Result<String, Error>,
    /// The tracked files.
    pub files: Result<Vec<String>, Error>,
    /// The dependency query over every project.
    pub resolution: Result<DependencyResolution, Error>,
    /// The projects whose `:workspace` target Buck2 could not query.
    pub missing_targets: TextSet,
    /// What inspecting the Git hooks found wanting.
    pub hooks: Result<Vec<String>, Error>,
}

/// The check of a result: passed with its text, or failed with the error's.
pub open spec fn result_check(name: Seq<char>, r: Result<Seq<char>, ErrorView>) -> CheckView {
    match r {
        Ok(m) => CheckView { name, status: CheckStatus::Pass, message: m },
        Err(e) => CheckView { name, status: CheckStatus::Fail, message: error_text(e) },
    }
}

/// The Buck2 check: its version and the pin, as `<actual>（mise 固定 <pin>）`.
pub open spec fn buck2_outcome(version: Result<Seq<char>, ErrorView>, pin: Result<Seq<char>, ErrorView>) -> Result<Seq<char>, ErrorView> {
    match version {
        Err(e) => Err(e),
        Ok(actual) => match buck2_check(pin, actual) {
            Err(e) => Err(e),
            Ok(expected) => Ok(actual + "（mise 固定 "@ + expected + "）"@),
        },
    }
}

/// The check of the manifest's schema.
pub open spec fn manifest_schema_check(w: &Workspace) -> CheckView {
    if w.manifest.schema_version == crate::manifest::CURRENT_SCHEMA {
        CheckView { name: "manifest-schema"@, status: CheckStatus::Pass, message: "schema "@ + decimal(crate::manifest::CURRENT_SCHEMA as nat) }
    } else {
        CheckView {
            name: "manifest-schema"@,
            status: CheckStatus::Fail,
            message: if w.manifest.warnings@.len() > 0 { w.manifest.warnings@[0]@ } else { "清单 schema 不受支持"@ },
        }
    }
}

/// The check that every registered project has tracked files.
pub open spec fn project_paths_check(w: &Workspace, files: Result<Seq<Seq<char>>, ErrorView>) -> CheckView {
    match files {
        Err(e) => CheckView { name: "project-paths"@, status: CheckStatus::Fail, message: error_text(e) },
        Ok(f) => if unregistered_paths(w, f).len() == 0 {
            CheckView {
                name: "project-paths"@,
                status: CheckStatus::Pass,
                message: decimal(w.manifest.projects@.len()) + " 个项目路径均由 Git 跟踪"@,
            }
        } else {
            CheckView {
                name: "project-paths"@,
                status: CheckStatus::Fail,
                message: "以下登记项目没有任何被 Git 跟踪的文件："@ + joined(unregistered_paths(w, f), ", "@),
            }
        },
    }
}

/// The texts of a resolution: projects and unknown packages in order, and the number of labels.
pub struct ResolutionView {
    pub projects: Seq<Seq<char>>,
    pub unknown: Seq<Seq<char>>,
    pub labels: nat,
}

pub open spec fn resolution_view(r: &Result<DependencyResolution, Error>) -> Result<ResolutionView, ErrorView> {
    match r {
        Ok(d) => Ok(ResolutionView {
            projects: d.projects.elems(),
            unknown: d.unknown_root_packages.elems(),
            labels: d.labels@.len(),
        }),
        Err(e) => Err(e@),
    }
}

/// The check of the whole dependency graph.
pub open spec fn graph_check(r: Result<ResolutionView, ErrorView>) -> CheckView {
    match r {
        Err(e) => CheckView { name: "dependency-graph"@, status: CheckStatus::Fail, message: error_text(e) },
        Ok(d) => if d.unknown.len() == 0 {
            CheckView {
                name: "dependency-graph"@,
                status: CheckStatus::Pass,
                message: "Buck2 已解析 "@ + decimal(d.projects.len()) + " 个项目、"@ + decimal(d.labels) + " 个 targets"@,
            }
        } else {
            CheckView {
                name: "dependency-graph"@,
                status: CheckStatus::Fail,
                message: "依赖图引用未登记的顶层路径："@ + joined(d.unknown, ", "@),
            }
        },
    }
}

/// The check that every project has a `:workspace` target.
pub open spec fn targets_check(missing: Seq<Seq<char>>) -> CheckView {
    if missing.len() == 0 {
        CheckView { name: "workspace-targets"@, status: CheckStatus::Pass, message: "所有项目都提供 :workspace 边界 target"@ }
    } else {
        CheckView {
            name: "workspace-targets"@,
            status: CheckStatus::Fail,
            message: "缺少可查询的 :workspace target："@ + joined(missing, ", "@),
        }
    }
}

/// The non-empty, trimmed lines of a rules file, as a set.
pub open spec fn pattern_lines(s: Seq<char>) -> Set<Seq<char>> {
    split_on(s, '\n').map_values(|l: Seq<char>| trimmed(l)).filter(|l: Seq<char>| l.len() > 0).to_set()
}

/// The checks of the local state and the sparse-checkout rules.
pub open spec fn state_checks(w: &Workspace, expected: Result<Seq<char>, ErrorView>) -> Seq<CheckView> {
    if w.state_exists {
        let schema = if w.state_mutation_supported {
            CheckView { name: "state-schema"@, status: CheckStatus::Pass, message: "schema "@ + decimal(w.state.schema_version as nat) }
        } else {
            CheckView {
                name: "state-schema"@,
                status: CheckStatus::Fail,
                message: "本地状态 schema "@ + decimal(w.state.schema_version as nat) + " 不受当前 fls 支持"@,
            }
        };
        let sparse = match expected {
            Err(e) => CheckView { name: "sparse-checkout"@, status: CheckStatus::Fail, message: error_text(e) },
            Ok(p) => if w.sparse.enabled && pattern_lines(p) == pattern_lines(w.sparse.patterns@) {
                CheckView { name: "sparse-checkout"@, status: CheckStatus::Pass, message: "稀疏检出规则与 fls 状态一致"@ }
            } else {
                CheckView {
                    name: "sparse-checkout"@,
                    status: CheckStatus::Fail,
                    message: "稀疏检出规则与 fls 状态不一致；请运行 `fls reconcile`"@,
                }
            },
        };
        seq![schema, sparse]
    } else {
        seq![
            CheckView { name: "state-schema"@, status: CheckStatus::Warning, message: "当前工作树尚未创建本地 fls 状态"@ },
            CheckView {
                name: "sparse-checkout"@,
                status: CheckStatus::Warning,
                message: "当前工作树尚未写入 fls 状态；第一次修改命令会采用现有检出内容"@,
            },
        ]
    }
}

/// The check of the Git hooks.
pub open spec fn hooks_check(r: Result<Seq<Seq<char>>, ErrorView>) -> CheckView {
    match r {
        Err(e) => CheckView { name: "git-hooks"@, status: CheckStatus::Warning, message: error_text(e) },
        Ok(ws) => if ws.len() == 0 {
            CheckView { name: "git-hooks"@, status: CheckStatus::Pass, message: "post-checkout、post-merge、post-rewrite hooks 已接入"@ }
        } else {
            CheckView { name: "git-hooks"@, status: CheckStatus::Warning, message: joined(ws, " "@) }
        },
    }
}

/// One compatibility warning per warning of the workspace.
pub open spec fn compatibility_checks(ws: Seq<Seq<char>>) -> Seq<CheckView> {
    ws.map_values(|m: Seq<char>| CheckView { name: "compatibility"@, status: CheckStatus::Warning, message: m })
}

pub open spec fn list_result_view(r: &Result<Vec<String>, Error>) -> Result<Seq<Seq<char>>, ErrorView> {
    match r {
        Ok(v) => Ok(views(v@)),
        Err(e) => Err(e@),
    }
}


/// The expected rules, once the tracked files could be listed.
pub open spec fn expected_after_listing(w: &Workspace, files: Result<Seq<Seq<char>>, ErrorView>) -> Result<Seq<char>, ErrorView> {
    match files {
        Err(e) => Err(e),
        Ok(f) => expected_rules(w, f),
    }
}

/// Every check, in the order they are made.
pub open spec fn doctor_checks(w: &Workspace, f: &DoctorFacts) -> Seq<CheckView> {
    seq![
        result_check("git"@, string_result_view(&f.git_version)),
        result_check("host-triple"@, host_check(f.host_triple@)),
        result_check("buck2"@, buck2_outcome(string_result_view(&f.buck_version), string_result_view(&f.buck_pin))),
        manifest_schema_check(w),
        project_paths_check(w, list_result_view(&f.files)),
        graph_check(resolution_view(&f.resolution)),
        targets_check(f.missing_targets.elems()),
    ] + state_checks(w, expected_after_listing(w, list_result_view(&f.files)))
        + seq![hooks_check(list_result_view(&f.hooks))] + compatibility_checks(views(w.warnings@))
}

/// The non-empty, trimmed lines of a rules file.
pub fn normalized_patterns(patterns: &str) -> (r: TextSet)
    ensures
        r.wf(),
        r@ == pattern_lines(patterns@),
{
    let v = crate::text::chars_of(patterns);
    let lines = crate::text::split_chars(&v, '\n');
    let ghost ls = split_on(patterns@, '\n');
    let ghost f = |l: Seq<char>| trimmed(l);
    let ghost keep = |l: Seq<char>| l.len() > 0;
    let mut r = TextSet::new();
    let mut i: usize = 0;
    while i < lines.len()
        invariant
            r.wf(),
            lines@.map_values(|p: Vec<char>| p@) == ls,
            i <= lines.len(),
            f == (|l: Seq<char>| trimmed(l)),
            keep == (|l: Seq<char>| l.len() > 0),
            r@ == ls.take(i as int).map_values(f).filter(keep).to_set(),
        decreases lines.len() - i,
    {
        let line = crate::text::string_from_chars(&lines[i]);
        let t = crate::text::trim(line.as_str());
        proof {
            assert(ls[i as int] == lines@[i as int]@);
            assert(ls.take(i + 1).map_values(f) =~= ls.take(i as int).map_values(f).push(trimmed(ls[i as int])));
            ls.take(i as int).map_values(f).lemma_filter_push(trimmed(ls[i as int]), keep);
        }
        let ghost tv = t@;
        let ghost old_f = ls.take(i as int).map_values(f).filter(keep);
        assert(tv == trimmed(ls[i as int]));
        if !t.as_str().is_empty() {
            r.insert(t);
            proof {
                broadcast use Seq::lemma_push_to_set_commute;
                assert(ls.take(i + 1).map_values(f).filter(keep) == old_f.push(tv));
                assert(r@ =~= old_f.push(tv).to_set());
            }
        } else {
            assert(ls.take(i + 1).map_values(f).filter(keep) == old_f);
        }
        i = i + 1;
    }
    assert(ls.take(i as int) =~= ls);
    r
}

fn make_check(name: &str, status: CheckStatus, message: String) -> (c: Check)
    ensures
        check_view(c) == (CheckView { name: name@, status, message: message@ }),
{
    Check { name: owned(name), status, message }
}

/// The check of a result: passed with its text, or failed with the error's.
fn check_of(name: &str, r: Result<String, Error>) -> (c: Check)
    ensures
        check_view(c) == result_check(name@, string_result_view(&r)),
{
    match r {
        Ok(m) => make_check(name, CheckStatus::Pass, m),
        Err(e) => make_check(name, CheckStatus::Fail, e.text()),
    }
}

fn buck2_result(version: Result<String, Error>, pin: Result<String, Error>) -> (r: Result<String, Error>)
    ensures
        string_result_view(&r) == buck2_outcome(string_result_view(&version), string_result_view(&pin)),
{
    match version {
        Err(e) => Err(e),
        Ok(actual) => match ensure_buck2_version(pin, actual.as_str()) {
            Err(e) => Err(e),
            Ok(expected) => {
                let mut m = concat3(actual.as_str(), "（mise 固定 ", expected.as_str());
                m.append("）");
                Ok(m)
            },
        },
    }
}

fn manifest_schema(w: &Workspace) -> (c: Check)
    ensures
        check_view(c) == manifest_schema_check(w),
{
    if w.manifest.schema_version == crate::manifest::CURRENT_SCHEMA {
        make_check("manifest-schema", CheckStatus::Pass, concat2("schema ", decimal_text(crate::manifest::CURRENT_SCHEMA as u64).as_str()))
    } else {
        let m = if w.manifest.warnings.len() > 0 {
            w.manifest.warnings[0].clone()
        } else {
            owned("清单 schema 不受支持")
        };
        make_check("manifest-schema", CheckStatus::Fail, m)
    }
}

fn project_paths(w: &Workspace, files: &Result<Vec<String>, Error>) -> (c: Check)
    requires
        w.wf(),
    ensures
        check_view(c) == project_paths_check(w, list_result_view(files)),
{
    match files {
        Err(e) => make_check("project-paths", CheckStatus::Fail, e.text()),
        Ok(f) => match w.validate_registered_paths(f) {
            Ok(()) => {
                let n = w.manifest.projects.len();
                make_check("project-paths", CheckStatus::Pass, concat2(decimal_text(n as u64).as_str(), " 个项目路径均由 Git 跟踪"))
            },
            Err(e) => make_check("project-paths", CheckStatus::Fail, e.text()),
        },
    }
}

fn graph(r: &Result<DependencyResolution, Error>) -> (c: Check)
    requires
        r matches Ok(d) ==> d.projects.wf() && d.unknown_root_packages.wf(),
    ensures
        check_view(c) == graph_check(resolution_view(r)),
{
    match r {
        Err(e) => make_check("dependency-graph", CheckStatus::Fail, e.text()),
        Ok(d) => {
            if d.unknown_root_packages.is_empty() {
                let mut m = concat3("Buck2 已解析 ", decimal_text(d.projects.len() as u64).as_str(), " 个项目、");
                m.append(decimal_text(d.labels.len() as u64).as_str());
                m.append(" 个 targets");
                make_check("dependency-graph", CheckStatus::Pass, m)
            } else {
                let list = join(&d.unknown_root_packages.to_vec(), ", ");
                make_check("dependency-graph", CheckStatus::Fail, concat2("依赖图引用未登记的顶层路径：", list.as_str()))
            }
        },
    }
}

fn targets(missing: &TextSet) -> (c: Check)
    requires
        missing.wf(),
    ensures
        check_view(c) == targets_check(missing.elems()),
{
    if missing.is_empty() {
        make_check("workspace-targets", CheckStatus::Pass, owned("所有项目都提供 :workspace 边界 target"))
    } else {
        let list = join(&missing.to_vec(), ", ");
        make_check("workspace-targets", CheckStatus::Fail, concat2("缺少可查询的 :workspace target：", list.as_str()))
    }
}

fn expected_after(w: &Workspace, files: &Result<Vec<String>, Error>) -> (r: Result<String, Error>)
    requires
        w.wf(),
    ensures
        string_result_view(&r) == expected_after_listing(w, list_result_view(files)),
{
    match files {
        Err(e) => Err(e.duplicate()),
        Ok(f) => w.expected_sparse_patterns(f),
    }
}

fn state_pair(w: &Workspace, expected: Result<String, Error>) -> (r: (Check, Check))
    ensures
        seq![check_view(r.0), check_view(r.1)] == state_checks(w, string_result_view(&expected)),
{
    if w.state_exists {
        let v = decimal_text(w.state.schema_version as u64);
        let schema = if w.state_mutation_supported {
            make_check("state-schema", CheckStatus::Pass, concat2("schema ", v.as_str()))
        } else {
            make_check("state-schema", CheckStatus::Fail, concat3("本地状态 schema ", v.as_str(), " 不受当前 fls 支持"))
        };
        let sparse = match expected {
            Err(e) => make_check("sparse-checkout", CheckStatus::Fail, e.text()),
            Ok(p) => {
                let same = w.sparse.enabled
                    && normalized_patterns(p.as_str()).same_members(&normalized_patterns(w.sparse.patterns.as_str()));
                if same {
                    make_check("sparse-checkout", CheckStatus::Pass, owned("稀疏检出规则与 fls 状态一致"))
                } else {
                    make_check("sparse-checkout", CheckStatus::Fail, owned("稀疏检出规则与 fls 状态不一致；请运行 `fls reconcile`"))
                }
            },
        };
        (schema, sparse)
    } else {
        (
            make_check("state-schema", CheckStatus::Warning, owned("当前工作树尚未创建本地 fls 状态")),
            make_check("sparse-checkout", CheckStatus::Warning, owned("当前工作树尚未写入 fls 状态；第一次修改命令会采用现有检出内容")),
        )
    }
}

fn hooks(r: &Result<Vec<String>, Error>) -> (c: Check)
    ensures
        check_view(c) == hooks_check(list_result_view(r)),
{
    match r {
        Err(e) => make_check("git-hooks", CheckStatus::Warning, e.text()),
        Ok(ws) => {
            if ws.len() == 0 {
                make_check("git-hooks", CheckStatus::Pass, owned("post-checkout、post-merge、post-rewrite hooks 已接入"))
            } else {
                make_check("git-hooks", CheckStatus::Warning, join(ws, " "))
            }
        },
    }
}

/// Runs every check on what was read.
pub fn run(workspace: &Workspace, facts: DoctorFacts) -> (r: Report)
    requires
        workspace.wf(),
        facts.missing_targets.wf(),
        facts.resolution matches Ok(d) ==> d.projects.wf() && d.unknown_root_packages.wf(),
    ensures
        r.wf(),
        checks_view(r.checks@) == doctor_checks(workspace, &facts),
        r.healthy == none_failed(doctor_checks(workspace, &facts)),
{
    let ghost f0 = facts;
    let c1 = check_of("git", facts.git_version);
    let c2 = check_of("host-triple", ensure_supported_host(facts.host_triple.as_str()));
    let c3 = check_of("buck2", buck2_result(facts.buck_version, facts.buck_pin));
    let c4 = manifest_schema(workspace);
    let c5 = project_paths(workspace, &facts.files);
    let c6 = graph(&facts.resolution);
    let c7 = targets(&facts.missing_targets);
    let (c8, c9) = state_pair(workspace, expected_after(workspace, &facts.files));
    let c10 = hooks(&facts.hooks);
    let ghost head = seq![check_view(c1), check_view(c2), check_view(c3), check_view(c4), check_view(c5),
        check_view(c6), check_view(c7), check_view(c8), check_view(c9), check_view(c10)];
    let mut report = Report::new();
    assert(checks_view(report.checks@) =~= Seq::<CheckView>::empty());
    report.add(c1);
    report.add(c2);
    report.add(c3);
    report.add(c4);
    report.add(c5);
    report.add(c6);
    report.add(c7);
    report.add(c8);
    report.add(c9);
    report.add(c10);
    assert(checks_view(report.checks@) =~= head);
    let mut i: usize = 0;
    while i < workspace.warnings.len()
        invariant
            i <= workspace.warnings.len(),
            report.wf(),
            checks_view(report.checks@) == head + compatibility_checks(views(workspace.warnings@).take(i as int)),
        decreases workspace.warnings.len() - i,
    {
        report.push("compatibility", CheckStatus::Warning, workspace.warnings[i].clone());
        proof {
            assert(views(workspace.warnings@).take(i + 1) =~= views(workspace.warnings@).take(i as int).push(workspace.warnings@[i as int]@));
            assert(compatibility_checks(views(workspace.warnings@).take(i + 1)) =~= compatibility_checks(views(workspace.warnings@).take(i as int)).push(
                CheckView { name: "compatibility"@, status: CheckStatus::Warning, message: workspace.warnings@[i as int]@ }));
        }
        i = i + 1;
    }
    assert(views(workspace.warnings@).take(i as int) =~= views(workspace.warnings@));
    assert(checks_view(report.checks@) =~= doctor_checks(workspace, &f0));
    report
}


/// The dependency-graph check passes only when Buck2 resolved the graph and it reaches no
/// unregistered top-level directory; otherwise it fails, naming those directories when
/// there are some, and so the whole report is unhealthy (doctor exits with 1).
pub proof fn graph_fails_on_unregistered_packages(w: &Workspace, f: &DoctorFacts)
    ensures
        doctor_checks(w, f)[5].name == "dependency-graph"@,
        doctor_checks(w, f)[5].status == CheckStatus::Pass <==> (f.resolution matches Ok(d)
            && d.unknown_root_packages.elems().len() == 0),
        doctor_checks(w, f)[5].status != CheckStatus::Pass ==> doctor_checks(w, f)[5].status == CheckStatus::Fail,
        f.resolution matches Ok(d) ==> (d.unknown_root_packages.elems().len() > 0
            ==> doctor_checks(w, f)[5].message
                == "依赖图引用未登记的顶层路径："@ + joined(d.unknown_root_packages.elems(), ", "@)),
        !(f.resolution matches Ok(d) && d.unknown_root_packages.elems().len() == 0)
            ==> !none_failed(doctor_checks(w, f)),
{
    let c = doctor_checks(w, f);
    assert(c[5] == graph_check(resolution_view(&f.resolution)));
}

}
