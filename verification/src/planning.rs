//! Planning a change of the selection. What needs the outside world (the host, the tools'
//! versions, the dependency query, the state of each directory, `HEAD`) is read by the
//! caller between the steps; each step decides from what was read.
use vstd::prelude::*;

use crate::buck::{workspace_target, DependencyResolution};
use crate::collections::{TextMap, TextSet};
use crate::error::{message3, string_result_view, Error, ErrorView};
use crate::git::{project_dir, Dirtiness};
use crate::order::strictly_sorted;
use crate::git::{pattern_set, unknown_dir_error, SparseSnapshot};
use crate::state::{State, CURRENT_SCHEMA};
use crate::error::error_text;
use crate::workspace::{manifest_paths, unregistered_paths, ApplyOutcome, ChangeKind, ChangeRequest, Plan, Workspace};
use crate::text::{concat2, concat3, concat5, copy_texts, join, joined, owned, views};

verus! {

/// The explicit selection that a request asks for.
pub open spec fn selection_after(w: &Workspace, kind: ChangeKind, projects: Set<Seq<char>>) -> Set<Seq<char>> {
    match kind {
        ChangeKind::Add => w.state.explicit_projects@.union(projects),
        ChangeKind::Remove => w.state.explicit_projects@.difference(projects),
        ChangeKind::Replace => projects.union(undeclared(w, w.state.explicit_projects@)),
        ChangeKind::Reconcile => w.state.explicit_projects@,
    }
}

/// The members of `explicit` that the manifest does not declare.
pub open spec fn undeclared(w: &Workspace, explicit: Set<Seq<char>>) -> Set<Seq<char>> {
    explicit.filter(|id: Seq<char>| !w.manifest.projects@.contains_key(id))
}

/// `s[i]` is the first member of `s` outside `set`.
pub open spec fn first_outside_at(s: Seq<Seq<char>>, set: Set<Seq<char>>, i: int) -> bool {
    &&& 0 <= i < s.len()
    &&& !set.contains(s[i])
    &&& forall|j: int| 0 <= j < i ==> set.contains(#[trigger] s[j])
}

/// The first member of `s` outside `set`, if any.
pub open spec fn first_outside(s: Seq<Seq<char>>, set: Set<Seq<char>>) -> Option<Seq<char>> {
    if exists|i: int| first_outside_at(s, set, i) {
        Some(s[choose|i: int| first_outside_at(s, set, i)])
    } else {
        None
    }
}

pub proof fn lemma_first_outside(s: Seq<Seq<char>>, set: Set<Seq<char>>, i: int)
    requires
        first_outside_at(s, set, i),
    ensures
        first_outside(s, set) == Some(s[i]),
{
    let k = choose|k: int| first_outside_at(s, set, k);
    if k < i {
        assert(set.contains(s[k]));
    } else if i < k {
        assert(set.contains(s[i]));
    }
}

/// The refusal of removing a project that is not explicitly selected.
pub open spec fn not_explicit_error(id: Seq<char>) -> ErrorView {
    ErrorView::Message("项目 `"@ + id + "` 不是显式选择；依赖项目应通过移除其上游项目来释放"@)
}

/// What the first planning step answers: the checks in the order they are made, then the
/// new explicit selection.
pub open spec fn selection_result(
    w: &Workspace,
    request: &ChangeRequest,
    environment: Result<(), ErrorView>,
    files: Seq<Seq<char>>,
) -> Result<Set<Seq<char>>, ErrorView> {
    if !w.manifest.mutation_supported {
        Err(ErrorView::Message("当前 fls-projects.toml schema 不受此版本 fls 支持；请先更新 fls 或迁移配置"@))
    } else if !w.state_mutation_supported {
        Err(ErrorView::Message("当前本地状态 schema 不受此版本 fls 支持；修改工作树已被拒绝"@))
    } else if environment is Err {
        Err(environment->Err_0)
    } else if unregistered_paths(w, files).len() > 0 {
        Err(ErrorView::Message("以下登记项目没有任何被 Git 跟踪的文件："@
            + crate::text::joined(unregistered_paths(w, files), ", "@)))
    } else if request.kind == ChangeKind::Remove
        && first_outside(request.projects.elems(), w.state.explicit_projects@) is Some {
        Err(not_explicit_error(first_outside(request.projects.elems(), w.state.explicit_projects@)->0))
    } else {
        Ok(selection_after(w, request.kind, request.projects@))
    }
}

/// The text form of a result whose success carries a set of texts.
pub open spec fn set_result_view(r: &Result<TextSet, Error>) -> Result<Set<Seq<char>>, ErrorView> {
    match r {
        Ok(s) => Ok(s@),
        Err(e) => Err(e@),
    }
}

/// The text form of a unit result.
pub open spec fn unit_result_view(r: &Result<(), Error>) -> Result<(), ErrorView> {
    match r {
        Ok(()) => Ok(()),
        Err(e) => Err(e@),
    }
}

impl Workspace {
    /// The explicit selection after `request`, once the manifest and state allow changing
    /// the worktree, the environment checks (host, Git, Buck2 and its pin, made by the
    /// caller) passed, and every registered project has tracked files among `files`.
    pub fn plan_selection(
        &self,
        request: &ChangeRequest,
        environment: Result<(), Error>,
        files: &Vec<String>,
    ) -> (r: Result<TextSet, Error>)
        requires
            self.wf(),
            request.projects.wf(),
        ensures
            set_result_view(&r) == selection_result(self, request, unit_result_view(&environment), views(files@)),
            r matches Ok(s) ==> s.wf(),
    {
        match self.manifest.require_mutation_support() {
            Ok(()) => {},
            Err(e) => return Err(e),
        }
        if !self.state_mutation_supported {
            return Err(Error::message("当前本地状态 schema 不受此版本 fls 支持；修改工作树已被拒绝"));
        }
        match environment {
            Ok(()) => {},
            Err(e) => return Err(e),
        }
        match self.validate_registered_paths(files) {
            Ok(()) => {},
            Err(e) => return Err(e),
        }
        let mut explicit = self.state.explicit_projects.duplicate();
        match request.kind {
            ChangeKind::Add => {
                explicit.extend(&request.projects);
            },
            ChangeKind::Remove => {
                match remove_each(explicit, &request.projects) {
                    Ok(rest) => {
                        explicit = rest;
                    },
                    Err(e) => return Err(e),
                }
            },
            ChangeKind::Replace => {
                let unavailable = self.undeclared_selection(&explicit);
                explicit = request.projects.duplicate();
                explicit.extend(&unavailable);
            },
            ChangeKind::Reconcile => {},
        }
        assert(explicit@ =~= selection_after(self, request.kind, request.projects@));
        Ok(explicit)
    }

    /// The members of `explicit` that the manifest does not declare.
    pub fn undeclared_selection(&self, explicit: &TextSet) -> (r: TextSet)
        requires
            self.wf(),
            explicit.wf(),
        ensures
            r.wf(),
            r@ == undeclared(self, explicit@),
    {
        let v = explicit.to_vec();
        let mut r = TextSet::new();
        let mut i: usize = 0;
        while i < v.len()
            invariant
                self.wf(),
                r.wf(),
                i <= v.len(),
                v@.map_values(|s: String| s@) == explicit.elems(),
                r@ == undeclared(self, explicit.elems().take(i as int).to_set()),
            decreases v.len() - i,
        {
            let ghost x = v@[i as int]@;
            if !self.manifest.projects.contains_key(v[i].as_str()) {
                r.insert(v[i].clone());
            }
            proof {
                assert(explicit.elems()[i as int] == x);
                assert(explicit.elems().take(i + 1) =~= explicit.elems().take(i as int).push(x));
                broadcast use Seq::lemma_push_to_set_commute;
                assert(r@ =~= undeclared(self, explicit.elems().take(i + 1).to_set()));
            }
            i = i + 1;
        }
        assert(explicit.elems().take(i as int) =~= explicit.elems());
        proof { explicit.lemma_wf(); }
        assert(explicit@ =~= explicit.elems().to_set());
        r
    }

    /// The members of `explicit` that the manifest declares: what the dependency query starts from.
    pub fn available_selection(&self, explicit: &TextSet) -> (r: TextSet)
        requires
            self.wf(),
            explicit.wf(),
        ensures
            r.wf(),
            r@ == explicit@.filter(|id: Seq<char>| self.manifest.projects@.contains_key(id)),
    {
        let v = explicit.to_vec();
        let mut r = TextSet::new();
        let mut i: usize = 0;
        while i < v.len()
            invariant
                self.wf(),
                r.wf(),
                i <= v.len(),
                v@.map_values(|s: String| s@) == explicit.elems(),
                r@ == explicit.elems().take(i as int).to_set().filter(|id: Seq<char>| self.manifest.projects@.contains_key(id)),
            decreases v.len() - i,
        {
            let ghost x = v@[i as int]@;
            if self.manifest.projects.contains_key(v[i].as_str()) {
                r.insert(v[i].clone());
            }
            proof {
                assert(explicit.elems()[i as int] == x);
                assert(explicit.elems().take(i + 1) =~= explicit.elems().take(i as int).push(x));
                broadcast use Seq::lemma_push_to_set_commute;
                assert(r@ =~= explicit.elems().take(i + 1).to_set().filter(|id: Seq<char>| self.manifest.projects@.contains_key(id)));
            }
            i = i + 1;
        }
        assert(explicit.elems().take(i as int) =~= explicit.elems());
        proof { explicit.lemma_wf(); }
        assert(explicit@ =~= explicit.elems().to_set());
        r
    }
}

/// `explicit` without each of `ids`, refused at the first of `ids` (in order) that it lacks.
pub fn remove_each(explicit: TextSet, ids: &TextSet) -> (r: Result<TextSet, Error>)
    requires
        explicit.wf(),
        ids.wf(),
    ensures
        r is Ok <==> first_outside(ids.elems(), explicit@) is None,
        r matches Ok(s) ==> s.wf() && s@ == explicit@.difference(ids@),
        r matches Err(e) ==> e@ == not_explicit_error(first_outside(ids.elems(), explicit@)->0),
{
    let v = ids.to_vec();
    let ghost es = ids.elems();
    let ghost before = explicit@;
    proof { ids.lemma_wf(); }
    let mut rest = explicit;
    let mut i: usize = 0;
    while i < v.len()
        invariant
            rest.wf(),
            es == ids.elems(),
            before == explicit@,
            v@.map_values(|s: String| s@) == es,
            es.no_duplicates(),
            i <= v.len(),
            forall|j: int| 0 <= j < i ==> before.contains(#[trigger] es[j]),
            rest@ == before.difference(es.take(i as int).to_set()),
        decreases v.len() - i,
    {
        let ghost x = es[i as int];
        assert(v@[i as int]@ == x);
        proof {
            assert(!es.take(i as int).contains(x)) by {
                if es.take(i as int).contains(x) {
                    let k = choose|k: int| 0 <= k < i && es.take(i as int)[k] == x;
                    assert(es[k] == es[i as int]);
                }
            }
        }
        if !rest.remove(v[i].as_str()) {
            proof {
                assert(first_outside_at(es, before, i as int));
                lemma_first_outside(es, before, i as int);
            }
            return Err(message3("项目 `", v[i].as_str(), "` 不是显式选择；依赖项目应通过移除其上游项目来释放"));
        }
        proof {
            broadcast use Seq::lemma_push_to_set_commute;
            assert(es.take(i + 1) =~= es.take(i as int).push(x));
            assert(rest@ =~= before.difference(es.take(i + 1).to_set()));
        }
        i = i + 1;
    }
    proof {
        assert(es.take(i as int) =~= es);
        assert(ids@ =~= es.to_set());
        if exists|k: int| first_outside_at(es, before, k) {
            let k = choose|k: int| first_outside_at(es, before, k);
            assert(before.contains(es[k]));
        }
    }
    Ok(rest)
}


/// The refusal of a dependency graph that reaches top-level directories the manifest does not register.
pub open spec fn unknown_packages_error(packages: Seq<Seq<char>>) -> ErrorView {
    ErrorView::Message("Buck2 依赖图引用了未登记的顶层项目："@ + joined(packages, ", "@)
        + "。请先在 fls-projects.toml 中登记完整项目图。"@)
}

/// The refusal of a resolved project that the manifest does not declare.
pub open spec fn outside_manifest_error(id: Seq<char>) -> ErrorView {
    ErrorView::Message("Buck2 解析到了清单外项目 `"@ + id + "`"@)
}

/// How many of `es` come before the first one outside `set`.
pub open spec fn inside_prefix(es: Seq<Seq<char>>, set: Set<Seq<char>>) -> int {
    if exists|i: int| first_outside_at(es, set, i) {
        choose|i: int| first_outside_at(es, set, i)
    } else {
        es.len() as int
    }
}

/// The `:workspace` target of each project.
pub open spec fn target_labels(w: &Workspace, ids: Seq<Seq<char>>) -> Seq<Seq<char>> {
    ids.map_values(|id: Seq<char>| "//"@ + w.manifest.projects@[id].path@ + ":workspace"@)
}

impl Workspace {
    /// The `:workspace` targets that the caller must find in Buck2, in order, for the
    /// resolved projects up to the first that the manifest does not declare; none when the
    /// query reached unregistered top-level directories.
    pub fn workspace_targets(&self, resolution: &DependencyResolution) -> (r: Vec<String>)
        requires
            self.wf(),
            resolution.projects.wf(),
            resolution.unknown_root_packages.wf(),
        ensures
            resolution.unknown_root_packages.elems().len() > 0 ==> r@.len() == 0,
            resolution.unknown_root_packages.elems().len() == 0 ==> views(r@) == target_labels(self,
                resolution.projects.elems().take(inside_prefix(resolution.projects.elems(), self.manifest.projects@.dom()))),
    {
        let mut targets: Vec<String> = Vec::new();
        if !resolution.unknown_root_packages.is_empty() {
            return targets;
        }
        let ids = resolution.projects.to_vec();
        let ghost es = resolution.projects.elems();
        let ghost dom = self.manifest.projects@.dom();
        let mut i: usize = 0;
        while i < ids.len()
            invariant
                self.wf(),
                resolution.unknown_root_packages.elems().len() == 0,
                es == resolution.projects.elems(),
                dom == self.manifest.projects@.dom(),
                ids@.map_values(|s: String| s@) == es,
                i <= ids.len(),
                targets@.len() == i,
                forall|j: int| 0 <= j < i ==> dom.contains(#[trigger] es[j]),
                views(targets@) == target_labels(self, es.take(i as int)),
            decreases ids.len() - i,
        {
            assert(es[i as int] == ids@[i as int]@);
            match self.manifest.projects.get(ids[i].as_str()) {
                Some(project) => {
                    let ghost before = targets@;
                    targets.push(workspace_target(project.path.as_str()));
                    proof {
                        crate::text::lemma_views_push(before, targets@[i as int]);
                        assert(es.take(i + 1) =~= es.take(i as int).push(es[i as int]));
                        assert(views(targets@) =~= target_labels(self, es.take(i + 1)));
                    }
                },
                None => {
                    proof {
                        assert(first_outside_at(es, dom, i as int));
                        let k = choose|k: int| first_outside_at(es, dom, k);
                        if k < i {
                            assert(dom.contains(es[k]));
                        } else if i < k {
                            assert(dom.contains(es[i as int]));
                        }
                    }
                    return targets;
                },
            }
            i = i + 1;
        }
        proof {
            assert(es.take(i as int) =~= es);
            if exists|k: int| first_outside_at(es, dom, k) {
                let k = choose|k: int| first_outside_at(es, dom, k);
                assert(dom.contains(es[k]));
            }
        }
        targets
    }

    /// Checks what the dependency query reached: no unregistered top-level directory, every
    /// target queried (`targets`, for the projects before the first undeclared one) found,
    /// and no undeclared project.
    pub fn check_resolution(&self, resolution: &DependencyResolution, targets: Result<(), Error>) -> (r: Result<(), Error>)
        requires
            self.wf(),
            resolution.projects.wf(),
            resolution.unknown_root_packages.wf(),
        ensures
            resolution.unknown_root_packages.elems().len() > 0 ==> (r matches Err(e)
                && e@ == unknown_packages_error(resolution.unknown_root_packages.elems())),
            resolution.unknown_root_packages.elems().len() == 0 ==> {
                if targets is Err {
                    r matches Err(e) && e@ == targets->Err_0@
                } else if first_outside(resolution.projects.elems(), self.manifest.projects@.dom()) is Some {
                    r matches Err(e) && e@ == outside_manifest_error(
                        first_outside(resolution.projects.elems(), self.manifest.projects@.dom())->0)
                } else {
                    r is Ok
                }
            },
    {
        if !resolution.unknown_root_packages.is_empty() {
            let list = join(&resolution.unknown_root_packages.to_vec(), ", ");
            return Err(Error::Message(concat3(
                "Buck2 依赖图引用了未登记的顶层项目：",
                list.as_str(),
                "。请先在 fls-projects.toml 中登记完整项目图。",
            )));
        }
        let ghost t0 = targets;
        match targets {
            Ok(()) => {},
            Err(e) => return Err(e),
        }
        let ids = resolution.projects.to_vec();
        let ghost es = resolution.projects.elems();
        let ghost dom = self.manifest.projects@.dom();
        let mut i: usize = 0;
        while i < ids.len()
            invariant
                self.wf(),
                es == resolution.projects.elems(),
                dom == self.manifest.projects@.dom(),
                ids@.map_values(|s: String| s@) == es,
                i <= ids.len(),
                resolution.unknown_root_packages.elems().len() == 0,
                t0 == targets,
                t0 is Ok,
                forall|j: int| 0 <= j < i ==> dom.contains(#[trigger] es[j]),
            decreases ids.len() - i,
        {
            assert(es[i as int] == ids@[i as int]@);
            if !self.manifest.projects.contains_key(ids[i].as_str()) {
                proof {
                    assert(first_outside_at(es, dom, i as int));
                    lemma_first_outside(es, dom, i as int);
                }
                return Err(message3("Buck2 解析到了清单外项目 `", ids[i].as_str(), "`"));
            }
            i = i + 1;
        }
        proof {
            if exists|k: int| first_outside_at(es, dom, k) {
                let k = choose|k: int| first_outside_at(es, dom, k);
                assert(dom.contains(es[k]));
            }
        }
        Ok(())
    }
}


/// What the worktree keeps now: the resolved and the retained projects.
pub open spec fn current_materialized(w: &Workspace) -> Set<Seq<char>> {
    w.state.resolved_projects@.union(w.state.retained_projects@.dom())
}

/// The projects kept now that the new resolution does not reach, but for undeclared
/// explicit selections: each leaves unless its directory is unknown or holds changes.
pub open spec fn candidates(w: &Workspace, explicit: Set<Seq<char>>, resolved: Set<Seq<char>>) -> Set<Seq<char>> {
    current_materialized(w).difference(resolved).difference(undeclared(w, explicit))
}

/// The directory of a project, as this worktree knows it.
pub open spec fn dir_of(w: &Workspace, id: Seq<char>) -> Option<Seq<char>> {
    project_dir(&w.manifest, w.state.known_project_paths.text_view(), id)
}

/// The directory is known and holds nothing that removing it would lose.
pub open spec fn is_removable(w: &Workspace, dirt: Map<Seq<char>, Result<Dirtiness, Error>>, id: Seq<char>) -> bool {
    dir_of(w, id) is Some && dirt[id] is Ok && !dirt[id]->Ok_0.blocking
}

/// The directory is known and holds changes.
pub open spec fn is_blocked(w: &Workspace, dirt: Map<Seq<char>, Result<Dirtiness, Error>>, id: Seq<char>) -> bool {
    dir_of(w, id) is Some && dirt[id] is Ok && dirt[id]->Ok_0.blocking
}

/// The directory is known but its state could not be read.
pub open spec fn is_unreadable(w: &Workspace, dirt: Map<Seq<char>, Result<Dirtiness, Error>>, id: Seq<char>) -> bool {
    dir_of(w, id) is Some && dirt[id] is Err
}

/// A candidate stops the change: its state could not be read, or it holds changes and the
/// change does not reconcile.
pub open spec fn stops_at(w: &Workspace, kind: ChangeKind, dirt: Map<Seq<char>, Result<Dirtiness, Error>>, id: Seq<char>) -> bool {
    is_unreadable(w, dirt, id) || (kind != ChangeKind::Reconcile && is_blocked(w, dirt, id))
}

/// The error of a candidate that stops the change.
pub open spec fn stop_error(w: &Workspace, dirt: Map<Seq<char>, Result<Dirtiness, Error>>, id: Seq<char>) -> ErrorView {
    if is_unreadable(w, dirt, id) {
        dirt[id]->Err_0@
    } else {
        dirty_error(id, dir_of(w, id)->0)
    }
}

/// A removable project whose directory holds ignored files.
pub open spec fn leaves_ignored(w: &Workspace, dirt: Map<Seq<char>, Result<Dirtiness, Error>>, id: Seq<char>) -> bool {
    is_removable(w, dirt, id) && dirt[id]->Ok_0.ignored
}

/// Why a project stays in the worktree though the resolution does not reach it.
pub open spec fn retention_reason(w: &Workspace, explicit: Set<Seq<char>>, id: Seq<char>) -> Seq<char> {
    if undeclared(w, explicit).contains(id) {
        "项目不在当前清单中；在显式 remove 前保留本地文件"@
    } else if dir_of(w, id) is None {
        "缺少已知项目路径，无法安全移除"@
    } else {
        "存在已跟踪、暂存或未跟踪的本地修改"@
    }
}

/// The retained projects, with their reasons, once the candidates among `cands` are sorted out.
pub open spec fn retained_after(
    w: &Workspace,
    explicit: Set<Seq<char>>,
    cands: Set<Seq<char>>,
    dirt: Map<Seq<char>, Result<Dirtiness, Error>>,
) -> Map<Seq<char>, Seq<char>> {
    Map::new(
        |id: Seq<char>| undeclared(w, explicit).contains(id) || (cands.contains(id) && !is_removable(w, dirt, id)),
        |id: Seq<char>| retention_reason(w, explicit, id),
    )
}

/// The warning for ignored files left behind in a removed directory.
pub open spec fn ignored_warning(id: Seq<char>) -> Seq<char> {
    "项目 `"@ + id + "` 中存在被 Git 忽略的输出；稀疏检出不会删除这些文件，目录可能保留。"@
}

/// The refusal of removing a directory with changes.
pub open spec fn dirty_error(id: Seq<char>, path: Seq<char>) -> ErrorView {
    ErrorView::Message("项目 `"@ + id + "`（"@ + path + "）存在已跟踪、暂存或未跟踪的本地修改；整个操作已取消"@)
}

/// `q[i]` is the first project of `q` that stops the change.
pub open spec fn first_stop_at(w: &Workspace, kind: ChangeKind, dirt: Map<Seq<char>, Result<Dirtiness, Error>>, q: Seq<Seq<char>>, i: int) -> bool {
    &&& 0 <= i < q.len()
    &&& stops_at(w, kind, dirt, q[i])
    &&& forall|j: int| 0 <= j < i ==> !stops_at(w, kind, dirt, #[trigger] q[j])
}

/// The projects sorted out so far, with their reasons.
pub open spec fn retained_upto(
    w: &Workspace,
    explicit: Set<Seq<char>>,
    done: Seq<Seq<char>>,
    dirt: Map<Seq<char>, Result<Dirtiness, Error>>,
) -> Map<Seq<char>, Seq<char>> {
    Map::new(
        |id: Seq<char>| undeclared(w, explicit).contains(id) || (done.contains(id) && !is_removable(w, dirt, id)),
        |id: Seq<char>| retention_reason(w, explicit, id),
    )
}

/// How the candidates were sorted out: what stays, what leaves, and the warnings.
pub struct Sorting {
    pub retained: TextMap<String>,
    pub removable: TextSet,
    pub warnings: Vec<String>,
}

impl Workspace {
    /// The candidates for removal, given the new explicit selection and resolution.
    pub fn removal_candidates(&self, explicit: &TextSet, resolved: &TextSet) -> (r: TextSet)
        requires
            self.wf(),
            explicit.wf(),
            resolved.wf(),
        ensures
            r.wf(),
            r@ == candidates(self, explicit@, resolved@),
    {
        let current = self.state.materialized_projects();
        let unavailable = self.undeclared_selection(explicit);
        current.difference(resolved).difference(&unavailable)
    }

    /// Sorts out the candidates in order: one with an unknown directory stays; one with
    /// changes stays when reconciling and stops the plan otherwise; the rest leave, with a
    /// warning where ignored files remain.
    pub fn sort_out_candidates(
        &self,
        kind: ChangeKind,
        explicit: &TextSet,
        resolved: &TextSet,
        dirt: &TextMap<Result<Dirtiness, Error>>,
    ) -> (r: Result<Sorting, Error>)
        requires
            self.wf(),
            explicit.wf(),
            resolved.wf(),
            dirt.wf(),
            forall|id: Seq<char>| #[trigger] candidates(self, explicit@, resolved@).contains(id)
                && dir_of(self, id) is Some ==> dirt@.contains_key(id),
        ensures
            ({
                let cands = candidates(self, explicit@, resolved@);
                let bad = exists|id: Seq<char>| #[trigger] cands.contains(id) && stops_at(self, kind, dirt@, id);
                &&& r is Err <==> bad
                &&& r matches Err(e) ==> exists|q: Seq<Seq<char>>, i: int| strictly_sorted(q)
                    && q.to_set() == cands && first_stop_at(self, kind, dirt@, q, i)
                    && e@ == stop_error(self, dirt@, q[i])
                &&& r matches Ok(s) ==> {
                    &&& s.retained.wf()
                    &&& s.removable.wf()
                    &&& s.retained.text_view() == retained_after(self, explicit@, cands, dirt@)
                    &&& s.removable@ == cands.filter(|id: Seq<char>| is_removable(self, dirt@, id))
                    &&& exists|q: Seq<Seq<char>>| strictly_sorted(q) && q.to_set() == cands
                        && views(s.warnings@) == views(self.warnings@)
                            + q.filter(|id: Seq<char>| leaves_ignored(self, dirt@, id)).map_values(|id: Seq<char>| ignored_warning(id))
                }
            }),
    {
        let unavailable = self.undeclared_selection(explicit);
        let cands = self.removal_candidates(explicit, resolved);
        let ghost ex = explicit@;
        let ghost dm = dirt@;
        let ghost cs = cands@;
        let ghost q = cands.elems();
        proof { cands.lemma_wf(); unavailable.lemma_wf(); }
        let mut retained: TextMap<String> = TextMap::new();
        let undecl = unavailable.to_vec();
        let mut k: usize = 0;
        while k < undecl.len()
            invariant
                retained.wf(),
                unavailable.wf(),
                undecl@.map_values(|s: String| s@) == unavailable.elems(),
                k <= undecl.len(),
                retained.text_view() == Map::new(
                    |id: Seq<char>| unavailable.elems().take(k as int).contains(id),
                    |id: Seq<char>| "项目不在当前清单中；在显式 remove 前保留本地文件"@,
                ),
            decreases undecl.len() - k,
        {
            let ghost x = undecl@[k as int]@;
            assert(unavailable.elems()[k as int] == x);
            let ghost before = retained.text_view();
            retained.insert(undecl[k].clone(), owned("项目不在当前清单中；在显式 remove 前保留本地文件"));
            proof {
                broadcast use vstd::seq_lib::lemma_seq_contains_after_push;
                assert(retained.text_view() =~= before.insert(x, "项目不在当前清单中；在显式 remove 前保留本地文件"@));
                assert(unavailable.elems().take(k + 1) =~= unavailable.elems().take(k as int).push(x));
                assert(retained.text_view() =~= Map::new(
                    |id: Seq<char>| unavailable.elems().take(k + 1).contains(id),
                    |id: Seq<char>| "项目不在当前清单中；在显式 remove 前保留本地文件"@,
                ));
            }
            k = k + 1;
        }
        proof {
            assert(unavailable.elems().take(k as int) =~= unavailable.elems());
            assert(retained.text_view() =~= retained_upto(self, ex, q.take(0), dm));
        }
        let ids = cands.to_vec();
        let mut removable = TextSet::new();
        let mut warnings: Vec<String> = Vec::new();
        let mut w: usize = 0;
        while w < self.warnings.len()
            invariant
                w <= self.warnings.len(),
                views(warnings@) == views(self.warnings@).take(w as int),
            decreases self.warnings.len() - w,
        {
            let ghost before = warnings@;
            warnings.push(self.warnings[w].clone());
            proof {
                crate::text::lemma_views_push(before, self.warnings@[w as int]);
                assert(views(self.warnings@).take(w + 1) =~= views(self.warnings@).take(w as int).push(self.warnings@[w as int]@));
            }
            w = w + 1;
        }
        assert(views(self.warnings@).take(w as int) =~= views(self.warnings@));
        let ghost base = views(self.warnings@);
        let mut i: usize = 0;
        while i < ids.len()
            invariant
                self.wf(),
                ex == explicit@,
                dm == dirt@,
                cs == candidates(self, ex, resolved@),
                q == cands.elems(),
                cs == cands@,
                dirt.wf(),
                forall|id: Seq<char>| #[trigger] cs.contains(id) && dir_of(self, id) is Some ==> dm.contains_key(id),
                strictly_sorted(q),
                q.no_duplicates(),
                forall|x: Seq<char>| #[trigger] cs.contains(x) <==> q.contains(x),
                ids@.map_values(|s: String| s@) == q,
                i <= ids.len(),
                retained.wf(),
                retained.text_view() == retained_upto(self, ex, q.take(i as int), dm),
                removable.wf(),
                removable@ == q.take(i as int).to_set().filter(|id: Seq<char>| is_removable(self, dm, id)),
                views(warnings@) == base + q.take(i as int).filter(|id: Seq<char>| leaves_ignored(self, dm, id))
                    .map_values(|id: Seq<char>| ignored_warning(id)),
                base == views(self.warnings@),
                forall|j: int| 0 <= j < i ==> !stops_at(self, kind, dm, #[trigger] q[j]),
            decreases ids.len() - i,
        {
            let id = &ids[i];
            let ghost x = q[i as int];
            assert(id@ == x);
            assert(cs.contains(x));
            proof {
                assert(q.take(i + 1) =~= q.take(i as int).push(x));
                assert(!q.take(i as int).contains(x)) by {
                    if q.take(i as int).contains(x) {
                        let m = choose|m: int| 0 <= m < i && q.take(i as int)[m] == x;
                        assert(q[m] == q[i as int]);
                    }
                }
                q.take(i as int).lemma_filter_push(x, |id: Seq<char>| leaves_ignored(self, dm, id));
                assert(!undeclared(self, ex).contains(x));
            }
            let ghost before_warnings = warnings@;
            match self.project_path(id.as_str()) {
                None => {
                    let ghost before = retained.text_view();
                    retained.insert(id.clone(), owned("缺少已知项目路径，无法安全移除"));
                    proof {
                        broadcast use vstd::seq_lib::lemma_seq_contains_after_push;
                        assert(retained.text_view() =~= before.insert(x, "缺少已知项目路径，无法安全移除"@));
                        assert(dir_of(self, x) is None);
                        assert(retained.text_view() =~= retained_upto(self, ex, q.take(i + 1), dm));
                        assert(removable@ =~= q.take(i + 1).to_set().filter(|id: Seq<char>| is_removable(self, dm, id)));
                    }
                },
                Some(path) => {
                    let d = match dirt.get(id.as_str()) {
                        Some(Ok(d)) => d,
                        Some(Err(e)) => {
                            proof {
                                assert(first_stop_at(self, kind, dm, q, i as int));
                                assert(q.to_set() =~= cs);
                            }
                            return Err(e.duplicate());
                        },
                        None => vstd::pervasive::unreached(),
                    };
                    assert(dm[x] is Ok && dm[x]->Ok_0 == *d);
                    if d.blocking {
                        match kind {
                            ChangeKind::Reconcile => {
                                let ghost before = retained.text_view();
                                retained.insert(id.clone(), owned("存在已跟踪、暂存或未跟踪的本地修改"));
                                proof {
                                    broadcast use vstd::seq_lib::lemma_seq_contains_after_push;
                                    assert(retained.text_view() =~= before.insert(x, "存在已跟踪、暂存或未跟踪的本地修改"@));
                                    assert(retained.text_view() =~= retained_upto(self, ex, q.take(i + 1), dm));
                                    assert(removable@ =~= q.take(i + 1).to_set().filter(|id: Seq<char>| is_removable(self, dm, id)));
                                }
                            },
                            _ => {
                                proof {
                                    assert(first_stop_at(self, kind, dm, q, i as int));
                                    assert(q.to_set() =~= cs);
                                }
                                return Err(Error::Message(concat5(
                                    "项目 `",
                                    id.as_str(),
                                    "`（",
                                    path.as_str(),
                                    "）存在已跟踪、暂存或未跟踪的本地修改；整个操作已取消",
                                )));
                            },
                        }
                    } else {
                        removable.insert(id.clone());
                        if d.ignored {
                            warnings.push(concat3("项目 `", id.as_str(), "` 中存在被 Git 忽略的输出；稀疏检出不会删除这些文件，目录可能保留。"));
                        }
                        proof {
                            broadcast use Seq::lemma_push_to_set_commute, vstd::seq_lib::lemma_seq_contains_after_push;
                            assert(retained.text_view() =~= retained_upto(self, ex, q.take(i + 1), dm));
                            assert(removable@ =~= q.take(i + 1).to_set().filter(|id: Seq<char>| is_removable(self, dm, id)));
                        }
                    }
                },
            }
            proof {
                let f = |id: Seq<char>| leaves_ignored(self, dm, id);
                let g = |id: Seq<char>| ignored_warning(id);
                let old_f = q.take(i as int).filter(f);
                if leaves_ignored(self, dm, x) {
                    assert(q.take(i + 1).filter(f) == old_f.push(x));
                    assert(old_f.push(x).map_values(g) =~= old_f.map_values(g).push(g(x)));
                    crate::text::lemma_views_push(before_warnings, warnings@.last());
                    assert(warnings@ =~= before_warnings.push(warnings@.last()));
                } else {
                    assert(q.take(i + 1).filter(f) == old_f);
                    assert(warnings@ == before_warnings);
                }
                assert(views(warnings@) =~= base + q.take(i + 1).filter(f).map_values(g));
            }
            i = i + 1;
        }
        proof {
            assert(q.take(i as int) =~= q);
            assert(q.to_set() =~= cs);
            assert(retained.text_view() =~= retained_after(self, ex, cs, dm));
            assert(removable@ =~= cs.filter(|id: Seq<char>| is_removable(self, dm, id)));
            if exists|id: Seq<char>| #[trigger] cs.contains(id) && stops_at(self, kind, dm, id) {
                let id = choose|id: Seq<char>| #[trigger] cs.contains(id) && stops_at(self, kind, dm, id);
                let m = choose|m: int| 0 <= m < q.len() && q[m] == id;
                assert(!stops_at(self, kind, dm, q[m]));
            }
        }
        Ok(Sorting { retained, removable, warnings })
    }
}


/// The remembered project paths after a change: the manifest's paths over the old ones.
pub open spec fn next_known(w: &Workspace) -> Map<Seq<char>, Seq<char>> {
    w.state.known_project_paths.text_view().union_prefer_right(manifest_paths(&w.manifest))
}

/// `q[i]` is the first project of `q` whose directory is unknown.
pub open spec fn first_unknown_dir_at(w: &Workspace, q: Seq<Seq<char>>, i: int) -> bool {
    &&& 0 <= i < q.len()
    &&& project_dir(&w.manifest, next_known(w), q[i]) is None
    &&& forall|j: int| 0 <= j < i ==> project_dir(&w.manifest, next_known(w), #[trigger] q[j]) is Some
}

/// A change is stopped by a candidate with changes (unless it reconciles).
pub open spec fn stopped_by_changes(
    w: &Workspace,
    kind: ChangeKind,
    explicit: Set<Seq<char>>,
    resolved: Set<Seq<char>>,
    dirt: Map<Seq<char>, Result<Dirtiness, Error>>,
) -> bool {
    exists|id: Seq<char>| #[trigger] candidates(w, explicit, resolved).contains(id) && stops_at(w, kind, dirt, id)
}

/// What the worktree keeps after the change.
pub open spec fn target_after(
    w: &Workspace,
    explicit: Set<Seq<char>>,
    resolved: Set<Seq<char>>,
    dirt: Map<Seq<char>, Result<Dirtiness, Error>>,
) -> Set<Seq<char>> {
    resolved.union(retained_after(w, explicit, candidates(w, explicit, resolved), dirt).dom())
}

/// Everything a finished plan says, over what went into it.
pub open spec fn plan_matches(
    w: &Workspace,
    p: &Plan,
    kind: ChangeKind,
    explicit: Set<Seq<char>>,
    resolved: Set<Seq<char>>,
    dirt: Map<Seq<char>, Result<Dirtiness, Error>>,
    head: Seq<char>,
    files: Seq<Seq<char>>,
) -> bool {
    let cands = candidates(w, explicit, resolved);
    let retained = retained_after(w, explicit, cands, dirt);
    let target = target_after(w, explicit, resolved, dirt);
    let current = current_materialized(w);
    &&& p.command == kind
    &&& p.explicit_projects.wf() && p.explicit_projects@ == explicit
    &&& p.resolved_projects.wf() && p.resolved_projects@ == resolved
    &&& p.retained_projects.wf() && p.retained_projects.text_view() == retained
    &&& p.added_projects.wf() && p.added_projects@ == target.difference(current)
    &&& p.removed_projects.wf() && p.removed_projects@ == current.difference(target).intersect(
        cands.filter(|id: Seq<char>| is_removable(w, dirt, id)))
    &&& exists|q: Seq<Seq<char>>| strictly_sorted(q) && q.to_set() == cands
        && views(p.warnings@) == views(w.warnings@)
            + q.filter(|id: Seq<char>| leaves_ignored(w, dirt, id)).map_values(|id: Seq<char>| ignored_warning(id))
    &&& p.next_state.wf()
    &&& p.next_state.schema_version == CURRENT_SCHEMA
    &&& p.next_state.explicit_projects@ == explicit
    &&& p.next_state.resolved_projects@ == resolved
    &&& p.next_state.retained_projects.text_view() == retained
    &&& p.next_state.known_project_paths.text_view() == next_known(w)
    &&& p.next_state.resolved_at_head@ == head
    &&& exists|pats: Seq<Seq<char>>| strictly_sorted(pats)
        && pats.to_set() == pattern_set(&w.manifest, next_known(w), target, files)
        && p.sparse_patterns@ == joined(pats, "\n"@) + "\n"@
    &&& p.expected_head@ == head
    &&& p.expected_state.wf() && p.expected_state.same_content(&w.state)
    &&& p.old_sparse.enabled == w.sparse.enabled && p.old_sparse.patterns@ == w.sparse.patterns@
}

/// What finishing a plan answers: the refusal for the first candidate with changes (unless
/// reconciling), else the failure to read `HEAD`, else the refusal for the first kept project
/// whose directory is unknown, else the plan.
pub open spec fn completion(
    w: &Workspace,
    kind: ChangeKind,
    explicit: Set<Seq<char>>,
    resolved: Set<Seq<char>>,
    dirt: Map<Seq<char>, Result<Dirtiness, Error>>,
    head: Result<Seq<char>, ErrorView>,
    files: Seq<Seq<char>>,
    r: Result<Plan, Error>,
) -> bool {
    &&& stopped_by_changes(w, kind, explicit, resolved, dirt) ==> (r matches Err(e)
        && exists|q: Seq<Seq<char>>, i: int| strictly_sorted(q)
            && q.to_set() == candidates(w, explicit, resolved) && first_stop_at(w, kind, dirt, q, i)
            && e@ == stop_error(w, dirt, q[i]))
    &&& !stopped_by_changes(w, kind, explicit, resolved, dirt) && head is Err ==> (r matches Err(e)
        && e@ == head->Err_0)
    &&& !stopped_by_changes(w, kind, explicit, resolved, dirt) && head is Ok ==> {
        &&& r is Ok <==> forall|id: Seq<char>| #[trigger] target_after(w, explicit, resolved, dirt).contains(id)
            ==> project_dir(&w.manifest, next_known(w), id) is Some
        &&& r matches Err(e) ==> exists|q: Seq<Seq<char>>, i: int| strictly_sorted(q)
            && q.to_set() == target_after(w, explicit, resolved, dirt) && first_unknown_dir_at(w, q, i)
            && e@ == unknown_dir_error(q[i])
        &&& r matches Ok(p) ==> plan_matches(w, &p, kind, explicit, resolved, dirt, head->Ok_0, files)
    }
}

impl Workspace {
    /// Finishes a plan from the new explicit selection, its resolution, the state of each
    /// candidate's directory (`dirt`, read by the caller for every candidate whose directory
    /// is known), `HEAD` as read, and the tracked files.
    pub fn complete_plan(
        &self,
        kind: ChangeKind,
        explicit: TextSet,
        resolved: TextSet,
        dirt: &TextMap<Result<Dirtiness, Error>>,
        head: Result<String, Error>,
        files: &Vec<String>,
    ) -> (r: Result<Plan, Error>)
        requires
            self.wf(),
            explicit.wf(),
            resolved.wf(),
            dirt.wf(),
            forall|id: Seq<char>| #[trigger] candidates(self, explicit@, resolved@).contains(id)
                && dir_of(self, id) is Some ==> dirt@.contains_key(id),
        ensures
            completion(self, kind, explicit@, resolved@, dirt@, string_result_view(&head), views(files@), r),
    {
        let sorting = match self.sort_out_candidates(kind, &explicit, &resolved, dirt) {
            Ok(s) => s,
            Err(e) => return Err(e),
        };
        let ghost cands = candidates(self, explicit@, resolved@);
        let ghost retained_v = retained_after(self, explicit@, cands, dirt@);
        let current = self.state.materialized_projects();
        let mut target = resolved.duplicate();
        target.extend(&sorting.retained.key_set());
        assert(sorting.retained@.dom() =~= retained_v.dom());
        assert(target@ =~= target_after(self, explicit@, resolved@, dirt@));
        let added = target.difference(&current);
        let removed = current.difference(&target).intersection(&sorting.removable);
        let h = match head {
            Ok(h) => h,
            Err(e) => return Err(e),
        };
        let mut known = self.state.known_project_paths.duplicate();
        known.extend(&self.manifest.known_paths());
        assert(known.text_view() =~= next_known(self));
        let patterns = match self.git.sparse_patterns(&self.manifest, &known, &target, files) {
            Ok(p) => p,
            Err(e) => {
                proof {
                    target.lemma_wf();
                    assert(target.elems().to_set() =~= target@);
                    let i = choose|i: int| 0 <= i < target.elems().len()
                        && project_dir(&self.manifest, known.text_view(), target.elems()[i]) is None
                        && (forall|j: int| 0 <= j < i ==> project_dir(&self.manifest, known.text_view(), #[trigger] target.elems()[j]) is Some)
                        && e@ == unknown_dir_error(target.elems()[i]);
                    assert(first_unknown_dir_at(self, target.elems(), i));
                    assert(target@.contains(target.elems()[i]));
                }
                return Err(e);
            },
        };
        proof {
            target.lemma_wf();
            assert forall|id: Seq<char>| #[trigger] target@.contains(id)
                implies project_dir(&self.manifest, next_known(self), id) is Some by {
                assert(target.elems().contains(id));
                let k = choose|k: int| 0 <= k < target.elems().len() && target.elems()[k] == id;
                assert(project_dir(&self.manifest, known.text_view(), target.elems()[k]) is Some);
            }
        }
        let next_state = State {
            schema_version: CURRENT_SCHEMA,
            explicit_projects: explicit.duplicate(),
            resolved_projects: resolved.duplicate(),
            retained_projects: sorting.retained.duplicate(),
            known_project_paths: known,
            resolved_at_head: h.clone(),
        };
        let old_sparse = SparseSnapshot { enabled: self.sparse.enabled, patterns: self.sparse.patterns.clone() };
        let plan = Plan {
            command: kind,
            explicit_projects: explicit,
            resolved_projects: resolved,
            retained_projects: sorting.retained,
            added_projects: added,
            removed_projects: removed,
            warnings: sorting.warnings,
            next_state,
            sparse_patterns: patterns,
            expected_head: h,
            expected_state: self.state.duplicate(),
            old_sparse,
        };
        assert(plan.next_state.retained_projects.text_view() =~= retained_v);
        Ok(plan)
    }
}


/// The refusal of a plan whose `HEAD` moved.
pub open spec fn head_moved_error() -> ErrorView {
    ErrorView::Message("计算计划后 HEAD 已改变；为避免应用过期依赖图，本次操作已取消，请重试"@)
}

/// The refusal of a plan whose state changed.
pub open spec fn state_changed_error() -> ErrorView {
    ErrorView::Message("计算计划后本地 fls 状态已改变；本次操作已取消，请重试"@)
}

/// The error answered when writing the state failed: that error where the old
/// sparse-checkout rules came back, else both.
pub fn write_failure(error: Error, rollback: Result<(), Error>) -> (r: Error)
    ensures
        rollback is Ok ==> r@ == error@,
        rollback matches Err(re) ==> r@ == ErrorView::Message(
            "写入 fls 状态失败，且无法恢复原稀疏检出规则。原错误："@ + error_text(error@)
                + "；恢复错误："@ + error_text(re@)),
{
    match rollback {
        Ok(()) => error,
        Err(re) => {
            let a = error.text();
            let b = re.text();
            let mut m = concat3("写入 fls 状态失败，且无法恢复原稀疏检出规则。原错误：", a.as_str(), "；恢复错误：");
            m.append(b.as_str());
            Error::Message(m)
        },
    }
}

/// The warning when the worktree changed but the hooks could not be installed.
pub open spec fn hooks_failed_warning(e: ErrorView) -> Seq<char> {
    "工作树已经更新，但安装 Git reconcile hooks 失败："@ + error_text(e)
}

/// The outcome of an applied plan: its warnings, then those of installing the hooks (or
/// the warning that installing them failed).
pub fn finish_apply(plan: Plan, hooks: Result<Vec<String>, Error>) -> (r: ApplyOutcome)
    ensures
        r.plan == plan,
        hooks matches Ok(ws) ==> views(r.warnings@) == views(plan.warnings@) + views(ws@),
        hooks matches Err(e) ==> views(r.warnings@) == views(plan.warnings@).push(hooks_failed_warning(e@)),
{
    let mut warnings: Vec<String> = Vec::new();
    let mut i: usize = 0;
    while i < plan.warnings.len()
        invariant
            i <= plan.warnings.len(),
            views(warnings@) == views(plan.warnings@).take(i as int),
        decreases plan.warnings.len() - i,
    {
        let ghost before = warnings@;
        warnings.push(plan.warnings[i].clone());
        proof {
            crate::text::lemma_views_push(before, plan.warnings@[i as int]);
            assert(views(plan.warnings@).take(i + 1) =~= views(plan.warnings@).take(i as int).push(plan.warnings@[i as int]@));
        }
        i = i + 1;
    }
    assert(views(plan.warnings@).take(i as int) =~= views(plan.warnings@));
    match hooks {
        Ok(ws) => {
            let ghost before = warnings@;
            let mut rest = ws;
            let ghost added = rest@;
            warnings.append(&mut rest);
            assert(views(warnings@) =~= views(before) + views(added));
        },
        Err(e) => {
            let ghost before = warnings@;
            let t = e.text();
            warnings.push(concat2("工作树已经更新，但安装 Git reconcile hooks 失败：", t.as_str()));
            proof {
                crate::text::lemma_views_push(before, warnings@.last());
                assert(warnings@ =~= before.push(warnings@.last()));
            }
        },
    }
    ApplyOutcome { plan, warnings }
}


/// No project is both checked out and removed by one plan.
pub proof fn plan_adds_and_removes_apart(
    w: &Workspace,
    p: &Plan,
    kind: ChangeKind,
    explicit: Set<Seq<char>>,
    resolved: Set<Seq<char>>,
    dirt: Map<Seq<char>, Result<Dirtiness, Error>>,
    head: Seq<char>,
    files: Seq<Seq<char>>,
)
    requires
        plan_matches(w, p, kind, explicit, resolved, dirt, head, files),
    ensures
        p.added_projects@.disjoint(p.removed_projects@),
{
}

/// A plan never removes a project that the new resolution reaches, nor an explicit
/// selection that the manifest no longer declares, nor a directory with changes.
pub proof fn plan_removes_only_clean_unneeded(
    w: &Workspace,
    p: &Plan,
    kind: ChangeKind,
    explicit: Set<Seq<char>>,
    resolved: Set<Seq<char>>,
    dirt: Map<Seq<char>, Result<Dirtiness, Error>>,
    head: Seq<char>,
    files: Seq<Seq<char>>,
)
    requires
        plan_matches(w, p, kind, explicit, resolved, dirt, head, files),
    ensures
        p.removed_projects@.disjoint(resolved),
        p.removed_projects@.disjoint(undeclared(w, explicit)),
        forall|id: Seq<char>| #[trigger] p.removed_projects@.contains(id)
            ==> dir_of(w, id) is Some && dirt[id] is Ok && !dirt[id]->Ok_0.blocking,
        p.removed_projects@.subset_of(current_materialized(w)),
{
}

/// After a plan, the worktree keeps what it kept, less what the plan removes, plus what it
/// adds; and that is exactly the new state's resolved and retained projects.
pub proof fn plan_moves_worktree_to_next_state(
    w: &Workspace,
    p: &Plan,
    kind: ChangeKind,
    explicit: Set<Seq<char>>,
    resolved: Set<Seq<char>>,
    dirt: Map<Seq<char>, Result<Dirtiness, Error>>,
    head: Seq<char>,
    files: Seq<Seq<char>>,
)
    requires
        plan_matches(w, p, kind, explicit, resolved, dirt, head, files),
    ensures
        current_materialized(w).difference(p.removed_projects@).union(p.added_projects@)
            == p.next_state.resolved_projects@.union(p.next_state.retained_projects.text_view().dom()),
        resolved.subset_of(p.next_state.resolved_projects@.union(p.next_state.retained_projects.text_view().dom())),
{
    let current = current_materialized(w);
    let target = target_after(w, explicit, resolved, dirt);
    assert(p.next_state.retained_projects.text_view().dom() =~= retained_after(w, explicit, candidates(w, explicit, resolved), dirt).dom());
    assert(current.difference(p.removed_projects@).union(p.added_projects@) =~= target);
}

/// Reconciling stops only where a directory's state could not be read; a directory with
/// changes is retained instead.
pub proof fn reconcile_keeps_changed_directories(
    w: &Workspace,
    explicit: Set<Seq<char>>,
    resolved: Set<Seq<char>>,
    dirt: Map<Seq<char>, Result<Dirtiness, Error>>,
)
    ensures
        stopped_by_changes(w, ChangeKind::Reconcile, explicit, resolved, dirt)
            == exists|id: Seq<char>| #[trigger] candidates(w, explicit, resolved).contains(id) && is_unreadable(w, dirt, id),
        forall|id: Seq<char>| #[trigger] candidates(w, explicit, resolved).contains(id) && is_blocked(w, dirt, id)
            ==> retained_after(w, explicit, candidates(w, explicit, resolved), dirt).contains_key(id)
                && retained_after(w, explicit, candidates(w, explicit, resolved), dirt)[id]
                    == "存在已跟踪、暂存或未跟踪的本地修改"@,
{
}

/// A project kept now that the new resolution no longer reaches, and that is not an explicit
/// selection the manifest dropped: it would leave the worktree.
pub open spec fn would_leave(w: &Workspace, explicit: Set<Seq<char>>, resolved: Set<Seq<char>>, id: Seq<char>) -> bool {
    &&& w.state.resolved_projects@.contains(id) || w.state.retained_projects@.contains_key(id)
    &&& !resolved.contains(id)
    &&& !(explicit.contains(id) && !w.manifest.projects@.contains_key(id))
}

/// The refusal of a change that would take `id`'s directory `path`, holding changes, out of
/// the worktree.
pub open spec fn changed_directory_error(id: Seq<char>, path: Seq<char>) -> ErrorView {
    ErrorView::Message("项目 `"@ + id + "`（"@ + path + "）存在已跟踪、暂存或未跟踪的本地修改；整个操作已取消"@)
}

/// Adding, removing and replacing never take a directory with changes out of the worktree,
/// nor keep it quietly: when a project that would leave has a known directory holding
/// tracked, staged or untracked changes, the whole change is refused, with the error of a
/// project that would leave (its changes, or why its state could not be read); and when every
/// such state was read, with the changes of the first changed project in ID order.
pub proof fn changes_refuse_changed_directories(
    w: &Workspace,
    kind: ChangeKind,
    explicit: Set<Seq<char>>,
    resolved: Set<Seq<char>>,
    dirt: Map<Seq<char>, Result<Dirtiness, Error>>,
    head: Result<Seq<char>, ErrorView>,
    files: Seq<Seq<char>>,
    r: Result<Plan, Error>,
    id: Seq<char>,
)
    requires
        kind != ChangeKind::Reconcile,
        completion(w, kind, explicit, resolved, dirt, head, files, r),
        would_leave(w, explicit, resolved, id),
        dir_of(w, id) is Some,
        dirt[id] is Ok && dirt[id]->Ok_0.blocking,
    ensures
        r is Err,
        exists|c: Seq<char>| #[trigger] would_leave(w, explicit, resolved, c) && dir_of(w, c) is Some && {
            ||| dirt[c] is Ok && dirt[c]->Ok_0.blocking
                && r->Err_0@ == changed_directory_error(c, dir_of(w, c)->0)
            ||| dirt[c] is Err && r->Err_0@ == dirt[c]->Err_0@
        },
        (forall|c: Seq<char>| #[trigger] would_leave(w, explicit, resolved, c) && dir_of(w, c) is Some ==> dirt[c] is Ok)
            ==> exists|c: Seq<char>| #[trigger] would_leave(w, explicit, resolved, c) && dir_of(w, c) is Some
                && dirt[c] is Ok && dirt[c]->Ok_0.blocking
                && r->Err_0@ == changed_directory_error(c, dir_of(w, c)->0)
                && forall|o: Seq<char>| #[trigger] would_leave(w, explicit, resolved, o) && dir_of(w, o) is Some
                    && dirt[o] is Ok && dirt[o]->Ok_0.blocking ==> o == c || crate::order::text_lt(c, o),
{
    let cands = candidates(w, explicit, resolved);
    assert forall|c: Seq<char>| #[trigger] cands.contains(c) <==> would_leave(w, explicit, resolved, c) by {}
    assert(cands.contains(id) && stops_at(w, kind, dirt, id));
    assert(stopped_by_changes(w, kind, explicit, resolved, dirt));
    let e = r->Err_0;
    let (q, i) = choose|q: Seq<Seq<char>>, i: int| strictly_sorted(q)
        && q.to_set() == candidates(w, explicit, resolved) && first_stop_at(w, kind, dirt, q, i)
        && e@ == stop_error(w, dirt, q[i]);
    let c = q[i];
    assert(q.to_set().contains(c));
    assert(would_leave(w, explicit, resolved, c));
    if forall|o: Seq<char>| #[trigger] would_leave(w, explicit, resolved, o) && dir_of(w, o) is Some ==> dirt[o] is Ok {
        assert(dirt[c] is Ok);
        assert forall|o: Seq<char>| #[trigger] would_leave(w, explicit, resolved, o) && dir_of(w, o) is Some
            && dirt[o] is Ok && dirt[o]->Ok_0.blocking implies o == c || crate::order::text_lt(c, o) by {
            assert(cands.contains(o));
            assert(q.to_set().contains(o));
            let k = choose|k: int| 0 <= k < q.len() && q[k] == o;
            if k < i {
                assert(stops_at(w, kind, dirt, q[k]));
            } else if k > i {
                assert(crate::order::text_lt(q[i], q[k]));
            }
        }
    }
}

/// What each request does to the explicit selection: adding includes the requested
/// projects, removing excludes them, replacing keeps of the declared projects exactly the
/// requested ones, and reconciling keeps the selection.
pub proof fn selection_requests(w: &Workspace, projects: Set<Seq<char>>)
    ensures
        projects.subset_of(selection_after(w, ChangeKind::Add, projects)),
        w.state.explicit_projects@.subset_of(selection_after(w, ChangeKind::Add, projects)),
        selection_after(w, ChangeKind::Remove, projects).disjoint(projects),
        selection_after(w, ChangeKind::Remove, projects).subset_of(w.state.explicit_projects@),
        selection_after(w, ChangeKind::Replace, projects).filter(|id: Seq<char>| w.manifest.projects@.contains_key(id))
            == projects.filter(|id: Seq<char>| w.manifest.projects@.contains_key(id)),
        undeclared(w, w.state.explicit_projects@).subset_of(selection_after(w, ChangeKind::Replace, projects)),
        selection_after(w, ChangeKind::Reconcile, projects) == w.state.explicit_projects@,
{
    assert(selection_after(w, ChangeKind::Replace, projects).filter(|id: Seq<char>| w.manifest.projects@.contains_key(id))
        =~= projects.filter(|id: Seq<char>| w.manifest.projects@.contains_key(id)));
}


/// Asking for the same change again, once the first has been applied, leaves the explicit
/// selection as the first left it: adding, removing, replacing and reconciling are idempotent.
pub proof fn requests_are_idempotent(w: &Workspace, again: &Workspace, kind: ChangeKind, projects: Set<Seq<char>>)
    requires
        again.manifest.projects@ == w.manifest.projects@,
        again.state.explicit_projects@ == selection_after(w, kind, projects),
    ensures
        selection_after(again, kind, projects) == selection_after(w, kind, projects),
{
    match kind {
        ChangeKind::Add => {
            assert(selection_after(again, kind, projects) =~= selection_after(w, kind, projects));
        },
        ChangeKind::Remove => {
            assert(selection_after(again, kind, projects) =~= selection_after(w, kind, projects));
        },
        ChangeKind::Replace => {
            assert(undeclared(again, again.state.explicit_projects@)
                =~= undeclared(w, projects).union(undeclared(w, w.state.explicit_projects@)));
            assert(selection_after(again, kind, projects) =~= selection_after(w, kind, projects));
        },
        ChangeKind::Reconcile => {},
    }
}


/// What was read for planning a change.
#[derive(Debug)]
pub struct PlanFacts {
    /// The environment checks: host, Git, Buck2 and its pin, in that order.
    pub environment: Result<(), Error>,
    /// The tracked files.
    pub files: Result<Vec<String>, Error>,
    /// The dependency query from the available explicit selection.
    pub resolution: Result<DependencyResolution, Error>,
    /// Querying the `:workspace` targets that `Workspace::workspace_targets` lists, in order,
    /// stopping at the first not found.
    pub targets: Result<(), Error>,
    /// The state of each candidate's directory.
    pub dirt: TextMap<Result<Dirtiness, Error>>,
    /// `HEAD` as read after the candidates.
    pub head: Result<String, Error>,
}

/// The text form of a result that carries strings.
pub open spec fn strings_view(r: &Result<Vec<String>, Error>) -> Result<Seq<Seq<char>>, ErrorView> {
    match r {
        Ok(v) => Ok(views(v@)),
        Err(e) => Err(e@),
    }
}

/// The checks before the selection: the environment, then listing the tracked files.
pub open spec fn gate(env: Result<(), ErrorView>, files: Result<Seq<Seq<char>>, ErrorView>) -> Result<(), ErrorView> {
    match env {
        Err(e) => Err(e),
        Ok(()) => match files {
            Err(e) => Err(e),
            Ok(_) => Ok(()),
        },
    }
}

/// The tracked files, or none when they could not be listed.
pub open spec fn listed(files: Result<Seq<Seq<char>>, ErrorView>) -> Seq<Seq<char>> {
    match files {
        Ok(f) => f,
        Err(_) => Seq::empty(),
    }
}

/// The explicit selection that planning `request` reaches, if it gets that far.
pub open spec fn planned_selection(w: &Workspace, request: &ChangeRequest, facts: &PlanFacts) -> Result<Set<Seq<char>>, ErrorView> {
    selection_result(w, request, gate(unit_result_view(&facts.environment), strings_view(&facts.files)),
        listed(strings_view(&facts.files)))
}

/// The checks before the selection, from what was read (the environment, then listing the
/// tracked files), and the tracked files, or none when they could not be listed.
pub fn selection_inputs(environment: &Result<(), Error>, files: &Result<Vec<String>, Error>) -> (r: (Result<(), Error>, Vec<String>))
    ensures
        unit_result_view(&r.0) == gate(unit_result_view(environment), strings_view(files)),
        views(r.1@) == listed(strings_view(files)),
{
    let checked = match environment {
        Err(e) => Err(e.duplicate()),
        Ok(()) => match files {
            Err(e) => Err(e.duplicate()),
            Ok(_) => Ok(()),
        },
    };
    let list = match files {
        Ok(f) => copy_texts(f),
        Err(_) => Vec::new(),
    };
    proof {
        if files is Err {
            assert(views(list@) =~= Seq::<Seq<char>>::empty());
        }
    }
    (checked, list)
}

/// What planning a change answers, step by step.
pub open spec fn plan_outcome(w: &Workspace, request: &ChangeRequest, facts: &PlanFacts, r: Result<Plan, Error>) -> bool {
    match planned_selection(w, request, facts) {
        Err(e) => r matches Err(x) && x@ == e,
        Ok(explicit) => match facts.resolution {
            Err(e) => r matches Err(x) && x@ == e@,
            Ok(d) => if d.unknown_root_packages.elems().len() > 0 {
                r matches Err(x) && x@ == unknown_packages_error(d.unknown_root_packages.elems())
            } else if facts.targets is Err {
                r matches Err(x) && x@ == facts.targets->Err_0@
            } else if first_outside(d.projects.elems(), w.manifest.projects@.dom()) is Some {
                r matches Err(x) && x@ == outside_manifest_error(first_outside(d.projects.elems(), w.manifest.projects@.dom())->0)
            } else {
                completion(w, request.kind, explicit, d.projects@, facts.dirt@, string_result_view(&facts.head),
                    listed(strings_view(&facts.files)), r)
            },
        },
    }
}

impl Workspace {
    /// Plans a change from everything that was read for it. The caller learns what to read
    /// from the steps: `plan_selection` (the selection), `available_selection` and
    /// `crate::buck::resolve_query` (the query), `workspace_targets` (the targets to query, in
    /// order, stopping at the first that is not found)
    /// and `removal_candidates` (the directories to inspect).
    pub fn plan(&self, request: &ChangeRequest, facts: PlanFacts) -> (r: Result<Plan, Error>)
        requires
            self.wf(),
            request.projects.wf(),
            facts.dirt.wf(),
            facts.resolution matches Ok(d) ==> d.projects.wf() && d.unknown_root_packages.wf(),
            (planned_selection(self, request, &facts) is Ok && facts.resolution is Ok)
                ==> forall|id: Seq<char>| #[trigger] candidates(self, planned_selection(self, request, &facts)->Ok_0,
                    facts.resolution->Ok_0.projects@).contains(id)
                    && dir_of(self, id) is Some ==> facts.dirt@.contains_key(id),
        ensures
            plan_outcome(self, request, &facts, r),
    {
        let ghost f0 = facts;
        let checks: Result<(), Error> = match facts.environment {
            Err(e) => Err(e),
            Ok(()) => match &facts.files {
                Err(e) => Err(e.duplicate()),
                Ok(_) => Ok(()),
            },
        };
        let tracked_files: Vec<String> = match facts.files {
            Ok(f) => f,
            Err(_) => Vec::new(),
        };
        assert(views(tracked_files@) =~= listed(strings_view(&f0.files)));
        assert(unit_result_view(&checks) == gate(unit_result_view(&f0.environment), strings_view(&f0.files)));
        let explicit = match self.plan_selection(request, checks, &tracked_files) {
            Ok(x) => x,
            Err(e) => return Err(e),
        };
        let d = match facts.resolution {
            Ok(d) => d,
            Err(e) => return Err(e),
        };
        match self.check_resolution(&d, facts.targets) {
            Ok(()) => {},
            Err(e) => return Err(e),
        }
        assert(planned_selection(self, request, &f0) == Ok::<Set<Seq<char>>, ErrorView>(explicit@));
        assert(f0.resolution matches Ok(d0) && d0.projects@ == d.projects@);
        assert(facts.dirt@ == f0.dirt@);
        proof {
            let ex = planned_selection(self, request, &f0)->Ok_0;
            let d0 = f0.resolution->Ok_0;
            assert(forall|id: Seq<char>| #[trigger] candidates(self, ex, d0.projects@).contains(id)
                && dir_of(self, id) is Some ==> f0.dirt@.contains_key(id));
        }
        self.complete_plan(request.kind, explicit, d.projects, &facts.dirt, facts.head, &tracked_files)
    }
}

}
