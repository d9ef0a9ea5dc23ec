//! A worktree with its manifest and state: what it shows, and how a change is planned and applied.
use vstd::prelude::*;

use crate::collections::{TextMap, TextSet};
use crate::error::{message3, Error, ErrorView};
use crate::git::{Git, SparseSnapshot};
use crate::manifest::{Manifest, Project};
use crate::state::{LoadedState, State};
use crate::text::{concat2, eq_ignore_case, join, joined, owned, same_ignoring_case, split_on, views};

verus! {

/// What a change request asks for.
#[derive(Clone, Copy, Debug, PartialEq, Eq)]
pub enum ChangeKind {
    Add,
    Remove,
    Replace,
    Reconcile,
}

/// A requested change of the explicit selection.
#[derive(Debug)]
pub struct ChangeRequest {
    pub kind: ChangeKind,
    pub projects: TextSet,
}

/// A planned change: the new selection, what it checks out and removes, and what
/// applying it must find unchanged.
#[derive(Debug)]
pub struct Plan {
    pub command: ChangeKind,
    pub explicit_projects: TextSet,
    pub resolved_projects: TextSet,
    pub retained_projects: TextMap<String>,
    pub added_projects: TextSet,
    pub removed_projects: TextSet,
    pub warnings: Vec<String>,
    pub next_state: State,
    pub sparse_patterns: String,
    pub expected_head: String,
    pub expected_state: State,
    pub old_sparse: SparseSnapshot,
}

impl Plan {
    /// Whether applying the plan adds or removes a project.
    pub fn changes_worktree(&self) -> (b: bool)
        requires
            self.added_projects.wf(),
            self.removed_projects.wf(),
        ensures
            b == (self.added_projects@ != Set::<Seq<char>>::empty()
                || self.removed_projects@ != Set::<Seq<char>>::empty()),
    {
        !self.added_projects.is_empty() || !self.removed_projects.is_empty()
    }
}

/// An applied plan and the warnings that came with it.
#[derive(Debug)]
pub struct ApplyOutcome {
    pub plan: Plan,
    pub warnings: Vec<String>,
}

/// How one project stands in this worktree.
#[derive(Debug)]
pub struct ProjectStatus {
    pub id: String,
    pub path: Option<String>,
    pub description: String,
    pub status: String,
    pub reason: Option<String>,
}

/// A worktree, its manifest and its state.
#[derive(Debug)]
pub struct Workspace {
    pub git: Git,
    pub manifest: Manifest,
    pub state: State,
    pub warnings: Vec<String>,
    pub state_mutation_supported: bool,
    pub state_exists: bool,
    pub sparse: SparseSnapshot,
}

/// The message for an input that names no project.
pub open spec fn unknown_project_error(input: Seq<char>) -> ErrorView {
    ErrorView::Message("未知项目 `"@ + input + "`；可使用 `fls list` 查看项目 ID"@)
}

impl Workspace {
    pub open spec fn wf(&self) -> bool {
        &&& self.manifest.wf()
        &&& self.state.wf()
    }

    pub open spec fn spec_state_exists(&self) -> bool {
        self.state_exists
    }

    pub open spec fn spec_state_mutation_supported(&self) -> bool {
        self.state_mutation_supported
    }

    pub open spec fn spec_sparse(&self) -> SparseSnapshot {
        self.sparse
    }

    /// Opens a worktree from what was read of it: its manifest, its sparse-checkout rules and
    /// its state file. Without a state file, the projects the rules check out whole are taken
    /// as the explicit selection, at `head`.
    pub fn open(
        git: Git,
        manifest: Manifest,
        sparse: SparseSnapshot,
        loaded: LoadedState,
        head: Result<String, Error>,
    ) -> (r: Result<Workspace, Error>)
        requires
            manifest.wf(),
            loaded.state matches Some(s) ==> s.wf(),
        ensures
            r is Err <==> loaded.state is None && head is Err,
            r matches Err(e) ==> head matches Err(h) && e@ == h@,
            r matches Ok(w) ==> {
                &&& w.wf()
                &&& w.git == git
                &&& views(w.warnings@) == views(manifest.warnings@) + views(loaded.warnings@)
                &&& w.spec_state_exists() == loaded.state is Some
                &&& w.spec_state_mutation_supported() == loaded.mutation_supported
                &&& w.spec_sparse() == sparse
                &&& w.manifest.projects@ == manifest.projects@
                &&& w.manifest.projects.keys() == manifest.projects.keys()
                &&& w.manifest.mutation_supported == manifest.mutation_supported
                &&& w.manifest.schema_version == manifest.schema_version
                &&& match loaded.state {
                    Some(s) => {
                        &&& w.state.schema_version == s.schema_version
                        &&& w.state.explicit_projects == s.explicit_projects
                        &&& w.state.resolved_projects == s.resolved_projects
                        &&& w.state.retained_projects == s.retained_projects
                        &&& w.state.resolved_at_head == s.resolved_at_head
                        &&& w.state.known_project_paths.text_view() == manifest_paths(&manifest).union_prefer_right(
                            s.known_project_paths.text_view())
                    },
                    None => {
                        &&& w.state.schema_version == crate::state::CURRENT_SCHEMA
                        &&& w.state.explicit_projects@ == inferred(&manifest, &sparse)
                        &&& w.state.resolved_projects@ == inferred(&manifest, &sparse)
                        &&& w.state.retained_projects@ == Map::<Seq<char>, String>::empty()
                        &&& w.state.known_project_paths.text_view() == manifest_paths(&manifest)
                        &&& head matches Ok(h) && w.state.resolved_at_head@ == h@
                    },
                }
            },
    {
        let mut warnings: Vec<String> = Vec::new();
        let mut i: usize = 0;
        while i < manifest.warnings.len()
            invariant
                i <= manifest.warnings.len(),
                views(warnings@) == views(manifest.warnings@).take(i as int),
            decreases manifest.warnings.len() - i,
        {
            let ghost before = warnings@;
            warnings.push(manifest.warnings[i].clone());
            proof {
                crate::text::lemma_views_push(before, manifest.warnings@[i as int]);
                assert(views(manifest.warnings@).take(i + 1) =~= views(manifest.warnings@).take(i as int).push(manifest.warnings@[i as int]@));
            }
            i = i + 1;
        }
        let mut j: usize = 0;
        while j < loaded.warnings.len()
            invariant
                i == manifest.warnings.len(),
                j <= loaded.warnings.len(),
                views(warnings@) == views(manifest.warnings@) + views(loaded.warnings@).take(j as int),
            decreases loaded.warnings.len() - j,
        {
            let ghost before = warnings@;
            warnings.push(loaded.warnings[j].clone());
            proof {
                crate::text::lemma_views_push(before, loaded.warnings@[j as int]);
                assert(views(loaded.warnings@).take(j + 1) =~= views(loaded.warnings@).take(j as int).push(loaded.warnings@[j as int]@));
                assert(views(warnings@) =~= views(manifest.warnings@) + views(loaded.warnings@).take(j + 1));
            }
            j = j + 1;
        }
        assert(views(manifest.warnings@).take(i as int) =~= views(manifest.warnings@));
        assert(views(loaded.warnings@).take(j as int) =~= views(loaded.warnings@));
        let state_exists = loaded.state.is_some();
        let state_mutation_supported = loaded.mutation_supported;
        let known = manifest.known_paths();
        let state = match loaded.state {
            Some(mut s) => {
                let mut merged = known;
                merged.extend(&s.known_project_paths);
                proof {
                    assert(merged.text_view() =~= manifest_paths(&manifest).union_prefer_right(
                        s.known_project_paths.text_view()));
                }
                s.known_project_paths = merged;
                s
            },
            None => {
                assert(known.text_view() =~= manifest_paths(&manifest));
                match Self::adopt_state(&git, &manifest, &sparse, known, head) {
                    Ok(s) => s,
                    Err(e) => return Err(e),
                }
            },
        };
        Ok(Workspace {
            git,
            manifest,
            state,
            warnings,
            state_mutation_supported,
            state_exists,
            sparse,
        })
    }

    /// The state of a worktree without a state file: the projects its rules check out whole
    /// are taken as selected, at `head` (as read).
    fn adopt_state(
        git: &Git,
        manifest: &Manifest,
        sparse: &SparseSnapshot,
        known: TextMap<String>,
        head: Result<String, Error>,
    ) -> (r: Result<State, Error>)
        requires
            manifest.wf(),
            known.wf(),
            known.text_view() == manifest_paths(manifest),
        ensures
            r is Err <==> head is Err,
            r matches Err(e) ==> head matches Err(h) && e@ == h@,
            r matches Ok(s) ==> {
                &&& s.wf()
                &&& s.schema_version == crate::state::CURRENT_SCHEMA
                &&& s.explicit_projects@ == inferred(manifest, sparse)
                &&& s.resolved_projects@ == inferred(manifest, sparse)
                &&& s.retained_projects@ == Map::<Seq<char>, String>::empty()
                &&& s.known_project_paths.text_view() == manifest_paths(manifest)
                &&& head matches Ok(h) && s.resolved_at_head@ == h@
            },
    {
        let selected = git.inferred_materialized_projects(manifest, sparse);
        let mut s = State::current();
        s.explicit_projects = selected.duplicate();
        s.resolved_projects = selected;
        s.known_project_paths = known;
        s.resolved_at_head = match head {
            Ok(h) => h,
            Err(e) => return Err(e),
        };
        Ok(s)
    }

    /// Whether a state file was read.
    pub fn state_exists(&self) -> (b: bool)
        ensures
            b == self.spec_state_exists(),
    {
        self.state_exists
    }

    /// Whether the state's schema allows changing the worktree.
    pub fn state_mutation_supported(&self) -> (b: bool)
        ensures
            b == self.spec_state_mutation_supported(),
    {
        self.state_mutation_supported
    }

    /// The sparse-checkout rules as read.
    pub fn sparse_snapshot(&self) -> (r: &SparseSnapshot)
        ensures
            *r == self.spec_sparse(),
    {
        &self.sparse
    }

    /// Every project of the manifest.
    pub fn all_projects(&self) -> (r: TextSet)
        requires
            self.wf(),
        ensures
            r.wf(),
            r@ == self.manifest.projects@.dom(),
    {
        let entries = self.manifest.projects.entries();
        let mut v: Vec<String> = Vec::new();
        let mut i: usize = 0;
        while i < entries.len()
            invariant
                entries@.map_values(|e: (String, Project)| e.0@) == self.manifest.projects.keys(),
                i <= entries.len(),
                views(v@) == self.manifest.projects.keys().take(i as int),
            decreases entries.len() - i,
        {
            let ghost before = v@;
            v.push(entries[i].0.clone());
            proof {
                crate::text::lemma_views_push(before, entries@[i as int].0);
                assert(self.manifest.projects.keys()[i as int] == entries@[i as int].0@);
                assert(views(v@) =~= self.manifest.projects.keys().take(i + 1));
            }
            i = i + 1;
        }
        assert(self.manifest.projects.keys().take(i as int) =~= self.manifest.projects.keys());
        let r = TextSet::from_vec(&v);
        proof {
            self.manifest.projects.lemma_view_dom();
        }
        r
    }

    /// The manifest IDs that the inputs name (without ASCII case).
    pub fn resolve_inputs(&self, inputs: &Vec<String>) -> (r: Result<TextSet, Error>)
        requires
            self.wf(),
        ensures
            r is Ok <==> forall|i: int| 0 <= i < inputs.len() ==> names_project(&self.manifest, #[trigger] views(inputs@)[i]),
            r matches Err(e) ==> exists|i: int| 0 <= i < inputs.len()
                && !names_project(&self.manifest, views(inputs@)[i])
                && (forall|j: int| 0 <= j < i ==> names_project(&self.manifest, #[trigger] views(inputs@)[j]))
                && e@ == unknown_project_error(views(inputs@)[i]),
            r matches Ok(s) ==> s.wf() && forall|x: Seq<char>| #[trigger] s@.contains(x) <==> exists|i: int|
                0 <= i < inputs.len() && first_id_match(self.manifest.projects.keys(), views(inputs@)[i], x),
    {
        let mut result = TextSet::new();
        let mut i: usize = 0;
        while i < inputs.len()
            invariant
                self.wf(),
                i <= inputs.len(),
                result.wf(),
                forall|j: int| 0 <= j < i ==> names_project(&self.manifest, #[trigger] views(inputs@)[j]),
                forall|x: Seq<char>| #[trigger] result@.contains(x) <==> exists|j: int|
                    0 <= j < i && first_id_match(self.manifest.projects.keys(), views(inputs@)[j], x),
            decreases inputs.len() - i,
        {
            let input = &inputs[i];
            assert(views(inputs@)[i as int] == input@);
            match self.manifest.resolve_id(input.as_str()) {
                Some(id) => {
                    let ghost k = choose|k: int| 0 <= k < self.manifest.projects.keys().len()
                        && self.manifest.projects.keys()[k] == id@ && same_ignoring_case(self.manifest.projects.keys()[k], input@)
                        && forall|j: int| 0 <= j < k ==> !same_ignoring_case(#[trigger] self.manifest.projects.keys()[j], input@);
                    result.insert(owned(id));
                    proof {
                        assert(names_project(&self.manifest, input@)) by {
                            assert(same_ignoring_case(self.manifest.projects.keys()[k], input@));
                        }
                        assert forall|x: Seq<char>| #[trigger] result@.contains(x) <==> exists|j: int|
                            0 <= j < i + 1 && first_id_match(self.manifest.projects.keys(), views(inputs@)[j], x) by {
                            if x == id@ {
                                assert(first_id_match(self.manifest.projects.keys(), views(inputs@)[i as int], x));
                            }
                            if exists|j: int| 0 <= j < i + 1 && first_id_match(self.manifest.projects.keys(), views(inputs@)[j], x) {
                                let j = choose|j: int| 0 <= j < i + 1 && first_id_match(self.manifest.projects.keys(), views(inputs@)[j], x);
                                if j == i {
                                    lemma_first_id_match_unique(self.manifest.projects.keys(), input@, x, id@);
                                }
                            }
                        }
                    }
                },
                None => {
                    return Err(message3("未知项目 `", input.as_str(), "`；可使用 `fls list` 查看项目 ID"));
                },
            }
            i = i + 1;
        }
        Ok(result)
    }

    /// Like `resolve_inputs`, but an input may also name an explicit selection that the
    /// manifest no longer knows.
    pub fn resolve_removal_inputs(&self, inputs: &Vec<String>) -> (r: Result<TextSet, Error>)
        requires
            self.wf(),
        ensures
            r is Ok <==> forall|i: int| 0 <= i < inputs.len() ==> removal_target(self, #[trigger] views(inputs@)[i]) is Some,
            r matches Err(e) ==> exists|i: int| 0 <= i < inputs.len()
                && removal_target(self, views(inputs@)[i]) is None
                && (forall|j: int| 0 <= j < i ==> removal_target(self, #[trigger] views(inputs@)[j]) is Some)
                && e@ == unknown_project_error(views(inputs@)[i]),
            r matches Ok(s) ==> s.wf() && forall|x: Seq<char>| #[trigger] s@.contains(x) <==> exists|i: int|
                0 <= i < inputs.len() && removal_target(self, #[trigger] views(inputs@)[i]) == Some(x),
    {
        let explicit = self.state.explicit_projects.to_vec();
        let mut result = TextSet::new();
        let mut i: usize = 0;
        while i < inputs.len()
            invariant
                self.wf(),
                views(explicit@) == self.state.explicit_projects.elems(),
                i <= inputs.len(),
                result.wf(),
                forall|j: int| 0 <= j < i ==> removal_target(self, #[trigger] views(inputs@)[j]) is Some,
                forall|x: Seq<char>| #[trigger] result@.contains(x) <==> exists|j: int|
                    0 <= j < i && removal_target(self, #[trigger] views(inputs@)[j]) == Some(x),
            decreases inputs.len() - i,
        {
            let input = &inputs[i];
            assert(views(inputs@)[i as int] == input@);
            let found: String = match self.manifest.resolve_id(input.as_str()) {
                Some(id) => {
                    let ghost k = choose|k: int| 0 <= k < self.manifest.projects.keys().len()
                        && self.manifest.projects.keys()[k] == id@ && same_ignoring_case(self.manifest.projects.keys()[k], input@)
                        && forall|j: int| 0 <= j < k ==> !same_ignoring_case(#[trigger] self.manifest.projects.keys()[j], input@);
                    proof {
                        assert(first_id_match(self.manifest.projects.keys(), input@, id@));
                        assert(names_project(&self.manifest, input@));
                        let w = choose|w: Seq<char>| first_id_match(self.manifest.projects.keys(), input@, w);
                        lemma_first_id_match_unique(self.manifest.projects.keys(), input@, w, id@);
                    }
                    owned(id)
                },
                None => {
                    let mut k: usize = 0;
                    let mut hit: Option<String> = None;
                    while k < explicit.len()
                        invariant
                            views(explicit@) == self.state.explicit_projects.elems(),
                            k <= explicit.len(),
                            hit is None ==> forall|j: int| 0 <= j < k ==> !same_ignoring_case(#[trigger] self.state.explicit_projects.elems()[j], input@),
                            hit matches Some(h) ==> first_id_match(self.state.explicit_projects.elems(), input@, h@),
                        decreases explicit.len() - k,
                    {
                        assert(self.state.explicit_projects.elems()[k as int] == explicit@[k as int]@);
                        if hit.is_none() && eq_ignore_case(explicit[k].as_str(), input.as_str()) {
                            hit = Some(explicit[k].clone());
                            assert(first_id_match(self.state.explicit_projects.elems(), input@, explicit@[k as int]@));
                        }
                        k = k + 1;
                    }
                    proof {
                        if hit is Some {
                            let h = hit->0@;
                            assert(!exists|w: Seq<char>| first_id_match(self.manifest.projects.keys(), input@, w)) by {
                                if exists|w: Seq<char>| first_id_match(self.manifest.projects.keys(), input@, w) {
                                    let w = choose|w: Seq<char>| first_id_match(self.manifest.projects.keys(), input@, w);
                                    let m = choose|m: int| 0 <= m < self.manifest.projects.keys().len()
                                        && #[trigger] self.manifest.projects.keys()[m] == w && same_ignoring_case(w, input@)
                                        && forall|j: int| 0 <= j < m ==> !same_ignoring_case(#[trigger] self.manifest.projects.keys()[j], input@);
                                    assert(same_ignoring_case(self.manifest.projects.keys()[m], input@));
                                }
                            }
                            let w = choose|w: Seq<char>| first_id_match(self.state.explicit_projects.elems(), input@, w);
                            lemma_first_id_match_unique(self.state.explicit_projects.elems(), input@, w, h);
                        }
                    }
                    match hit {
                        Some(h) => h,
                        None => {
                            proof {
                                if exists|w: Seq<char>| first_id_match(self.manifest.projects.keys(), input@, w) {
                                    let w = choose|w: Seq<char>| first_id_match(self.manifest.projects.keys(), input@, w);
                                    let m = choose|m: int| 0 <= m < self.manifest.projects.keys().len()
                                        && #[trigger] self.manifest.projects.keys()[m] == w && same_ignoring_case(w, input@)
                                        && forall|j: int| 0 <= j < m ==> !same_ignoring_case(#[trigger] self.manifest.projects.keys()[j], input@);
                                    assert(same_ignoring_case(self.manifest.projects.keys()[m], input@));
                                }
                                if exists|w: Seq<char>| first_id_match(self.state.explicit_projects.elems(), input@, w) {
                                    let w = choose|w: Seq<char>| first_id_match(self.state.explicit_projects.elems(), input@, w);
                                    let m = choose|m: int| 0 <= m < self.state.explicit_projects.elems().len()
                                        && #[trigger] self.state.explicit_projects.elems()[m] == w
                                        && same_ignoring_case(w, input@)
                                        && forall|j: int| 0 <= j < m ==> !same_ignoring_case(#[trigger] self.state.explicit_projects.elems()[j], input@);
                                }
                            }
                            return Err(message3("未知项目 `", input.as_str(), "`；可使用 `fls list` 查看项目 ID"));
                        },
                    }
                },
            };
            let ghost fv = found@;
            result.insert(found);
            proof {
                assert(removal_target(self, input@) == Some(fv));
                assert forall|x: Seq<char>| #[trigger] result@.contains(x) <==> exists|j: int|
                    0 <= j < i + 1 && removal_target(self, #[trigger] views(inputs@)[j]) == Some(x) by {
                    if x == fv {
                        assert(removal_target(self, views(inputs@)[i as int]) == Some(x));
                    }
                }
            }
            i = i + 1;
        }
        Ok(result)
    }

    /// The directory of a project: from the manifest, else from the remembered paths.
    pub fn project_path(&self, id: &str) -> (r: Option<String>)
        requires
            self.wf(),
        ensures
            r matches Some(p) ==> crate::git::project_dir(&self.manifest, self.state.known_project_paths.text_view(), id@) == Some(p@),
            r is None ==> crate::git::project_dir(&self.manifest, self.state.known_project_paths.text_view(), id@) is None,
    {
        match self.manifest.projects.get(id) {
            Some(p) => Some(p.path.clone()),
            None => match self.state.known_project_paths.get(id) {
                Some(p) => Some(p.clone()),
                None => None,
            },
        }
    }

    /// Refuses when a registered project has no tracked file in `files` (the tracked files).
    pub fn validate_registered_paths(&self, files: &Vec<String>) -> (r: Result<(), Error>)
        requires
            self.wf(),
        ensures
            r is Ok <==> unregistered_paths(self, views(files@)).len() == 0,
            r matches Err(e) ==> e@ == ErrorView::Message("以下登记项目没有任何被 Git 跟踪的文件："@
                + joined(unregistered_paths(self, views(files@)), ", "@)),
    {
        let top = self.git.top_level_directories(files);
        let entries = self.manifest.projects.entries();
        let ghost vals = self.manifest.projects.values();
        let ghost pred = in_top(self, views(files@));
        let mut missing: Vec<String> = Vec::new();
        let mut i: usize = 0;
        while i < entries.len()
            invariant
                self.wf(),
                top.wf(),
                vals == self.manifest.projects.values(),
                pred == in_top(self, views(files@)),
                entries@.map_values(|e: (String, Project)| e.1) == vals,
                i <= entries.len(),
                forall|x: Seq<char>| #[trigger] top@.contains(x) <==> exists|j: int| 0 <= j < files.len()
                    && (#[trigger] views(files@)[j]).contains('/') && split_on(views(files@)[j], '/')[0] == x,
                views(missing@) == vals.take(i as int).map_values(|p: Project| p.path@).filter(pred),
            decreases entries.len() - i,
        {
            let p = &entries[i].1;
            proof {
                assert(vals[i as int] == *p);
                let m = vals.take(i as int).map_values(|p: Project| p.path@);
                assert(vals.take(i + 1).map_values(|p: Project| p.path@) =~= m.push(p.path@));
                m.lemma_filter_push(p.path@, pred);
            }
            if !top.contains(p.path.as_str()) {
                missing.push(p.path.clone());
            }
            proof {
                assert(pred(p.path@) == !top@.contains(p.path@));
                assert(views(missing@) =~= vals.take(i + 1).map_values(|p: Project| p.path@).filter(pred));
            }
            i = i + 1;
        }
        assert(vals.take(i as int) =~= vals);
        if missing.len() > 0 {
            let list = join(&missing, ", ");
            return Err(Error::Message(concat2("以下登记项目没有任何被 Git 跟踪的文件：", list.as_str())));
        }
        Ok(())
    }
}

/// Each manifest project's ID mapped to its path.
pub open spec fn manifest_paths(m: &Manifest) -> Map<Seq<char>, Seq<char>> {
    Map::new(|k: Seq<char>| m.projects@.contains_key(k), |k: Seq<char>| m.projects@[k].path@)
}

/// The projects that the sparse-checkout rules check out whole (all, when they are off).
pub open spec fn inferred(m: &Manifest, sparse: &SparseSnapshot) -> Set<Seq<char>> {
    if !sparse.enabled {
        m.projects@.dom()
    } else {
        Set::new(|x: Seq<char>| m.projects@.contains_key(x)
            && exists|k: int| 0 <= k < split_on(sparse.patterns@, '\n').len()
                && crate::git::full_directory_rule(#[trigger] split_on(sparse.patterns@, '\n')[k]) == Some(m.projects@[x].path@))
    }
}

/// `x` is the first text of `ids` equal to `input` without ASCII case.
pub open spec fn first_id_match(ids: Seq<Seq<char>>, input: Seq<char>, x: Seq<char>) -> bool {
    exists|k: int| 0 <= k < ids.len() && #[trigger] ids[k] == x && same_ignoring_case(x, input)
        && forall|j: int| 0 <= j < k ==> !same_ignoring_case(#[trigger] ids[j], input)
}

/// Some manifest ID equals `input` without ASCII case.
pub open spec fn names_project(m: &Manifest, input: Seq<char>) -> bool {
    exists|k: int| 0 <= k < m.projects.keys().len() && same_ignoring_case(#[trigger] m.projects.keys()[k], input)
}

/// The project a removal input names: a manifest ID, else an explicit selection.
pub open spec fn removal_target(w: &Workspace, input: Seq<char>) -> Option<Seq<char>> {
    if exists|x: Seq<char>| first_id_match(w.manifest.projects.keys(), input, x) {
        Some(choose|x: Seq<char>| first_id_match(w.manifest.projects.keys(), input, x))
    } else if exists|x: Seq<char>| first_id_match(w.state.explicit_projects.elems(), input, x) {
        Some(choose|x: Seq<char>| first_id_match(w.state.explicit_projects.elems(), input, x))
    } else {
        None
    }
}

pub proof fn lemma_first_id_match_unique(ids: Seq<Seq<char>>, input: Seq<char>, x: Seq<char>, y: Seq<char>)
    requires
        first_id_match(ids, input, x),
        first_id_match(ids, input, y),
    ensures
        x == y,
{
    let kx = choose|k: int| 0 <= k < ids.len() && #[trigger] ids[k] == x && same_ignoring_case(x, input)
        && forall|j: int| 0 <= j < k ==> !same_ignoring_case(#[trigger] ids[j], input);
    let ky = choose|k: int| 0 <= k < ids.len() && #[trigger] ids[k] == y && same_ignoring_case(y, input)
        && forall|j: int| 0 <= j < k ==> !same_ignoring_case(#[trigger] ids[j], input);
    if kx < ky {
        assert(!same_ignoring_case(ids[kx], input));
    } else if ky < kx {
        assert(!same_ignoring_case(ids[ky], input));
    }
}

/// Whether a project path has no tracked file under it.
pub open spec fn in_top(w: &Workspace, files: Seq<Seq<char>>) -> spec_fn(Seq<char>) -> bool {
    |path: Seq<char>| !exists|j: int| 0 <= j < files.len() && (#[trigger] files[j]).contains('/')
        && split_on(files[j], '/')[0] == path
}

/// The paths of registered projects, in ID order, that no tracked file lies under.
pub open spec fn unregistered_paths(w: &Workspace, files: Seq<Seq<char>>) -> Seq<Seq<char>> {
    w.manifest.projects.values().map_values(|p: Project| p.path@).filter(in_top(w, files))
}

}
