//! The worktree's local selection state (`<git-dir>/fls/state.toml`).
use vstd::prelude::*;

use crate::collections::{TextMap, TextSet};
use crate::text::{concat3, decimal, decimal_text, owned, views};

verus! {

pub const CURRENT_SCHEMA: u32 = 1;
pub const PREVIOUS_SCHEMA: u32 = 0;

/// What this worktree has selected and why each project is checked out.
#[derive(Debug)]
pub struct State {
    pub schema_version: u32,
    pub explicit_projects: TextSet,
    pub resolved_projects: TextSet,
    pub retained_projects: TextMap<String>,
    pub known_project_paths: TextMap<String>,
    pub resolved_at_head: String,
}

/// The state as read from disk, with what its schema means.
#[derive(Debug)]
pub struct LoadedState {
    pub state: Option<State>,
    pub warnings: Vec<String>,
    pub mutation_supported: bool,
}

impl State {
    pub open spec fn wf(&self) -> bool {
        &&& self.explicit_projects.wf()
        &&& self.resolved_projects.wf()
        &&& self.retained_projects.wf()
        &&& self.known_project_paths.wf()
    }

    /// Everything a state says, as texts.
    pub open spec fn same_content(&self, other: &State) -> bool {
        &&& self.schema_version == other.schema_version
        &&& self.explicit_projects@ == other.explicit_projects@
        &&& self.resolved_projects@ == other.resolved_projects@
        &&& self.retained_projects.text_view() == other.retained_projects.text_view()
        &&& self.known_project_paths.text_view() == other.known_project_paths.text_view()
        &&& self.resolved_at_head@ == other.resolved_at_head@
    }

    /// An empty state of the current schema.
    pub fn current() -> (s: State)
        ensures
            s.wf(),
            s.schema_version == CURRENT_SCHEMA,
            s.explicit_projects@ == Set::<Seq<char>>::empty(),
            s.resolved_projects@ == Set::<Seq<char>>::empty(),
            s.retained_projects@ == Map::<Seq<char>, String>::empty(),
            s.known_project_paths@ == Map::<Seq<char>, String>::empty(),
            s.resolved_at_head@ == Seq::<char>::empty(),
    {
        State {
            schema_version: CURRENT_SCHEMA,
            explicit_projects: TextSet::new(),
            resolved_projects: TextSet::new(),
            retained_projects: TextMap::new(),
            known_project_paths: TextMap::new(),
            resolved_at_head: String::new(),
        }
    }

    /// The projects this state keeps in the worktree: the resolved ones and the retained ones.
    pub fn materialized_projects(&self) -> (r: TextSet)
        requires
            self.wf(),
        ensures
            r.wf(),
            r@ == self.resolved_projects@.union(self.retained_projects@.dom()),
    {
        let mut r = self.resolved_projects.duplicate();
        let entries = self.retained_projects.entries();
        let mut i: usize = 0;
        while i < entries.len()
            invariant
                r.wf(),
                self.wf(),
                entries@.map_values(|e: (String, String)| e.0@) == self.retained_projects.keys(),
                i <= entries.len(),
                r@ == self.resolved_projects@.union(self.retained_projects.keys().take(i as int).to_set()),
            decreases entries.len() - i,
        {
            r.insert(entries[i].0.clone());
            proof {
                broadcast use Seq::lemma_push_to_set_commute;
                let ks = self.retained_projects.keys();
                assert(ks[i as int] == entries@[i as int].0@);
                assert(ks.take(i + 1) =~= ks.take(i as int).push(ks[i as int]));
                assert(r@ =~= self.resolved_projects@.union(ks.take(i + 1).to_set()));
            }
            i = i + 1;
        }
        proof {
            let ks = self.retained_projects.keys();
            assert(ks.take(i as int) =~= ks);
            self.retained_projects.lemma_view_dom();
        }
        r
    }

    /// Whether both states say the same.
    pub fn same_as(&self, other: &State) -> (b: bool)
        requires
            self.wf(),
            other.wf(),
        ensures
            b == self.same_content(other),
    {
        self.schema_version == other.schema_version
            && self.explicit_projects.same_members(&other.explicit_projects)
            && self.resolved_projects.same_members(&other.resolved_projects)
            && self.retained_projects.same_entries(&other.retained_projects)
            && self.known_project_paths.same_entries(&other.known_project_paths)
            && self.resolved_at_head == other.resolved_at_head
    }

    /// A copy of the state.
    pub fn duplicate(&self) -> (r: State)
        requires
            self.wf(),
        ensures
            r.wf(),
            r.same_content(self),
            r.explicit_projects.elems() == self.explicit_projects.elems(),
            r.resolved_projects.elems() == self.resolved_projects.elems(),
            r.retained_projects@ == self.retained_projects@,
            r.known_project_paths@ == self.known_project_paths@,
    {
        State {
            schema_version: self.schema_version,
            explicit_projects: self.explicit_projects.duplicate(),
            resolved_projects: self.resolved_projects.duplicate(),
            retained_projects: self.retained_projects.duplicate(),
            known_project_paths: self.known_project_paths.duplicate(),
            resolved_at_head: self.resolved_at_head.clone(),
        }
    }
}

/// The warnings a local state of this schema brings.
pub open spec fn state_schema_warnings(version: u32) -> Seq<Seq<char>> {
    if version == CURRENT_SCHEMA {
        Seq::empty()
    } else if version == PREVIOUS_SCHEMA {
        seq!["本地 fls 状态使用上一版 schema 0，将在下一次成功修改时迁移到 schema 1。"@]
    } else {
        seq!["本地 fls 状态 schema "@ + decimal(version as nat) + " 比当前支持的 schema 1 新；已禁止修改工作树。"@]
    }
}

/// What a state read from disk (or its absence) means: a state of the previous
/// schema is taken over as the current one; a newer one forbids changing the worktree.
pub fn load(parsed: Option<State>) -> (r: LoadedState)
    requires
        parsed matches Some(s) ==> s.wf(),
    ensures
        parsed is None ==> r.state is None && r.warnings@.len() == 0 && r.mutation_supported,
        parsed matches Some(s) ==> r.state matches Some(t) && t.wf()
            && views(r.warnings@) == state_schema_warnings(s.schema_version)
            && r.mutation_supported == (s.schema_version <= CURRENT_SCHEMA)
            && t.schema_version == (if s.schema_version == PREVIOUS_SCHEMA { CURRENT_SCHEMA } else { s.schema_version })
            && t.explicit_projects == s.explicit_projects
            && t.resolved_projects == s.resolved_projects
            && t.retained_projects == s.retained_projects
            && t.known_project_paths == s.known_project_paths
            && t.resolved_at_head == s.resolved_at_head,
{
    match parsed {
        None => LoadedState { state: None, warnings: Vec::new(), mutation_supported: true },
        Some(mut state) => {
            let mut warnings: Vec<String> = Vec::new();
            let v = state.schema_version;
            let mutation_supported = if v == CURRENT_SCHEMA {
                true
            } else if v == PREVIOUS_SCHEMA {
                warnings.push(owned("本地 fls 状态使用上一版 schema 0，将在下一次成功修改时迁移到 schema 1。"));
                state.schema_version = CURRENT_SCHEMA;
                true
            } else {
                let n = decimal_text(v as u64);
                warnings.push(concat3("本地 fls 状态 schema ", n.as_str(), " 比当前支持的 schema 1 新；已禁止修改工作树。"));
                false
            };
            assert(views(warnings@) =~= state_schema_warnings(v));
            LoadedState { state: Some(state), warnings, mutation_supported }
        },
    }
}

}
