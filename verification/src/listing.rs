//! `fls list`: how each project stands, in case-insensitive ID order.
use vstd::prelude::*;


use crate::manifest::Project;
use crate::order::{lemma_text_lt_total, lemma_text_lt_transitive, text_lt};
use crate::state::State;
use crate::text::{lower, owned, to_lower};
use crate::workspace::{ProjectStatus, Workspace};

verus! {

/// The texts of a status line.
pub struct StatusView {
    pub id: Seq<char>,
    pub path: Option<Seq<char>>,
    pub description: Seq<char>,
    pub status: Seq<char>,
    pub reason: Option<Seq<char>>,
}

pub open spec fn opt_view(o: Option<String>) -> Option<Seq<char>> {
    match o {
        Some(s) => Some(s@),
        None => None,
    }
}

pub open spec fn status_view(s: ProjectStatus) -> StatusView {
    StatusView {
        id: s.id@,
        path: opt_view(s.path),
        description: s.description@,
        status: s.status@,
        reason: opt_view(s.reason),
    }
}

/// Entry `a` at original position `ia` sorts before entry `b` at position `ib`:
/// by ASCII-lower-cased ID, ties kept in their original order.
pub open spec fn sorts_before(a: Seq<char>, ia: int, b: Seq<char>, ib: int) -> bool {
    text_lt(lower(a), lower(b)) || (lower(a) == lower(b) && ia < ib)
}

/// `perm` rearranges `n` positions: each taken once.
pub open spec fn is_permutation(perm: Seq<int>, n: int) -> bool {
    &&& perm.len() == n
    &&& forall|k: int| 0 <= k < n ==> 0 <= #[trigger] perm[k] < n
    &&& forall|k: int, l: int| 0 <= k < l < n ==> #[trigger] perm[k] != #[trigger] perm[l]
}

/// `r` is `v` stably sorted by ASCII-lower-cased ID (`sort_by` on `to_ascii_lowercase`).
pub open spec fn stably_sorted_by_id(v: Seq<StatusView>, r: Seq<StatusView>) -> bool {
    exists|perm: Seq<int>| {
        &&& is_permutation(perm, v.len() as int)
        &&& r.len() == v.len()
        &&& forall|k: int| 0 <= k < r.len() ==> #[trigger] r[k] == v[perm[k]]
        &&& forall|k: int, l: int| 0 <= k < l < r.len() ==> sorts_before(#[trigger] r[k].id, perm[k], #[trigger] r[l].id, perm[l])
    }
}

/// The texts of each status line.
pub open spec fn status_views(v: Seq<ProjectStatus>) -> Seq<StatusView> {
    v.map_values(|s: ProjectStatus| status_view(s))
}

/// Sorts status lines stably by ASCII-lower-cased ID.
pub fn sort_statuses(v: Vec<ProjectStatus>) -> (r: Vec<ProjectStatus>)
    ensures
        stably_sorted_by_id(status_views(v@), status_views(r@)),
{
    let ghost orig = v@;
    let mut src = v;
    assert(orig.len() == src.len());
    let mut out: Vec<ProjectStatus> = Vec::new();
    let mut keys: Vec<String> = Vec::new();
    let ghost mut perm: Seq<int> = Seq::empty();
    let mut n: usize = 0;
    // take items from the front in original order
    let mut rev: Vec<ProjectStatus> = Vec::new();
    while src.len() > 0
        invariant
            orig.len() <= usize::MAX,
            orig.len() == src@.len() + rev@.len(),
            forall|k: int| 0 <= k < rev@.len() ==> #[trigger] rev@[k] == orig[orig.len() - 1 - k],
            forall|k: int| 0 <= k < src@.len() ==> #[trigger] src@[k] == orig[k],
        decreases src@.len(),
    {
        let x = src.pop().unwrap();
        rev.push(x);
    }
    assert(orig.len() <= usize::MAX);
    while rev.len() > 0
        invariant
            orig.len() <= usize::MAX,
            orig.len() == n + rev@.len(),
            forall|k: int| 0 <= k < rev@.len() ==> #[trigger] rev@[k] == orig[orig.len() - 1 - k],
            out@.len() == n,
            keys@.len() == n,
            is_permutation(perm, n as int),
            forall|k: int| 0 <= k < n ==> 0 <= #[trigger] perm[k] < n,
            forall|k: int| 0 <= k < n ==> #[trigger] out@[k] == orig[perm[k]],
            forall|k: int| 0 <= k < n ==> (#[trigger] keys@[k])@ == lower(out@[k].id@),
            forall|k: int, l: int| 0 <= k < l < n ==> sorts_before(#[trigger] out@[k].id@, perm[k], #[trigger] out@[l].id@, perm[l]),
        decreases rev@.len(),
    {
        let x = rev.pop().unwrap();
        assert(x == orig[n as int]);
        let key = to_lower(x.id.as_str());
        // first position whose key is greater than this one
        let mut p: usize = 0;
        while p < keys.len() && !crate::order::text_lt_exec(key.as_str(), keys[p].as_str())
            invariant
                p <= keys@.len(),
                keys@.len() == n,
                out@.len() == n,
                forall|k: int| 0 <= k < n ==> (#[trigger] keys@[k])@ == lower(out@[k].id@),
                forall|k: int| 0 <= k < p ==> !text_lt(key@, (#[trigger] keys@[k])@),
            decreases keys@.len() - p,
        {
            p = p + 1;
        }
        let ghost old_out = out@;
        let ghost old_perm = perm;
        proof {
            // everything before p sorts before the new entry; everything from p after it
            assert forall|k: int| 0 <= k < p implies sorts_before(#[trigger] old_out[k].id@, old_perm[k], x.id@, n as int) by {
                assert(keys@[k]@ == lower(old_out[k].id@));
                assert(!text_lt(key@, keys@[k]@));
                assert(0 <= old_perm[k] < n);
                lemma_text_lt_total(lower(old_out[k].id@), key@);
            }
            assert forall|k: int| p <= k < n implies sorts_before(x.id@, n as int, #[trigger] old_out[k].id@, old_perm[k]) by {
                if p < n {
                    assert(text_lt(key@, keys@[p as int]@));
                    if k > p {
                        assert(sorts_before(old_out[p as int].id@, old_perm[p as int], old_out[k].id@, old_perm[k]));
                        if lower(old_out[p as int].id@) == lower(old_out[k].id@) {
                        } else {
                            lemma_text_lt_transitive(key@, lower(old_out[p as int].id@), lower(old_out[k].id@));
                        }
                    }
                }
            }
        }
        out.insert(p, x);
        keys.insert(p, key);
        proof {
            perm = old_perm.insert(p as int, n as int);
            let m = (n + 1) as int;
            assert forall|k: int| 0 <= k < m implies 0 <= #[trigger] perm[k] < m by {
                if k < p { assert(perm[k] == old_perm[k]); } else if k > p { assert(perm[k] == old_perm[k - 1]); }
            }
            assert forall|k: int, l: int| 0 <= k < l < m implies #[trigger] perm[k] != #[trigger] perm[l] by {
                if k < p && l < p {
                } else if k < p && l == p {
                    assert(perm[k] == old_perm[k]);
                } else if k < p && l > p {
                    assert(perm[l] == old_perm[l - 1]);
                } else if k == p {
                    assert(perm[l] == old_perm[l - 1]);
                } else {
                    assert(perm[k] == old_perm[k - 1]);
                    assert(perm[l] == old_perm[l - 1]);
                }
            }
            assert forall|k: int| 0 <= k < m implies #[trigger] out@[k] == orig[perm[k]] by {
                if k < p { } else if k > p { assert(out@[k] == old_out[k - 1]); }
            }
            assert forall|k: int, l: int| 0 <= k < l < m implies sorts_before(#[trigger] out@[k].id@, perm[k], #[trigger] out@[l].id@, perm[l]) by {
                if k < p && l < p {
                } else if k < p && l == p {
                } else if k < p && l > p {
                    assert(out@[l] == old_out[l - 1]);
                    assert(perm[l] == old_perm[l - 1]);
                } else if k == p {
                    assert(out@[l] == old_out[l - 1]);
                    assert(perm[l] == old_perm[l - 1]);
                } else {
                    assert(out@[k] == old_out[k - 1]);
                    assert(out@[l] == old_out[l - 1]);
                    assert(perm[k] == old_perm[k - 1]);
                    assert(perm[l] == old_perm[l - 1]);
                }
            }
            assert forall|k: int| 0 <= k < m implies (#[trigger] keys@[k])@ == lower(out@[k].id@) by {
                if k < p { } else if k > p { assert(out@[k] == old_out[k - 1]); }
            }
        }
        n = n + 1;
    }
    proof {
        let vv = status_views(orig);
        let rv = status_views(out@);
        assert(is_permutation(perm, vv.len() as int));
        assert forall|k: int| 0 <= k < rv.len() implies #[trigger] rv[k] == vv[perm[k]] by {
            assert(out@[k] == orig[perm[k]]);
        }
        assert forall|k: int, l: int| 0 <= k < l < rv.len() implies sorts_before(#[trigger] rv[k].id, perm[k], #[trigger] rv[l].id, perm[l]) by {
            assert(sorts_before(out@[k].id@, perm[k], out@[l].id@, perm[l]));
        }
    }
    out
}


/// The line of a manifest project: how it came into the worktree, if it did.
pub open spec fn manifest_status(st: &State, id: Seq<char>, p: Project) -> StatusView {
    let status = if st.explicit_projects@.contains(id) {
        "explicit"@
    } else if st.retained_projects@.contains_key(id) {
        "retained"@
    } else if st.resolved_projects@.contains(id) {
        "dependency"@
    } else {
        "available"@
    };
    let reason = if !st.explicit_projects@.contains(id) && st.retained_projects@.contains_key(id) {
        Some(st.retained_projects@[id]@)
    } else {
        None
    };
    StatusView { id, path: Some(p.path@), description: p.description@, status, reason }
}

/// The line of an explicit selection that the manifest no longer declares.
pub open spec fn unavailable_status(st: &State, id: Seq<char>) -> StatusView {
    StatusView {
        id,
        path: if st.known_project_paths@.contains_key(id) { Some(st.known_project_paths@[id]@) } else { None },
        description: Seq::empty(),
        status: "unavailable"@,
        reason: Some("项目仍被显式选择，但当前清单已不再声明它"@),
    }
}

/// The explicit selections that the manifest does not declare, in order.
pub open spec fn undeclared_explicit(w: &Workspace) -> Seq<Seq<char>> {
    w.state.explicit_projects.elems().filter(|id: Seq<char>| !w.manifest.projects@.contains_key(id))
}

/// The status lines before sorting: the manifest projects in ID order, then the
/// undeclared explicit selections.
pub open spec fn listed_statuses(w: &Workspace) -> Seq<StatusView> {
    Seq::new(w.manifest.projects.keys().len(), |i: int| manifest_status(&w.state, w.manifest.projects.keys()[i], w.manifest.projects.values()[i]))
        + undeclared_explicit(w).map_values(|id: Seq<char>| unavailable_status(&w.state, id))
}

impl Workspace {
    /// How each project stands: every manifest project, and each explicit selection the
    /// manifest no longer declares, sorted by ASCII-lower-cased ID.
    pub fn statuses(&self) -> (r: Vec<ProjectStatus>)
        requires
            self.wf(),
        ensures
            stably_sorted_by_id(listed_statuses(self), status_views(r@)),
    {
        let entries = self.manifest.projects.entries();
        let ghost keys = self.manifest.projects.keys();
        let ghost vals = self.manifest.projects.values();
        let mut v: Vec<ProjectStatus> = Vec::new();
        let mut i: usize = 0;
        while i < entries.len()
            invariant
                self.wf(),
                keys == self.manifest.projects.keys(),
                vals == self.manifest.projects.values(),
                entries@.map_values(|e: (String, Project)| e.0@) == keys,
                entries@.map_values(|e: (String, Project)| e.1) == vals,
                entries@.len() == keys.len(),
                i <= entries.len(),
                v@.len() == i,
                forall|k: int| 0 <= k < i ==> #[trigger] status_view(v@[k]) == manifest_status(&self.state, keys[k], vals[k]),
            decreases entries.len() - i,
        {
            let id = &entries[i].0;
            let p = &entries[i].1;
            assert(keys[i as int] == id@);
            assert(vals[i as int] == *p);
            let (status, reason): (String, Option<String>) = if self.state.explicit_projects.contains(id.as_str()) {
                (owned("explicit"), None)
            } else {
                match self.state.retained_projects.get(id.as_str()) {
                    Some(why) => (owned("retained"), Some(why.clone())),
                    None => if self.state.resolved_projects.contains(id.as_str()) {
                        (owned("dependency"), None)
                    } else {
                        (owned("available"), None)
                    },
                }
            };
            v.push(ProjectStatus {
                id: id.clone(),
                path: Some(p.path.clone()),
                description: p.description.clone(),
                status,
                reason,
            });
            proof {
                reveal_strlit("explicit");
                reveal_strlit("retained");
                reveal_strlit("dependency");
                reveal_strlit("available");
                assert(status_view(v@[i as int]) == manifest_status(&self.state, keys[i as int], vals[i as int]));
            }
            i = i + 1;
        }
        let explicit = self.state.explicit_projects.to_vec();
        let ghost elems = self.state.explicit_projects.elems();
        let ghost pred = |id: Seq<char>| !self.manifest.projects@.contains_key(id);
        let ghost head = Seq::new(keys.len(), |k: int| manifest_status(&self.state, keys[k], vals[k]));
        let mut j: usize = 0;
        while j < explicit.len()
            invariant
                self.wf(),
                i == keys.len(),
                head == Seq::new(keys.len(), |k: int| manifest_status(&self.state, keys[k], vals[k])),
                elems == self.state.explicit_projects.elems(),
                pred == (|id: Seq<char>| !self.manifest.projects@.contains_key(id)),
                explicit@.map_values(|s: String| s@) == elems,
                j <= explicit.len(),
                status_views(v@) == head + elems.take(j as int).filter(pred).map_values(|id: Seq<char>| unavailable_status(&self.state, id)),
            decreases explicit.len() - j,
        {
            let id = &explicit[j];
            assert(elems[j as int] == id@);
            let ghost before = v@;
            proof {
                assert(elems.take(j + 1) =~= elems.take(j as int).push(id@));
                elems.take(j as int).lemma_filter_push(id@, pred);
            }
            if !self.manifest.projects.contains_key(id.as_str()) {
                let path = match self.state.known_project_paths.get(id.as_str()) {
                    Some(p) => Some(p.clone()),
                    None => None,
                };
                v.push(ProjectStatus {
                    id: id.clone(),
                    path,
                    description: String::new(),
                    status: owned("unavailable"),
                    reason: Some(owned("项目仍被显式选择，但当前清单已不再声明它")),
                });
                proof {
                    reveal_strlit("unavailable");
                    assert(status_views(v@) =~= status_views(before).push(unavailable_status(&self.state, id@)));
                }
            }
            proof {
                assert(status_views(v@) =~= head + elems.take(j + 1).filter(pred).map_values(|id: Seq<char>| unavailable_status(&self.state, id)));
            }
            j = j + 1;
        }
        proof {
            assert(elems.take(j as int) =~= elems);
            assert(status_views(v@) =~= listed_statuses(self));
        }
        sort_statuses(v)
    }
}


/// A permutation of `n` positions takes each of them.
pub proof fn lemma_permutation_onto(perm: Seq<int>, n: int, j: int)
    requires
        is_permutation(perm, n),
        0 <= j < n,
    ensures
        exists|k: int| 0 <= k < n && perm[k] == j,
{
    assert(perm.no_duplicates()) by {
        assert forall|a: int, b: int| 0 <= a < perm.len() && 0 <= b < perm.len() && a != b implies perm[a] != perm[b] by {
            if a < b {
                assert(perm[a] != perm[b]);
            } else {
                assert(perm[b] != perm[a]);
            }
        }
    }
    perm.unique_seq_to_set();
    vstd::set_lib::lemma_int_range(0, n);
    assert(perm.to_set().subset_of(vstd::set_lib::set_int_range(0, n))) by {
        assert forall|x: int| perm.to_set().contains(x) implies vstd::set_lib::set_int_range(0, n).contains(x) by {
            let k = choose|k: int| 0 <= k < perm.len() && perm[k] == x;
            assert(0 <= perm[k] < n);
        }
    }
    vstd::seq_lib::seq_to_set_is_finite(perm);
    vstd::set_lib::lemma_subset_equality(perm.to_set(), vstd::set_lib::set_int_range(0, n));
    assert(vstd::set_lib::set_int_range(0, n).contains(j));
    assert(perm.to_set().contains(j));
}

/// Listing shows a line for every project of the manifest and for every explicit selection;
/// so every project the worktree keeps gets a line, when each of them is declared or
/// explicitly selected.
pub proof fn statuses_cover_projects(w: &Workspace, r: Seq<StatusView>)
    requires
        w.wf(),
        stably_sorted_by_id(listed_statuses(w), r),
    ensures
        forall|id: Seq<char>| #[trigger] w.manifest.projects@.contains_key(id) || w.state.explicit_projects@.contains(id)
            ==> exists|k: int| 0 <= k < r.len() && r[k].id == id,
        w.state.resolved_projects@.union(w.state.retained_projects@.dom()).subset_of(
            w.manifest.projects@.dom().union(w.state.explicit_projects@)) ==> forall|id: Seq<char>|
            #[trigger] w.state.resolved_projects@.union(w.state.retained_projects@.dom()).contains(id)
                ==> exists|k: int| 0 <= k < r.len() && r[k].id == id,
{
    let v = listed_statuses(w);
    let perm = choose|perm: Seq<int>| {
        &&& is_permutation(perm, v.len() as int)
        &&& r.len() == v.len()
        &&& forall|k: int| 0 <= k < r.len() ==> #[trigger] r[k] == v[perm[k]]
        &&& forall|k: int, l: int| 0 <= k < l < r.len() ==> sorts_before(#[trigger] r[k].id, perm[k], #[trigger] r[l].id, perm[l])
    };
    let keys = w.manifest.projects.keys();
    let und = undeclared_explicit(w);
    w.manifest.projects.lemma_lengths();
    w.manifest.projects.lemma_view_dom();
    w.state.explicit_projects.lemma_wf();
    assert forall|id: Seq<char>| #[trigger] w.manifest.projects@.contains_key(id) || w.state.explicit_projects@.contains(id)
        implies exists|k: int| 0 <= k < r.len() && r[k].id == id by {
        let j: int = if w.manifest.projects@.contains_key(id) {
            assert(keys.to_set().contains(id));
            let i = choose|i: int| 0 <= i < keys.len() && keys[i] == id;
            assert(v[i].id == id);
            i
        } else {
            let es = w.state.explicit_projects.elems();
            assert(es.contains(id));
            let pred = |x: Seq<char>| !w.manifest.projects@.contains_key(x);
            let i = choose|i: int| 0 <= i < es.len() && es[i] == id;
            es.lemma_filter_contains(pred, i);
            assert(und.contains(id));
            let m = choose|m: int| 0 <= m < und.len() && und[m] == id;
            assert(v[keys.len() + m].id == id);
            keys.len() + m
        };
        lemma_permutation_onto(perm, v.len() as int, j);
        let k = choose|k: int| 0 <= k < v.len() && perm[k] == j;
        assert(r[k] == v[j]);
    }
}


/// How each listed project stands. A declared project shows its manifest path and
/// description, and is `explicit` when explicitly selected; otherwise `retained`, with the
/// reason it was kept, when the state retains it; otherwise `dependency` when the last
/// resolution reached it; otherwise `available`. Only a retained project carries a reason.
/// A line for an undeclared project is an explicit selection shown as `unavailable`.
pub proof fn statuses_say_how_projects_stand(w: &Workspace, r: Seq<StatusView>)
    requires
        w.wf(),
        stably_sorted_by_id(listed_statuses(w), r),
    ensures
        forall|k: int| 0 <= k < r.len() && w.manifest.projects@.contains_key(#[trigger] r[k].id) ==> {
            let id = r[k].id;
            let st = &w.state;
            &&& r[k].path == Some(w.manifest.projects@[id].path@)
            &&& r[k].description == w.manifest.projects@[id].description@
            &&& st.explicit_projects@.contains(id) ==> r[k].status == "explicit"@ && r[k].reason is None
            &&& !st.explicit_projects@.contains(id) && st.retained_projects@.contains_key(id)
                ==> r[k].status == "retained"@ && r[k].reason == Some(st.retained_projects@[id]@)
            &&& !st.explicit_projects@.contains(id) && !st.retained_projects@.contains_key(id)
                && st.resolved_projects@.contains(id) ==> r[k].status == "dependency"@ && r[k].reason is None
            &&& !st.explicit_projects@.contains(id) && !st.retained_projects@.contains_key(id)
                && !st.resolved_projects@.contains(id) ==> r[k].status == "available"@ && r[k].reason is None
        },
        forall|k: int| 0 <= k < r.len() && !w.manifest.projects@.contains_key(#[trigger] r[k].id) ==> {
            &&& w.state.explicit_projects@.contains(r[k].id)
            &&& r[k].status == "unavailable"@
            &&& r[k].reason == Some("项目仍被显式选择，但当前清单已不再声明它"@)
        },
{
    let v = listed_statuses(w);
    let perm = choose|perm: Seq<int>| {
        &&& is_permutation(perm, v.len() as int)
        &&& r.len() == v.len()
        &&& forall|k: int| 0 <= k < r.len() ==> #[trigger] r[k] == v[perm[k]]
        &&& forall|k: int, l: int| 0 <= k < l < r.len() ==> sorts_before(#[trigger] r[k].id, perm[k], #[trigger] r[l].id, perm[l])
    };
    let keys = w.manifest.projects.keys();
    let und = undeclared_explicit(w);
    let es = w.state.explicit_projects.elems();
    let pred = |x: Seq<char>| !w.manifest.projects@.contains_key(x);
    w.manifest.projects.lemma_lengths();
    w.manifest.projects.lemma_view_dom();
    w.state.explicit_projects.lemma_wf();
    assert forall|k: int| #![trigger r[k]] 0 <= k < r.len() implies {
        let id = r[k].id;
        let st = &w.state;
        &&& w.manifest.projects@.contains_key(id) ==> {
            &&& r[k].path == Some(w.manifest.projects@[id].path@)
            &&& r[k].description == w.manifest.projects@[id].description@
            &&& st.explicit_projects@.contains(id) ==> r[k].status == "explicit"@ && r[k].reason is None
            &&& !st.explicit_projects@.contains(id) && st.retained_projects@.contains_key(id)
                ==> r[k].status == "retained"@ && r[k].reason == Some(st.retained_projects@[id]@)
            &&& !st.explicit_projects@.contains(id) && !st.retained_projects@.contains_key(id)
                && st.resolved_projects@.contains(id) ==> r[k].status == "dependency"@ && r[k].reason is None
            &&& !st.explicit_projects@.contains(id) && !st.retained_projects@.contains_key(id)
                && !st.resolved_projects@.contains(id) ==> r[k].status == "available"@ && r[k].reason is None
        }
        &&& !w.manifest.projects@.contains_key(id) ==> {
            &&& w.state.explicit_projects@.contains(r[k].id)
            &&& r[k].status == "unavailable"@
            &&& r[k].reason == Some("项目仍被显式选择，但当前清单已不再声明它"@)
        }
    } by {
        let j = perm[k];
        assert(r[k] == v[j]);
        if j < keys.len() {
            w.manifest.projects.lemma_view_at(j);
            assert(v[j] == manifest_status(&w.state, keys[j], w.manifest.projects.values()[j]));
            assert(w.manifest.projects@.contains_key(keys[j]));
        } else {
            let m = j - keys.len();
            assert(v[j] == unavailable_status(&w.state, und[m]));
            es.lemma_filter_pred(pred, m);
            assert(und.contains(und[m]));
            es.lemma_filter_contains_rev(pred, und[m]);
            assert(es.contains(und[m]));
        }
    }
}

}
