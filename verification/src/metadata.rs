//! Buck2 metadata in a sparse worktree, and the rules a worktree's state calls for.
use vstd::prelude::*;

use crate::collections::{lemma_sorted_members, sorted_members};
use crate::error::{string_result_view, Error, ErrorView};
use crate::planning::{first_outside, first_outside_at, lemma_first_outside};
use crate::git::{file_name, pattern_set, project_dir, unknown_dir_error, SparseSnapshot};
use crate::order::strictly_sorted;
use crate::text::{concat2, ends_with, joined, owned, views};
use crate::manifest::Manifest;
use crate::workspace::Workspace;

verus! {

/// A tracked file that Buck2 reads to know the project graph: a `BUCK` file or a `.bzl` file.
pub open spec fn is_metadata(path: Seq<char>) -> bool {
    file_name(path) == "BUCK"@ || ends_with(file_name(path), ".bzl"@)
}

/// Whether a tracked file is Buck2 metadata.
pub fn is_metadata_file(path: &str) -> (b: bool)
    ensures
        b == is_metadata(path@),
{
    let v = crate::text::chars_of(path);
    let pieces = crate::text::split_chars(&v, '/');
    proof {
        crate::text::lemma_split_nonempty(v@, '/');
    }
    let last = &pieces[pieces.len() - 1];
    let name = crate::text::string_from_chars(last);
    proof {
        assert(pieces@.map_values(|p: Vec<char>| p@)[pieces.len() - 1] == last@);
        assert(name@ == file_name(path@));
    }
    let buck = owned("BUCK");
    name == buck || crate::text::strip_suffix(name.as_str(), ".bzl").is_some()
}

/// The tracked Buck2 metadata files, in the order given.
pub fn metadata_files(files: &Vec<String>) -> (r: Vec<String>)
    ensures
        views(r@) == views(files@).filter(|p: Seq<char>| is_metadata(p)),
{
    let mut r: Vec<String> = Vec::new();
    let mut i: usize = 0;
    while i < files.len()
        invariant
            i <= files.len(),
            views(r@) == views(files@).take(i as int).filter(|p: Seq<char>| is_metadata(p)),
        decreases files.len() - i,
    {
        let ghost before = r@;
        let ghost x = files@[i as int]@;
        proof {
            assert(views(files@).take(i + 1) =~= views(files@).take(i as int).push(x));
            views(files@).take(i as int).lemma_filter_push(x, |p: Seq<char>| is_metadata(p));
        }
        if is_metadata_file(files[i].as_str()) {
            r.push(files[i].clone());
            proof {
                crate::text::lemma_views_push(before, files@[i as int]);
            }
        }
        i = i + 1;
    }
    assert(views(files@).take(i as int) =~= views(files@));
    r
}

/// The rules that bring back every tracked Buck2 metadata file: one `/<path>` line each, in
/// the order given, each line ended by a newline.
pub fn metadata_patterns(files: &Vec<String>) -> (r: String)
    ensures
        r@ == joined(
            views(files@).filter(|p: Seq<char>| is_metadata(p)).map_values(|p: Seq<char>| "/"@ + p),
            "\n"@,
        ) + "\n"@,
{
    let meta = metadata_files(files);
    let mut lines: Vec<String> = Vec::new();
    let mut i: usize = 0;
    while i < meta.len()
        invariant
            i <= meta.len(),
            lines@.len() == i,
            views(lines@) == views(meta@).take(i as int).map_values(|p: Seq<char>| "/"@ + p),
        decreases meta.len() - i,
    {
        let ghost before = lines@;
        lines.push(concat2("/", meta[i].as_str()));
        proof {
            crate::text::lemma_views_push(before, lines@[i as int]);
            assert(views(meta@).take(i + 1) =~= views(meta@).take(i as int).push(meta@[i as int]@));
            assert(views(lines@) =~= views(meta@).take(i + 1).map_values(|p: Seq<char>| "/"@ + p));
        }
        i = i + 1;
    }
    assert(views(meta@).take(i as int) =~= views(meta@));
    let mut r = crate::text::join(&lines, "\n");
    r.append("\n");
    r
}

/// The warning that the metadata was brought back.
pub open spec fn metadata_restored_warning() -> Seq<char> {
    "为了让 Buck2 解析完整项目图，fls 已补齐工作树中的 BUCK 与 .bzl 元数据。"@
}

impl Workspace {
    /// Whether the worktree may lack metadata: only a sparse worktree can.
    pub fn may_lack_metadata(&self) -> (b: bool)
        ensures
            b == self.sparse.enabled,
    {
        self.sparse.enabled
    }

    /// The rules to add so that Buck2 sees the whole project graph: none unless the worktree is
    /// sparse and some tracked metadata file (`missing`, as the caller found on disk) is absent;
    /// then one rule per tracked metadata file.
    pub fn ensure_metadata(&self, files: &Vec<String>, missing: bool) -> (r: Option<String>)
        ensures
            r is Some <==> self.sparse.enabled && missing,
            r matches Some(p) ==> p@ == joined(
                views(files@).filter(|p: Seq<char>| is_metadata(p)).map_values(|p: Seq<char>| "/"@ + p),
                "\n"@,
            ) + "\n"@,
    {
        if !self.sparse.enabled || !missing {
            return None;
        }
        Some(metadata_patterns(files))
    }

    /// Records that the metadata was brought back: the rules as read after that, and the warning.
    pub fn record_metadata_restored(&mut self, sparse: SparseSnapshot)
        ensures
            final(self).sparse == sparse,
            views(final(self).warnings@) == views(old(self).warnings@).push(metadata_restored_warning()),
            final(self).git == old(self).git,
            final(self).manifest == old(self).manifest,
            final(self).state == old(self).state,
            final(self).state_exists == old(self).state_exists,
            final(self).state_mutation_supported == old(self).state_mutation_supported,
    {
        self.sparse = sparse;
        let ghost before = self.warnings@;
        self.warnings.push(owned("为了让 Buck2 解析完整项目图，fls 已补齐工作树中的 BUCK 与 .bzl 元数据。"));
        proof {
            crate::text::lemma_views_push(before, self.warnings@.last());
            assert(self.warnings@ =~= before.push(self.warnings@.last()));
        }
    }

    /// The sparse-checkout rules that the state calls for, given the tracked `files`.
    pub fn expected_sparse_patterns(&self, files: &Vec<String>) -> (r: Result<String, Error>)
        requires
            self.wf(),
        ensures
            string_result_view(&r) == expected_rules(self, views(files@)),
    {
        let materialized = self.state.materialized_projects();
        let r = self.git.sparse_patterns(&self.manifest, &self.state.known_project_paths, &materialized, files);
        proof {
            let known = self.state.known_project_paths.text_view();
            let mat = self.state.resolved_projects@.union(self.state.retained_projects@.dom());
            materialized.lemma_wf();
            assert(materialized.elems().to_set() =~= mat);
            lemma_sorted_members(materialized.elems(), mat);
            if r is Ok {
                assert forall|id: Seq<char>| #[trigger] mat.contains(id)
                    implies project_dir(&self.manifest, known, id) is Some by {
                    assert(materialized.elems().contains(id));
                    let k = choose|k: int| 0 <= k < materialized.elems().len() && materialized.elems()[k] == id;
                    assert(project_dir(&self.manifest, known, materialized.elems()[k]) is Some);
                }
                let p = choose|p: Seq<Seq<char>>| strictly_sorted(p)
                    && p.to_set() == pattern_set(&self.manifest, known, mat, views(files@))
                    && r->Ok_0@ == joined(p, "\n"@) + "\n"@;
                lemma_sorted_members(p, pattern_set(&self.manifest, known, mat, views(files@)));
            } else {
                let i = choose|i: int| 0 <= i < materialized.elems().len()
                    && project_dir(&self.manifest, known, materialized.elems()[i]) is None
                    && (forall|j: int| 0 <= j < i ==> project_dir(&self.manifest, known, #[trigger] materialized.elems()[j]) is Some)
                    && r->Err_0@ == unknown_dir_error(materialized.elems()[i]);
                assert(mat.contains(materialized.elems()[i]));
                let ks = Set::new(|id: Seq<char>| project_dir(&self.manifest, known, id) is Some);
                assert(first_outside_at(materialized.elems(), ks, i));
                lemma_first_outside(materialized.elems(), ks, i);
            }
        }
        r
    }
}

/// The sparse-checkout rules a worktree's state calls for, given the tracked files: the
/// rules, or the refusal for the first kept project (in ID order) whose directory is unknown.
pub open spec fn expected_rules(w: &Workspace, files: Seq<Seq<char>>) -> Result<Seq<char>, ErrorView> {
    let known = w.state.known_project_paths.text_view();
    let mat = w.state.resolved_projects@.union(w.state.retained_projects@.dom());
    let ks = Set::new(|id: Seq<char>| project_dir(&w.manifest, known, id) is Some);
    match first_outside(sorted_members(mat), ks) {
        Some(id) => Err(unknown_dir_error(id)),
        None => Ok(joined(sorted_members(pattern_set(&w.manifest, known, mat, files)), "\n"@) + "\n"@),
    }
}

/// Buck2 metadata stays in the worktree: whatever projects are kept, the sparse rules keep
/// every tracked `BUCK` and `*.bzl` file, so a removed project leaves its metadata behind.
pub proof fn metadata_stays_checked_out(
    m: &Manifest,
    known: Map<Seq<char>, Seq<char>>,
    materialized: Set<Seq<char>>,
    files: Seq<Seq<char>>,
    i: int,
)
    requires
        0 <= i < files.len(),
        is_metadata(files[i]),
    ensures
        pattern_set(m, known, materialized, files).contains("/"@ + files[i]),
{
}

}
