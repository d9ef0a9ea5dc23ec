//! The project manifest (`fls-projects.toml`): which top-level directories are projects.
use vstd::prelude::*;

use crate::collections::{TextMap, TextSet};
use crate::error::{message3, Error, ErrorView};
use crate::order::strictly_sorted;
use crate::text::{
    chars_of, concat3, decimal, decimal_text, eq_ignore_case, lower, owned, same_ignoring_case,
    split_chars, split_on, to_lower, views,
};

verus! {

pub const MANIFEST_FILE: &'static str = "fls-projects.toml";
pub const CURRENT_SCHEMA: u32 = 1;
pub const PREVIOUS_SCHEMA: u32 = 0;

/// A registered project.
#[derive(Debug)]
pub struct Project {
    pub id: String,
    pub path: String,
    pub description: String,
}

/// One `[projects.<id>]` table of the manifest file.
#[derive(Debug)]
pub struct ProjectFile {
    pub path: String,
    pub description: String,
}

/// The manifest file as parsed, before validation.
#[derive(Debug)]
pub struct ManifestFile {
    pub schema_version: u32,
    /// `[workspace] control-paths`, in file order.
    pub control_paths: Vec<String>,
    /// `[projects]`, keyed by project ID.
    pub projects: TextMap<ProjectFile>,
}

/// The validated manifest.
#[derive(Debug)]
pub struct Manifest {
    pub schema_version: u32,
    pub projects: TextMap<Project>,
    pub control_paths: Vec<String>,
    pub warnings: Vec<String>,
    pub mutation_supported: bool,
}

// ---------------------------------------------------------------- validation rules

pub open spec fn is_ascii_alnum(c: char) -> bool {
    ('a' <= c && c <= 'z') || ('A' <= c && c <= 'Z') || ('0' <= c && c <= '9')
}

pub open spec fn id_char(c: char) -> bool {
    is_ascii_alnum(c) || c == '_' || c == '-'
}

pub open spec fn path_char(c: char) -> bool {
    is_ascii_alnum(c) || c == '_' || c == '-' || c == '.'
}

/// A project ID: non-empty, ASCII letters, digits, `-` and `_`.
pub open spec fn valid_identifier(id: Seq<char>) -> bool {
    id.len() > 0 && forall|i: int| 0 <= i < id.len() ==> id_char(#[trigger] id[i])
}

pub open spec fn identifier_error(id: Seq<char>) -> ErrorView {
    ErrorView::Message("项目 ID `"@ + id + "` 非法；只能使用 ASCII 字母、数字、连字符和下划线"@)
}

/// `path` is exactly one normal component when read as a relative Unix path:
/// its first `/`-separated segment is a name (not empty, `.` or `..`) and every
/// later segment is empty or `.` (segments that `Path::components` skips).
pub open spec fn single_normal_component(path: Seq<char>) -> bool {
    let segs = split_on(path, '/');
    &&& segs[0].len() > 0
    &&& segs[0] != seq!['.']
    &&& segs[0] != seq!['.', '.']
    &&& forall|i: int| 1 <= i < segs.len() ==> (#[trigger] segs[i]).len() == 0 || segs[i] == seq!['.']
}

/// The shape part of the path rule.
pub open spec fn top_level_shape_ok(path: Seq<char>) -> bool {
    &&& path.len() > 0
    &&& !path.contains('\\')
    &&& single_normal_component(path)
    &&& path != ".git"@
}

/// The character part of the path rule.
pub open spec fn top_level_chars_ok(path: Seq<char>) -> bool {
    forall|i: int| 0 <= i < path.len() ==> path_char(#[trigger] path[i])
}

/// What `validate_top_level_path` answers.
pub open spec fn top_level_path_error(path: Seq<char>, kind: Seq<char>) -> Option<ErrorView> {
    if !top_level_shape_ok(path) {
        Some(ErrorView::Message(kind + " `"@ + path + "` 非法；必须是仓库根目录下的单层相对路径"@))
    } else if !top_level_chars_ok(path) {
        Some(ErrorView::Message(kind + " `"@ + path + "` 非法；只能使用 ASCII 字母、数字、点、连字符和下划线"@))
    } else {
        None
    }
}

/// Checks a project ID.
pub fn validate_identifier(id: &str) -> (r: Result<(), Error>)
    ensures
        r is Ok <==> valid_identifier(id@),
        r matches Err(e) ==> e@ == identifier_error(id@),
{
    let v = chars_of(id);
    let mut ok = v.len() > 0;
    let mut i: usize = 0;
    while i < v.len()
        invariant
            v@ == id@,
            i <= v.len(),
            ok == (v.len() > 0 && forall|j: int| 0 <= j < i ==> id_char(#[trigger] v@[j])),
        decreases v.len() - i,
    {
        let c = v[i];
        let good = ('a' <= c && c <= 'z') || ('A' <= c && c <= 'Z') || ('0' <= c && c <= '9') || c == '_' || c == '-';
        ok = ok && good;
        i = i + 1;
    }
    if ok {
        Ok(())
    } else {
        Err(message3("项目 ID `", id, "` 非法；只能使用 ASCII 字母、数字、连字符和下划线"))
    }
}

fn single_normal_component_exec(path: &Vec<char>) -> (b: bool)
    ensures
        b == single_normal_component(path@),
{
    let segs = split_chars(path, '/');
    proof {
        crate::text::lemma_split_nonempty(path@, '/');
        assert(segs@.len() >= 1);
        assert(segs@.map_values(|p: Vec<char>| p@)[0] == segs@[0]@);
    }
    let first = &segs[0];
    let mut ok = first.len() > 0 && !(first.len() == 1 && first[0] == '.')
        && !(first.len() == 2 && first[0] == '.' && first[1] == '.');
    proof {
        let s0 = segs@[0]@;
        if s0.len() == 1 && s0[0] == '.' {
            assert(s0 =~= seq!['.']);
        }
        if s0 == seq!['.'] {
            assert(s0.len() == 1 && s0[0] == '.');
        }
        if s0.len() == 2 && s0[0] == '.' && s0[1] == '.' {
            assert(s0 =~= seq!['.', '.']);
        }
        if s0 == seq!['.', '.'] {
            assert(s0.len() == 2 && s0[0] == '.' && s0[1] == '.');
        }
    }
    let mut i: usize = 1;
    while i < segs.len()
        invariant
            1 <= i <= segs.len(),
            segs@.map_values(|p: Vec<char>| p@) == split_on(path@, '/'),
            ok == ({
                let s = split_on(path@, '/');
                &&& s[0].len() > 0
                &&& s[0] != seq!['.']
                &&& s[0] != seq!['.', '.']
                &&& forall|j: int| 1 <= j < i ==> (#[trigger] s[j]).len() == 0 || s[j] == seq!['.']
            }),
        decreases segs.len() - i,
    {
        let seg = &segs[i];
        let good = seg.len() == 0 || (seg.len() == 1 && seg[0] == '.');
        proof {
            let s = split_on(path@, '/');
            assert(s[i as int] == seg@);
            if seg@.len() == 1 && seg@[0] == '.' {
                assert(seg@ =~= seq!['.']);
            }
            if seg@ == seq!['.'] {
                assert(seg@.len() == 1 && seg@[0] == '.');
            }
        }
        ok = ok && good;
        i = i + 1;
    }
    ok
}

/// Checks that `path` names one directory directly under the repository root.
pub fn validate_top_level_path(path: &str, kind: &str) -> (r: Result<(), Error>)
    ensures
        r is Ok <==> top_level_path_error(path@, kind@) is None,
        r matches Err(e) ==> Some(e@) == top_level_path_error(path@, kind@),
{
    let v = chars_of(path);
    let mut has_backslash = false;
    let mut chars_ok = true;
    let mut i: usize = 0;
    while i < v.len()
        invariant
            v@ == path@,
            i <= v.len(),
            has_backslash == (exists|j: int| 0 <= j < i && #[trigger] v@[j] == '\\'),
            chars_ok == forall|j: int| 0 <= j < i ==> path_char(#[trigger] v@[j]),
        decreases v.len() - i,
    {
        let c = v[i];
        if c == '\\' {
            has_backslash = true;
        }
        let good = ('a' <= c && c <= 'z') || ('A' <= c && c <= 'Z') || ('0' <= c && c <= '9') || c == '_' || c == '-' || c == '.';
        chars_ok = chars_ok && good;
        i = i + 1;
    }
    let dot_git = v.len() == 4 && v[0] == '.' && v[1] == 'g' && v[2] == 'i' && v[3] == 't';
    proof {
        reveal_strlit(".git");
        if dot_git {
            assert(v@ =~= ".git"@);
        }
        if v@ == ".git"@ {
            assert(v@.len() == 4);
        }
    }
    let single = single_normal_component_exec(&v);
    if v.len() == 0 || has_backslash || !single || dot_git {
        let mut m = owned(kind);
        m.append(" `");
        m.append(path);
        m.append("` 非法；必须是仓库根目录下的单层相对路径");
        return Err(Error::Message(m));
    }
    if !chars_ok {
        let mut m = owned(kind);
        m.append(" `");
        m.append(path);
        m.append("` 非法；只能使用 ASCII 字母、数字、点、连字符和下划线");
        return Err(Error::Message(m));
    }
    Ok(())
}


// ---------------------------------------------------------------- loading

/// The IDs of the raw manifest's projects, in key order.
pub open spec fn raw_ids(raw: &ManifestFile) -> Seq<Seq<char>> {
    raw.projects.keys()
}

/// The paths of the raw manifest's projects, in key order.
pub open spec fn raw_paths(raw: &ManifestFile) -> Seq<Seq<char>> {
    raw.projects.values().map_values(|p: ProjectFile| p.path@)
}

/// The error that project `i` raises, given that the projects before it were accepted.
pub open spec fn project_entry_error(ids: Seq<Seq<char>>, paths: Seq<Seq<char>>, i: int) -> Option<ErrorView> {
    if !valid_identifier(ids[i]) {
        Some(identifier_error(ids[i]))
    } else if top_level_path_error(paths[i], "项目路径"@) is Some {
        top_level_path_error(paths[i], "项目路径"@)
    } else if exists|j: int| 0 <= j < i && lower(#[trigger] ids[j]) == lower(ids[i]) {
        Some(ErrorView::Message("fls-projects.toml 中的项目 ID `"@ + ids[i] + "` 与另一个 ID 仅大小写不同"@))
    } else if exists|j: int| 0 <= j < i && lower(#[trigger] paths[j]) == lower(paths[i]) {
        Some(ErrorView::Message("fls-projects.toml 中的项目路径 `"@ + paths[i] + "` 重复"@))
    } else {
        None
    }
}

/// The first error among the first `n` projects.
pub open spec fn first_project_error(ids: Seq<Seq<char>>, paths: Seq<Seq<char>>, n: int) -> Option<ErrorView>
    decreases n,
{
    if n <= 0 {
        None
    } else {
        match first_project_error(ids, paths, n - 1) {
            Some(e) => Some(e),
            None => project_entry_error(ids, paths, n - 1),
        }
    }
}

/// The error that control path `i` raises.
pub open spec fn control_entry_error(cps: Seq<Seq<char>>, paths: Seq<Seq<char>>, i: int) -> Option<ErrorView> {
    if top_level_path_error(cps[i], "控制路径"@) is Some {
        top_level_path_error(cps[i], "控制路径"@)
    } else if exists|j: int| 0 <= j < paths.len() && lower(#[trigger] paths[j]) == lower(cps[i]) {
        Some(ErrorView::Message("控制路径 `"@ + cps[i] + "` 与项目路径重叠"@))
    } else {
        None
    }
}

/// The first error among the first `n` control paths.
pub open spec fn first_control_error(cps: Seq<Seq<char>>, paths: Seq<Seq<char>>, n: int) -> Option<ErrorView>
    decreases n,
{
    if n <= 0 {
        None
    } else {
        match first_control_error(cps, paths, n - 1) {
            Some(e) => Some(e),
            None => control_entry_error(cps, paths, n - 1),
        }
    }
}

/// Why a raw manifest is refused, if it is.
pub open spec fn load_error(raw: &ManifestFile) -> Option<ErrorView> {
    let ids = raw_ids(raw);
    let paths = raw_paths(raw);
    let cps = views(raw.control_paths@);
    match first_project_error(ids, paths, ids.len() as int) {
        Some(e) => Some(e),
        None => if ids.len() == 0 {
            Some(ErrorView::Message("fls-projects.toml 没有声明任何项目"@))
        } else {
            first_control_error(cps, paths, cps.len() as int)
        },
    }
}

/// Whether a manifest of this schema allows changing the worktree.
pub open spec fn schema_supported(version: u32) -> bool {
    version <= CURRENT_SCHEMA
}

/// The warnings a manifest of this schema brings.
pub open spec fn schema_warnings(version: u32) -> Seq<Seq<char>> {
    if version == CURRENT_SCHEMA {
        Seq::empty()
    } else if version == PREVIOUS_SCHEMA {
        seq!["fls-projects.toml 使用上一版 schema 0；请更新到 schema 1。读取和诊断仍可使用，但 CI 应视为失败。"@]
    } else {
        seq!["fls-projects.toml schema "@ + decimal(version as nat) + " 比当前 fls 支持的 schema 1 新；已禁止修改工作树。"@]
    }
}

/// Control path `i` is the first of its ASCII-case-insensitive class.
pub open spec fn first_of_its_case(cps: Seq<Seq<char>>, i: int) -> bool {
    forall|j: int| 0 <= j < i ==> lower(#[trigger] cps[j]) != lower(cps[i])
}

impl Project {
    /// A copy of the project.
    pub fn duplicate(&self) -> (r: Project)
        ensures
            r.id@ == self.id@,
            r.path@ == self.path@,
            r.description@ == self.description@,
    {
        Project { id: self.id.clone(), path: self.path.clone(), description: self.description.clone() }
    }
}

impl Manifest {
    /// The projects are keyed by their own IDs, in increasing order.
    pub open spec fn wf(&self) -> bool {
        &&& self.projects.wf()
        &&& forall|k: Seq<char>| #[trigger] self.projects@.contains_key(k) ==> self.projects@[k].id@ == k
    }

    /// What every loaded manifest satisfies: at least one project; each keyed by its own
    /// valid ID, with a valid top-level path; no two IDs and no two paths equal ignoring ASCII
    /// case; control paths valid, strictly sorted, no two equal ignoring ASCII case, and none
    /// equal to a project path ignoring ASCII case.
    pub open spec fn unambiguous(&self) -> bool {
        let ids = self.projects.keys();
        let cps = views(self.control_paths@);
        &&& self.wf()
        &&& ids.len() > 0
        &&& forall|i: int| 0 <= i < ids.len() ==> valid_identifier(#[trigger] ids[i])
        &&& forall|k: Seq<char>| #[trigger] self.projects@.contains_key(k)
            ==> top_level_path_error(self.projects@[k].path@, "项目路径"@) is None
        &&& forall|i: int, j: int| 0 <= j < i < ids.len() ==> lower(#[trigger] ids[j]) != lower(#[trigger] ids[i])
        &&& forall|i: int, j: int| 0 <= j < i < ids.len()
            ==> lower(self.projects@[#[trigger] ids[j]].path@) != lower(self.projects@[#[trigger] ids[i]].path@)
        &&& strictly_sorted(cps)
        &&& forall|i: int| 0 <= i < cps.len() ==> top_level_path_error(#[trigger] cps[i], "控制路径"@) is None
        &&& forall|i: int, j: int| 0 <= j < i < cps.len() ==> lower(#[trigger] cps[j]) != lower(#[trigger] cps[i])
        &&& forall|i: int, k: Seq<char>| 0 <= i < cps.len() && #[trigger] self.projects@.contains_key(k)
            ==> lower(#[trigger] cps[i]) != lower(self.projects@[k].path@)
    }

    /// Validates a parsed manifest file.
    pub fn load(raw: &ManifestFile) -> (r: Result<Manifest, Error>)
        requires
            raw.projects.wf(),
        ensures
            r is Ok <==> load_error(raw) is None,
            r matches Err(e) ==> Some(e@) == load_error(raw),
            r matches Ok(m) ==> m.unambiguous(),
            r matches Ok(m) ==> {
                &&& m.wf()
                &&& m.schema_version == raw.schema_version
                &&& m.mutation_supported == schema_supported(raw.schema_version)
                &&& views(m.warnings@) == schema_warnings(raw.schema_version)
                &&& m.projects.keys() == raw.projects.keys()
                &&& forall|k: Seq<char>| #[trigger] m.projects@.contains_key(k) ==> {
                    &&& m.projects@[k].path@ == raw.projects@[k].path@
                    &&& m.projects@[k].description@ == raw.projects@[k].description@
                }
                &&& strictly_sorted(views(m.control_paths@))
                &&& forall|x: Seq<char>| #[trigger] views(m.control_paths@).contains(x) <==> exists|i: int|
                    0 <= i < raw.control_paths.len() && views(raw.control_paths@)[i] == x
                        && first_of_its_case(views(raw.control_paths@), i)
            },
    {
        let mut warnings: Vec<String> = Vec::new();
        let v = raw.schema_version;
        let mutation_supported = if v == CURRENT_SCHEMA {
            true
        } else if v == PREVIOUS_SCHEMA {
            warnings.push(owned("fls-projects.toml 使用上一版 schema 0；请更新到 schema 1。读取和诊断仍可使用，但 CI 应视为失败。"));
            true
        } else {
            let n = decimal_text(v as u64);
            warnings.push(concat3("fls-projects.toml schema ", n.as_str(), " 比当前 fls 支持的 schema 1 新；已禁止修改工作树。"));
            false
        };
        assert(views(warnings@) =~= schema_warnings(v));

        let ghost ids = raw_ids(raw);
        let ghost paths = raw_paths(raw);
        let entries = raw.projects.entries();
        proof { raw.projects.lemma_lengths(); }
        let mut projects: TextMap<Project> = TextMap::new();
        let mut folded_ids = TextSet::new();
        let mut folded_paths = TextSet::new();
        let mut i: usize = 0;
        while i < entries.len()
            invariant
                raw.projects.wf(),
                ids == raw_ids(raw),
                paths == raw_paths(raw),
                entries@.map_values(|e: (String, ProjectFile)| e.0@) == ids,
                entries@.map_values(|e: (String, ProjectFile)| e.1) == raw.projects.values(),
                ids.len() == paths.len(),
                entries@.len() == ids.len(),
                i <= entries.len(),
                first_project_error(ids, paths, i as int) is None,
                projects.wf(),
                folded_ids.wf(),
                folded_paths.wf(),
                forall|x: Seq<char>| #[trigger] folded_ids@.contains(x) <==> exists|j: int| 0 <= j < i && lower(#[trigger] ids[j]) == x,
                forall|x: Seq<char>| #[trigger] folded_paths@.contains(x) <==> exists|j: int| 0 <= j < i && lower(#[trigger] paths[j]) == x,
                forall|k: Seq<char>| #[trigger] projects@.contains_key(k) <==> ids.take(i as int).contains(k),
                forall|k: Seq<char>| #[trigger] projects@.contains_key(k) ==> {
                    &&& projects@[k].id@ == k
                    &&& projects@[k].path@ == raw.projects@[k].path@
                    &&& projects@[k].description@ == raw.projects@[k].description@
                },
            decreases entries.len() - i,
        {
            let id = &entries[i].0;
            let pf = &entries[i].1;
            proof {
                assert(ids[i as int] == id@);
                assert(raw.projects.values()[i as int] == *pf);
                assert(paths[i as int] == pf.path@);
                raw.projects.lemma_view_at(i as int);
            }
            match validate_identifier(id.as_str()) {
                Ok(()) => {},
                Err(e) => {
                    proof { lemma_first_error_at(ids, paths, i as int); }
                    return Err(e);
                },
            }
            match validate_top_level_path(pf.path.as_str(), "项目路径") {
                Ok(()) => {},
                Err(e) => {
                    proof { lemma_first_error_at(ids, paths, i as int); }
                    return Err(e);
                },
            }
            let folded = to_lower(id.as_str());
            if !folded_ids.insert(folded) {
                proof { lemma_first_error_at(ids, paths, i as int); }
                return Err(message3("fls-projects.toml 中的项目 ID `", id.as_str(), "` 与另一个 ID 仅大小写不同"));
            }
            let folded_path = to_lower(pf.path.as_str());
            if !folded_paths.insert(folded_path) {
                proof {
                    assert(!(exists|j: int| 0 <= j < i && lower(#[trigger] ids[j]) == lower(ids[i as int])));
                    lemma_first_error_at(ids, paths, i as int);
                }
                return Err(message3("fls-projects.toml 中的项目路径 `", pf.path.as_str(), "` 重复"));
            }
            proof {
                assert(!(exists|j: int| 0 <= j < i && lower(#[trigger] ids[j]) == lower(ids[i as int])));
                assert(!(exists|j: int| 0 <= j < i && lower(#[trigger] paths[j]) == lower(paths[i as int])));
                lemma_first_error_at(ids, paths, i as int);
            }
            let project = Project { id: id.clone(), path: pf.path.clone(), description: pf.description.clone() };
            projects.insert(id.clone(), project);
            proof {
                assert(ids.take(i + 1) =~= ids.take(i as int).push(ids[i as int]));
                assert forall|k: Seq<char>| #[trigger] projects@.contains_key(k) <==> ids.take(i + 1).contains(k) by {
                    if k == ids[i as int] {
                        assert(ids.take(i + 1)[i as int] == k);
                    } else if ids.take(i + 1).contains(k) {
                        let j = choose|j: int| 0 <= j < i + 1 && #[trigger] ids.take(i + 1)[j] == k;
                        assert(ids.take(i as int)[j] == k);
                    }
                    if ids.take(i as int).contains(k) {
                        let j = choose|j: int| 0 <= j < i && #[trigger] ids.take(i as int)[j] == k;
                        assert(ids.take(i + 1)[j] == k);
                    }
                }
                assert forall|x: Seq<char>| #[trigger] folded_ids@.contains(x) <==> exists|j: int| 0 <= j < i + 1 && lower(#[trigger] ids[j]) == x by {
                    if x == lower(ids[i as int]) {
                        assert(lower(ids[i as int]) == x);
                    }
                }
                assert forall|x: Seq<char>| #[trigger] folded_paths@.contains(x) <==> exists|j: int| 0 <= j < i + 1 && lower(#[trigger] paths[j]) == x by {
                    if x == lower(paths[i as int]) {
                        assert(lower(paths[i as int]) == x);
                    }
                }
            }
            i = i + 1;
        }
        assert(ids.take(i as int) =~= ids);
        if entries.len() == 0 {
            return Err(Error::message("fls-projects.toml 没有声明任何项目"));
        }
        proof {
            assert forall|k: Seq<char>| #[trigger] projects@.contains_key(k) <==> raw.projects@.contains_key(k) by {
                raw.projects.lemma_view_dom();
                assert(raw.projects@.dom().contains(k) == ids.to_set().contains(k));
            }
            projects.lemma_view_dom();
            raw.projects.lemma_view_dom();
            projects.lemma_lengths();
            raw.projects.lemma_lengths();
            assert forall|x: Seq<char>| projects.keys().contains(x) <==> ids.contains(x) by {
                assert(projects@.dom().contains(x) == projects.keys().to_set().contains(x));
                assert(raw.projects@.dom().contains(x) == ids.to_set().contains(x));
            }
            crate::collections::lemma_sorted_unique(projects.keys(), ids);
        }

        let ghost cps = views(raw.control_paths@);
        let mut kept = TextSet::new();
        let mut seen = TextSet::new();
        let mut c: usize = 0;
        while c < raw.control_paths.len()
            invariant
                cps == views(raw.control_paths@),
                ids == raw_ids(raw),
                paths == raw_paths(raw),
                ids.len() > 0,
                first_project_error(ids, paths, ids.len() as int) is None,
                c <= raw.control_paths.len(),
                first_control_error(cps, paths, c as int) is None,
                kept.wf(),
                seen.wf(),
                forall|x: Seq<char>| #[trigger] folded_paths@.contains(x) <==> exists|j: int| 0 <= j < ids.len() && lower(#[trigger] paths[j]) == x,
                folded_paths.wf(),
                ids.len() == paths.len(),
                forall|x: Seq<char>| #[trigger] seen@.contains(x) <==> exists|j: int| 0 <= j < c && lower(#[trigger] cps[j]) == x,
                forall|x: Seq<char>| #[trigger] kept@.contains(x) <==> exists|j: int| 0 <= j < c && cps[j] == x && first_of_its_case(cps, j),
            decreases raw.control_paths.len() - c,
        {
            let cp = &raw.control_paths[c];
            assert(cps[c as int] == cp@);
            match validate_top_level_path(cp.as_str(), "控制路径") {
                Ok(()) => {},
                Err(e) => {
                    proof { lemma_first_control_error_at(cps, paths, c as int); }
                    return Err(e);
                },
            }
            let folded = to_lower(cp.as_str());
            if folded_paths.contains(folded.as_str()) {
                proof { lemma_first_control_error_at(cps, paths, c as int); }
                return Err(message3("控制路径 `", cp.as_str(), "` 与项目路径重叠"));
            }
            proof {
                assert(!(exists|j: int| 0 <= j < paths.len() && lower(#[trigger] paths[j]) == lower(cps[c as int])));
                lemma_first_control_error_at(cps, paths, c as int);
            }
            let fresh = seen.insert(folded);
            if fresh {
                kept.insert(cp.clone());
            }
            proof {
                assert forall|x: Seq<char>| #[trigger] seen@.contains(x) <==> exists|j: int| 0 <= j < c + 1 && lower(#[trigger] cps[j]) == x by {
                    if x == lower(cps[c as int]) {
                        assert(lower(cps[c as int]) == x);
                    }
                }
                if fresh {
                    assert(first_of_its_case(cps, c as int));
                } else {
                    assert(!first_of_its_case(cps, c as int));
                }
                assert forall|x: Seq<char>| #[trigger] kept@.contains(x) <==> exists|j: int| 0 <= j < c + 1 && cps[j] == x && first_of_its_case(cps, j) by {
                    if fresh && x == cps[c as int] {
                        assert(cps[c as int] == x && first_of_its_case(cps, c as int));
                    }
                }
            }
            c = c + 1;
        }
        let control_paths = kept.to_vec();
        proof {
            kept.lemma_wf();
            assert(views(control_paths@) == kept.elems());
            assert forall|x: Seq<char>| #[trigger] views(control_paths@).contains(x) <==> exists|i: int|
                0 <= i < raw.control_paths.len() && views(raw.control_paths@)[i] == x
                    && first_of_its_case(views(raw.control_paths@), i) by {
                assert(kept@.contains(x) <==> kept.elems().contains(x));
            }
        }
        let m = Manifest {
            schema_version: raw.schema_version,
            projects,
            control_paths,
            warnings,
            mutation_supported,
        };
        proof { lemma_loaded_unambiguous(raw, &m); }
        Ok(m)
    }

    /// The ID that `input` names, compared without ASCII case: the first such ID in key order.
    pub fn resolve_id(&self, input: &str) -> (r: Option<&str>)
        requires
            self.wf(),
        ensures
            r is None <==> forall|i: int| 0 <= i < self.projects.keys().len()
                ==> !same_ignoring_case(#[trigger] self.projects.keys()[i], input@),
            r matches Some(s) ==> exists|i: int| 0 <= i < self.projects.keys().len()
                && self.projects.keys()[i] == s@ && same_ignoring_case(self.projects.keys()[i], input@)
                && forall|j: int| 0 <= j < i ==> !same_ignoring_case(#[trigger] self.projects.keys()[j], input@),
    {
        let entries = self.projects.entries();
        let mut i: usize = 0;
        while i < entries.len()
            invariant
                entries@.map_values(|e: (String, Project)| e.0@) == self.projects.keys(),
                entries@.len() == self.projects.keys().len(),
                i <= entries.len(),
                forall|j: int| 0 <= j < i ==> !same_ignoring_case(#[trigger] self.projects.keys()[j], input@),
            decreases entries.len() - i,
        {
            assert(self.projects.keys()[i as int] == entries@[i as int].0@);
            if eq_ignore_case(entries[i].0.as_str(), input) {
                return Some(entries[i].0.as_str());
            }
            i = i + 1;
        }
        None
    }

    /// The project whose path is `path`, compared without ASCII case: the first such in ID order.
    pub fn project_by_path(&self, path: &str) -> (r: Option<&Project>)
        requires
            self.wf(),
        ensures
            r is None <==> forall|i: int| 0 <= i < self.projects.values().len()
                ==> !same_ignoring_case((#[trigger] self.projects.values()[i]).path@, path@),
            r matches Some(p) ==> exists|i: int| 0 <= i < self.projects.values().len()
                && self.projects.values()[i] == *p && same_ignoring_case(p.path@, path@)
                && forall|j: int| 0 <= j < i ==> !same_ignoring_case((#[trigger] self.projects.values()[j]).path@, path@),
    {
        let entries = self.projects.entries();
        let mut i: usize = 0;
        while i < entries.len()
            invariant
                entries@.map_values(|e: (String, Project)| e.1) == self.projects.values(),
                entries@.len() == self.projects.values().len(),
                i <= entries.len(),
                forall|j: int| 0 <= j < i ==> !same_ignoring_case((#[trigger] self.projects.values()[j]).path@, path@),
            decreases entries.len() - i,
        {
            assert(self.projects.values()[i as int] == entries@[i as int].1);
            if eq_ignore_case(entries[i].1.path.as_str(), path) {
                return Some(&entries[i].1);
            }
            i = i + 1;
        }
        None
    }

    /// Refuses when the manifest's schema forbids changing the worktree.
    pub fn require_mutation_support(&self) -> (r: Result<(), Error>)
        ensures
            r is Ok <==> self.mutation_supported,
            r matches Err(e) ==> e@ == ErrorView::Message(
                "当前 fls-projects.toml schema 不受此版本 fls 支持；请先更新 fls 或迁移配置"@),
    {
        if self.mutation_supported {
            Ok(())
        } else {
            Err(Error::message("当前 fls-projects.toml schema 不受此版本 fls 支持；请先更新 fls 或迁移配置"))
        }
    }

    /// Each project's ID mapped to its path.
    pub fn known_paths(&self) -> (r: TextMap<String>)
        requires
            self.wf(),
        ensures
            r.wf(),
            r.keys() == self.projects.keys(),
            forall|k: Seq<char>| #[trigger] r@.contains_key(k) <==> self.projects@.contains_key(k),
            forall|k: Seq<char>| #[trigger] r@.contains_key(k) ==> r@[k]@ == self.projects@[k].path@,
    {
        let entries = self.projects.entries();
        let mut r: TextMap<String> = TextMap::new();
        let mut i: usize = 0;
        while i < entries.len()
            invariant
                self.wf(),
                entries@.map_values(|e: (String, Project)| e.0@) == self.projects.keys(),
                entries@.map_values(|e: (String, Project)| e.1) == self.projects.values(),
                entries@.len() == self.projects.keys().len(),
                i <= entries.len(),
                r.wf(),
                forall|k: Seq<char>| #[trigger] r@.contains_key(k) <==> self.projects.keys().take(i as int).contains(k),
                forall|k: Seq<char>| #[trigger] r@.contains_key(k) ==> r@[k]@ == self.projects@[k].path@,
            decreases entries.len() - i,
        {
            proof {
                self.projects.lemma_view_at(i as int);
                assert(self.projects.keys()[i as int] == entries@[i as int].0@);
                assert(self.projects.values()[i as int] == entries@[i as int].1);
            }
            r.insert(entries[i].0.clone(), entries[i].1.path.clone());
            proof {
                let ks = self.projects.keys();
                assert(ks.take(i + 1) =~= ks.take(i as int).push(ks[i as int]));
                assert forall|k: Seq<char>| #[trigger] r@.contains_key(k) <==> ks.take(i + 1).contains(k) by {
                    if k == ks[i as int] {
                        assert(ks.take(i + 1)[i as int] == k);
                    } else if ks.take(i + 1).contains(k) {
                        let j = choose|j: int| 0 <= j < i + 1 && #[trigger] ks.take(i + 1)[j] == k;
                        assert(ks.take(i as int)[j] == k);
                    }
                    if ks.take(i as int).contains(k) {
                        let j = choose|j: int| 0 <= j < i && #[trigger] ks.take(i as int)[j] == k;
                        assert(ks.take(i + 1)[j] == k);
                    }
                }
            }
            i = i + 1;
        }
        proof {
            let ks = self.projects.keys();
            assert(ks.take(i as int) =~= ks);
            self.projects.lemma_view_dom();
            r.lemma_view_dom();
            assert forall|k: Seq<char>| #[trigger] r@.contains_key(k) <==> self.projects@.contains_key(k) by {
                assert(self.projects@.dom().contains(k) == ks.to_set().contains(k));
            }
            assert forall|x: Seq<char>| r.keys().contains(x) <==> ks.contains(x) by {
                assert(r@.dom().contains(x) == r.keys().to_set().contains(x));
            }
            r.lemma_lengths();
            self.projects.lemma_lengths();
            crate::collections::lemma_sorted_unique(r.keys(), ks);
        }
        r
    }
}

proof fn lemma_first_error_at(ids: Seq<Seq<char>>, paths: Seq<Seq<char>>, i: int)
    requires
        0 <= i,
        first_project_error(ids, paths, i) is None,
    ensures
        first_project_error(ids, paths, i + 1) == project_entry_error(ids, paths, i),
        project_entry_error(ids, paths, i) is Some ==> forall|n: int| n > i ==> #[trigger] first_project_error(ids, paths, n) == project_entry_error(ids, paths, i),
{
    assert forall|n: int| n > i && project_entry_error(ids, paths, i) is Some implies #[trigger] first_project_error(ids, paths, n) == project_entry_error(ids, paths, i) by {
        lemma_first_error_stays(ids, paths, i + 1, n);
    }
}

proof fn lemma_first_error_stays(ids: Seq<Seq<char>>, paths: Seq<Seq<char>>, a: int, b: int)
    requires
        0 <= a <= b,
        first_project_error(ids, paths, a) is Some,
    ensures
        first_project_error(ids, paths, b) == first_project_error(ids, paths, a),
    decreases b - a,
{
    if a < b {
        lemma_first_error_stays(ids, paths, a, b - 1);
    }
}

proof fn lemma_first_control_error_at(cps: Seq<Seq<char>>, paths: Seq<Seq<char>>, i: int)
    requires
        0 <= i,
        first_control_error(cps, paths, i) is None,
    ensures
        first_control_error(cps, paths, i + 1) == control_entry_error(cps, paths, i),
        control_entry_error(cps, paths, i) is Some ==> forall|n: int| n > i ==> #[trigger] first_control_error(cps, paths, n) == control_entry_error(cps, paths, i),
{
    assert forall|n: int| n > i && control_entry_error(cps, paths, i) is Some implies #[trigger] first_control_error(cps, paths, n) == control_entry_error(cps, paths, i) by {
        lemma_first_control_error_stays(cps, paths, i + 1, n);
    }
}

proof fn lemma_first_control_error_stays(cps: Seq<Seq<char>>, paths: Seq<Seq<char>>, a: int, b: int)
    requires
        0 <= a <= b,
        first_control_error(cps, paths, a) is Some,
    ensures
        first_control_error(cps, paths, b) == first_control_error(cps, paths, a),
    decreases b - a,
{
    if a < b {
        lemma_first_control_error_stays(cps, paths, a, b - 1);
    }
}


/// With no error among the first `n` projects, none of them raises one.
proof fn lemma_no_project_error(ids: Seq<Seq<char>>, paths: Seq<Seq<char>>, n: int, i: int)
    requires
        first_project_error(ids, paths, n) is None,
        0 <= i < n,
    ensures
        project_entry_error(ids, paths, i) is None,
    decreases n,
{
    if i < n - 1 {
        lemma_no_project_error(ids, paths, n - 1, i);
    }
}

/// A manifest that loads has valid project IDs and top-level paths, and no two of its
/// projects share an ID or a path, even without ASCII case.
pub proof fn loaded_manifest_is_unambiguous(raw: &ManifestFile)
    requires
        load_error(raw) is None,
    ensures
        forall|i: int| 0 <= i < raw_ids(raw).len() ==> valid_identifier(#[trigger] raw_ids(raw)[i]),
        forall|i: int| 0 <= i < raw_paths(raw).len() ==> top_level_path_error(#[trigger] raw_paths(raw)[i], "项目路径"@) is None,
        forall|i: int, j: int| 0 <= j < i < raw_ids(raw).len()
            ==> lower(#[trigger] raw_ids(raw)[j]) != lower(#[trigger] raw_ids(raw)[i]),
        forall|i: int, j: int| 0 <= j < i < raw_ids(raw).len()
            ==> lower(#[trigger] raw_paths(raw)[j]) != lower(#[trigger] raw_paths(raw)[i]),
        raw_ids(raw).len() > 0,
{
    let ids = raw_ids(raw);
    let paths = raw_paths(raw);
    raw.projects.lemma_lengths();
    assert forall|i: int| 0 <= i < ids.len() implies valid_identifier(#[trigger] ids[i]) by {
        lemma_no_project_error(ids, paths, ids.len() as int, i);
    }
    assert forall|i: int| 0 <= i < paths.len() implies top_level_path_error(#[trigger] paths[i], "项目路径"@) is None by {
        lemma_no_project_error(ids, paths, ids.len() as int, i);
    }
    assert forall|i: int, j: int| 0 <= j < i < ids.len() implies lower(#[trigger] ids[j]) != lower(#[trigger] ids[i]) by {
        lemma_no_project_error(ids, paths, ids.len() as int, i);
    }
    assert forall|i: int, j: int| 0 <= j < i < ids.len() implies lower(#[trigger] paths[j]) != lower(#[trigger] paths[i]) by {
        lemma_no_project_error(ids, paths, ids.len() as int, i);
    }
}


/// With no error among the first `n` control paths, none of them raises one.
proof fn lemma_no_control_error(cps: Seq<Seq<char>>, paths: Seq<Seq<char>>, n: int, i: int)
    requires
        first_control_error(cps, paths, n) is None,
        0 <= i < n,
    ensures
        control_entry_error(cps, paths, i) is None,
    decreases n,
{
    if i < n - 1 {
        lemma_no_control_error(cps, paths, n - 1, i);
    }
}

/// A manifest built from an accepted file, as `Manifest::load` builds it, is unambiguous.
proof fn lemma_loaded_unambiguous(raw: &ManifestFile, m: &Manifest)
    requires
        raw.projects.wf(),
        load_error(raw) is None,
        m.wf(),
        m.projects.keys() == raw.projects.keys(),
        forall|k: Seq<char>| #[trigger] m.projects@.contains_key(k) ==> m.projects@[k].path@ == raw.projects@[k].path@,
        strictly_sorted(views(m.control_paths@)),
        forall|x: Seq<char>| #[trigger] views(m.control_paths@).contains(x) <==> exists|i: int|
            0 <= i < raw.control_paths.len() && views(raw.control_paths@)[i] == x
                && first_of_its_case(views(raw.control_paths@), i),
    ensures
        m.unambiguous(),
{
    let ids = raw_ids(raw);
    let paths = raw_paths(raw);
    let rc = views(raw.control_paths@);
    let cps = views(m.control_paths@);
    loaded_manifest_is_unambiguous(raw);
    raw.projects.lemma_lengths();
    m.projects.lemma_view_dom();
    assert(first_control_error(rc, paths, rc.len() as int) is None);
    assert forall|i: int| 0 <= i < ids.len() implies #[trigger] m.projects@[ids[i]].path@ == paths[i] by {
        raw.projects.lemma_view_at(i);
        m.projects.lemma_view_at(i);
    }
    assert forall|k: Seq<char>| #[trigger] m.projects@.contains_key(k) implies exists|t: int| 0 <= t < ids.len() && ids[t] == k
        && m.projects@[k].path@ == paths[t] by {
        assert(m.projects.keys().to_set().contains(k));
        let t = choose|t: int| 0 <= t < ids.len() && ids[t] == k;
        assert(m.projects@[ids[t]].path@ == paths[t]);
    }
    assert forall|k: Seq<char>| #[trigger] m.projects@.contains_key(k)
        implies top_level_path_error(m.projects@[k].path@, "项目路径"@) is None by {
        let t = choose|t: int| 0 <= t < ids.len() && ids[t] == k && m.projects@[k].path@ == paths[t];
        assert(top_level_path_error(paths[t], "项目路径"@) is None);
    }
    assert forall|i: int, j: int| 0 <= j < i < ids.len()
        implies lower(m.projects@[#[trigger] ids[j]].path@) != lower(m.projects@[#[trigger] ids[i]].path@) by {
        assert(m.projects@[ids[i]].path@ == paths[i]);
        assert(m.projects@[ids[j]].path@ == paths[j]);
        assert(lower(paths[j]) != lower(paths[i]));
    }
    // Each kept control path is a raw one that is first of its case and raises no error.
    assert forall|i: int| 0 <= i < cps.len() implies exists|a: int| 0 <= a < rc.len() && rc[a] == #[trigger] cps[i]
        && first_of_its_case(rc, a) && control_entry_error(rc, paths, a) is None by {
        assert(cps.contains(cps[i]));
        let a = choose|a: int| 0 <= a < rc.len() && rc[a] == cps[i] && first_of_its_case(rc, a);
        lemma_no_control_error(rc, paths, rc.len() as int, a);
    }
    assert forall|i: int| 0 <= i < cps.len() implies top_level_path_error(#[trigger] cps[i], "控制路径"@) is None by {
        let a = choose|a: int| 0 <= a < rc.len() && rc[a] == cps[i]
            && first_of_its_case(rc, a) && control_entry_error(rc, paths, a) is None;
    }
    assert forall|i: int, j: int| 0 <= j < i < cps.len() implies lower(#[trigger] cps[j]) != lower(#[trigger] cps[i]) by {
        let a = choose|a: int| 0 <= a < rc.len() && rc[a] == cps[i]
            && first_of_its_case(rc, a) && control_entry_error(rc, paths, a) is None;
        let b = choose|b: int| 0 <= b < rc.len() && rc[b] == cps[j]
            && first_of_its_case(rc, b) && control_entry_error(rc, paths, b) is None;
        crate::collections::lemma_sorted_no_duplicates(cps);
        if a == b {
            assert(cps[i] == cps[j]);
        } else if b < a {
            assert(lower(rc[b]) != lower(rc[a]));
        } else {
            assert(lower(rc[a]) != lower(rc[b]));
        }
    }
    assert forall|i: int, k: Seq<char>| 0 <= i < cps.len() && #[trigger] m.projects@.contains_key(k)
        implies lower(#[trigger] cps[i]) != lower(m.projects@[k].path@) by {
        let a = choose|a: int| 0 <= a < rc.len() && rc[a] == cps[i]
            && first_of_its_case(rc, a) && control_entry_error(rc, paths, a) is None;
        let t = choose|t: int| 0 <= t < ids.len() && ids[t] == k && m.projects@[k].path@ == paths[t];
        assert(!(exists|j: int| 0 <= j < paths.len() && lower(#[trigger] paths[j]) == lower(rc[a])));
        assert(paths.len() == ids.len());
        if lower(paths[t]) == lower(rc[a]) {
            assert(0 <= t < paths.len() && lower(paths[t]) == lower(rc[a]));
        }
    }
}

}
