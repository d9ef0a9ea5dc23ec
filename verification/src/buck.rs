//! Buck2: the version it reports, the dependency query, and what its answer means.
use vstd::prelude::*;

use crate::collections::TextSet;
use crate::error::{message2, Error, ErrorView};
use crate::manifest::{Manifest, Project};
use crate::text::{
    chars_of, concat2, concat3, decode_utf8, lower, owned, same_ignoring_case, split_chars,
    split_on, starts_with, strip_prefix, string_from_chars, to_lower, trim, trimmed, views,
    utf8_error_text,
};

verus! {

/// The projects a dependency query reached.
#[derive(Debug)]
pub struct DependencyResolution {
    pub projects: TextSet,
    pub unknown_root_packages: TextSet,
    pub labels: Vec<String>,
}

/// Reads the version that `buck2 --version` printed.
pub fn version(stdout: Vec<u8>) -> (r: Result<String, Error>)
    ensures
        r is Ok <==> vstd::utf8::valid_utf8(stdout@),
        r matches Ok(s) ==> s@ == trimmed(vstd::utf8::decode_utf8(stdout@)),
        r matches Err(e) ==> e@ == ErrorView::Message(
            "Buck2 版本输出不是有效的 UTF-8: "@ + utf8_error_text(stdout@)),
{
    match decode_utf8(stdout) {
        Ok(s) => Ok(trim(s.as_str())),
        Err(source) => Err(message2("Buck2 版本输出不是有效的 UTF-8: ", source.as_str())),
    }
}

/// The arguments of `mise` that run the pinned Buck2 with `args`.
pub fn buck2_command(version: &str, args: Vec<String>) -> (r: Vec<String>)
    ensures
        views(r@) == seq!["--locked"@, "exec"@, "buck2@"@ + version@, "--"@, "buck2"@] + views(args@),
{
    let mut r: Vec<String> = Vec::new();
    r.push(owned("--locked"));
    r.push(owned("exec"));
    r.push(concat2("buck2@", version));
    r.push(owned("--"));
    r.push(owned("buck2"));
    let ghost head = views(r@);
    let mut rest = args;
    let ghost a = views(rest@);
    r.append(&mut rest);
    assert(views(r@) =~= head + a);
    r
}

/// The label of a project's `:workspace` boundary target.
pub fn workspace_target(project_path: &str) -> (r: String)
    ensures
        r@ == "//"@ + project_path@ + ":workspace"@,
{
    concat3("//", project_path, ":workspace")
}

/// The arguments of `mise` that ask the pinned Buck2 (`version`) the query `expression`, as JSON.
pub fn uquery_command(version: &str, expression: &str) -> (r: Vec<String>)
    ensures
        views(r@) == seq!["--locked"@, "exec"@, "buck2@"@ + version@, "--"@, "buck2"@,
            "uquery"@, expression@, "--json"@, "--console=simple"@],
{
    let args = vec![owned("uquery"), owned(expression), owned("--json"), owned("--console=simple")];
    let r = buck2_command(version, args);
    assert(views(r@) =~= seq!["--locked"@, "exec"@, "buck2@"@ + version@, "--"@, "buck2"@,
        "uquery"@, expression@, "--json"@, "--console=simple"@]);
    r
}

/// The arguments of `mise` that check, with the pinned Buck2 (`version`), that a project
/// directory has a queryable `:workspace` target; the project is refused when that query fails.
pub fn verify_workspace_target(version: &str, project_path: &str) -> (r: Vec<String>)
    ensures
        views(r@) == seq!["--locked"@, "exec"@, "buck2@"@ + version@, "--"@, "buck2"@,
            "uquery"@, "//"@ + project_path@ + ":workspace"@, "--json"@, "--console=simple"@],
{
    let target = workspace_target(project_path);
    uquery_command(version, target.as_str())
}

/// The Buck2 query for the dependency closure of the explicit projects that the
/// manifest knows, or `None` when there is nothing to ask.
pub open spec fn closure_query(m: &Manifest, explicit: Seq<Seq<char>>) -> Option<Seq<char>> {
    let known = explicit.filter(known_to(m));
    if known.len() == 0 {
        None
    } else {
        Some("deps(set("@ + crate::text::joined(known.map_values(target_pattern(m)), " "@) + "))"@)
    }
}

/// Whether the manifest knows a project ID.
pub open spec fn known_to(m: &Manifest) -> spec_fn(Seq<char>) -> bool {
    |id: Seq<char>| m.projects@.contains_key(id)
}

/// The Buck2 target pattern for everything under a project's directory.
pub open spec fn target_pattern(m: &Manifest) -> spec_fn(Seq<char>) -> Seq<char> {
    |id: Seq<char>| "'//"@ + m.projects@[id].path@ + "/...'"@
}

/// The query that `resolve` hands to `buck2 uquery`, if there is one.
pub fn resolve_query(manifest: &Manifest, explicit: &TextSet) -> (r: Option<String>)
    requires
        manifest.wf(),
        explicit.wf(),
    ensures
        r matches Some(q) ==> closure_query(manifest, explicit.elems()) == Some(q@),
        r is None ==> closure_query(manifest, explicit.elems()) is None,
{
    let ids = explicit.to_vec();
    let mut parts: Vec<String> = Vec::new();
    let ghost pred = known_to(manifest);
    let ghost f = target_pattern(manifest);
    let mut i: usize = 0;
    while i < ids.len()
        invariant
            manifest.wf(),
            views(ids@) == explicit.elems(),
            i <= ids.len(),
            pred == known_to(manifest),
            f == target_pattern(manifest),
            views(parts@) == explicit.elems().take(i as int).filter(pred).map_values(f),
        decreases ids.len() - i,
    {
        let ghost id = ids@[i as int]@;
        proof {
            let es = explicit.elems();
            assert(es[i as int] == id);
            assert(es.take(i + 1) =~= es.take(i as int).push(id));
            es.take(i as int).lemma_filter_push(id, pred);
            assert(es.take(i + 1).filter(pred) == if pred(id) { es.take(i as int).filter(pred).push(id) } else { es.take(i as int).filter(pred) });
        }
        match manifest.projects.get(ids[i].as_str()) {
            Some(p) => {
                let ghost before = views(parts@);
                parts.push(concat3("'//", p.path.as_str(), "/...'"));
                proof {
                    let es = explicit.elems();
                    assert(ids@[i as int]@ == id);
                    assert(manifest.projects@.contains_key(id));
                    assert(pred(id));
                    assert(f(id) == "'//"@ + p.path@ + "/...'"@);
                    assert(views(parts@) =~= before.push(f(id)));
                    es.take(i as int).filter(pred).lemma_push_map_commute(f, id);
                    assert(views(parts@) =~= explicit.elems().take(i + 1).filter(pred).map_values(f));
                }
            },
            None => {
                proof {
                    assert(!pred(id));
                    assert(views(parts@) =~= explicit.elems().take(i + 1).filter(pred).map_values(f));
                }
            },
        }
        i = i + 1;
    }
    assert(explicit.elems().take(i as int) =~= explicit.elems());
    if parts.len() == 0 {
        None
    } else {
        let body = crate::text::join(&parts, " ");
        Some(concat3("deps(set(", body.as_str(), "))"))
    }
}

// ---------------------------------------------------------------- labels

/// The top-level directory of a label of the root cell (`root//<dir>/...:<name>`),
/// when it has a non-empty one.
pub open spec fn label_top(label: Seq<char>) -> Option<Seq<char>> {
    if starts_with(label, "root//"@) {
        let package = split_on(label.skip(6), ':')[0];
        let top = split_on(package, '/')[0];
        if top.len() > 0 {
            Some(top)
        } else {
            None
        }
    } else {
        None
    }
}

/// Project `i` is the first, in ID order, whose path is `top` without ASCII case.
pub open spec fn first_path_match(vals: Seq<Project>, top: Seq<char>, i: int) -> bool {
    &&& 0 <= i < vals.len()
    &&& same_ignoring_case(vals[i].path@, top)
    &&& forall|j: int| 0 <= j < i ==> !same_ignoring_case((#[trigger] vals[j]).path@, top)
}

/// The label's top-level directory is, first in ID order, the path of project `i`.
pub open spec fn label_names_project(vals: Seq<Project>, label: Seq<char>, i: int) -> bool {
    label_top(label) is Some && first_path_match(vals, label_top(label)->0, i)
}

/// No project's path is `top` without ASCII case.
pub open spec fn no_path_match(vals: Seq<Project>, top: Seq<char>) -> bool {
    forall|j: int| 0 <= j < vals.len() ==> !same_ignoring_case((#[trigger] vals[j]).path@, top)
}

/// `top` is a control path without ASCII case.
pub open spec fn is_control_path(m: &Manifest, top: Seq<char>) -> bool {
    exists|j: int| 0 <= j < m.control_paths.len() && lower(#[trigger] views(m.control_paths@)[j]) == lower(top)
}

/// The first character-level piece of `v` before `c`, as a string.
fn first_piece(v: &Vec<char>, c: char) -> (r: Vec<char>)
    ensures
        r@ == split_on(v@, c)[0],
{
    let pieces = split_chars(v, c);
    proof {
        crate::text::lemma_split_nonempty(v@, c);
        assert(pieces@.map_values(|p: Vec<char>| p@)[0] == pieces@[0]@);
    }
    let mut r: Vec<char> = Vec::new();
    let first = &pieces[0];
    let mut i: usize = 0;
    while i < first.len()
        invariant
            i <= first.len(),
            r@ == first@.take(i as int),
        decreases first.len() - i,
    {
        r.push(first[i]);
        assert(r@ =~= first@.take(i + 1));
        i = i + 1;
    }
    assert(first@.take(i as int) =~= first@);
    r
}

/// The top-level directory of a label, computed.
fn label_top_exec(label: &str) -> (r: Option<String>)
    ensures
        r matches Some(t) ==> label_top(label@) == Some(t@),
        r is None ==> label_top(label@) is None,
{
    proof { reveal_strlit("root//"); }
    match strip_prefix(label, "root//") {
        None => None,
        Some(rest) => {
            let rv = chars_of(rest.as_str());
            let package = first_piece(&rv, ':');
            let top = first_piece(&package, '/');
            if top.len() == 0 {
                None
            } else {
                Some(string_from_chars(&top))
            }
        },
    }
}

/// Sorts the labels that a dependency query returned into the manifest's projects and
/// the top-level directories of the root cell that no project or control path covers.
pub fn classify_labels(manifest: &Manifest, labels: Vec<String>) -> (r: Result<DependencyResolution, Error>)
    requires
        manifest.wf(),
    ensures
        r matches Ok(res) ==> {
            &&& res.projects.wf()
            &&& res.unknown_root_packages.wf()
            &&& views(res.labels@) == views(labels@)
            &&& forall|x: Seq<char>| #[trigger] res.projects@.contains(x) <==> exists|k: int, i: int|
                0 <= k < labels.len() && label_names_project(manifest.projects.values(), views(labels@)[k], i)
                    && manifest.projects.values()[i].id@ == x
            &&& forall|x: Seq<char>| #[trigger] res.unknown_root_packages@.contains(x) <==> exists|k: int|
                0 <= k < labels.len() && label_top(#[trigger] views(labels@)[k]) == Some(x)
                    && no_path_match(manifest.projects.values(), x)
                    && !is_control_path(manifest, x)
        },
        r is Ok,
{
    let mut control = TextSet::new();
    let mut c: usize = 0;
    while c < manifest.control_paths.len()
        invariant
            control.wf(),
            c <= manifest.control_paths.len(),
            forall|x: Seq<char>| #[trigger] control@.contains(x) <==> exists|j: int|
                0 <= j < c && lower(#[trigger] views(manifest.control_paths@)[j]) == x,
        decreases manifest.control_paths.len() - c,
    {
        control.insert(to_lower(manifest.control_paths[c].as_str()));
        proof {
            assert forall|x: Seq<char>| #[trigger] control@.contains(x) <==> exists|j: int|
                0 <= j < c + 1 && lower(#[trigger] views(manifest.control_paths@)[j]) == x by {
                if x == lower(views(manifest.control_paths@)[c as int]) {
                    assert(lower(views(manifest.control_paths@)[c as int]) == x);
                }
            }
        }
        c = c + 1;
    }
    let ghost ls = views(labels@);
    let ghost vals = manifest.projects.values();
    let mut projects = TextSet::new();
    let mut unknown = TextSet::new();
    let mut k: usize = 0;
    while k < labels.len()
        invariant
            manifest.wf(),
            ls == views(labels@),
            vals == manifest.projects.values(),
            control.wf(),
            projects.wf(),
            unknown.wf(),
            k <= labels.len(),
            forall|x: Seq<char>| #[trigger] control@.contains(x) <==> exists|j: int|
                0 <= j < manifest.control_paths.len() && lower(#[trigger] views(manifest.control_paths@)[j]) == x,
            forall|x: Seq<char>| #[trigger] projects@.contains(x) <==> exists|q: int, i: int|
                0 <= q < k && label_names_project(vals, ls[q], i) && vals[i].id@ == x,
            forall|x: Seq<char>| #[trigger] unknown@.contains(x) <==> exists|q: int|
                0 <= q < k && label_top(#[trigger] ls[q]) == Some(x)
                    && no_path_match(vals, x) && !is_control_path(manifest, x),
        decreases labels.len() - k,
    {
        assert(ls[k as int] == labels@[k as int]@);
        match label_top_exec(labels[k].as_str()) {
            None => {
                proof {
                    assert forall|x: Seq<char>| #[trigger] projects@.contains(x) <==> exists|q: int, i: int|
                        0 <= q < k + 1 && label_names_project(vals, ls[q], i) && vals[i].id@ == x by {
                        if exists|q: int, i: int| 0 <= q < k + 1 && label_names_project(vals, ls[q], i) && vals[i].id@ == x {
                            let (q, i) = choose|q: int, i: int| 0 <= q < k + 1 && label_names_project(vals, ls[q], i) && vals[i].id@ == x;
                            assert(q < k);
                        }
                    }
                    assert forall|x: Seq<char>| #[trigger] unknown@.contains(x) <==> exists|q: int|
                        0 <= q < k + 1 && label_top(#[trigger] ls[q]) == Some(x)
                            && no_path_match(vals, x) && !is_control_path(manifest, x) by {
                        if exists|q: int| 0 <= q < k + 1 && label_top(#[trigger] ls[q]) == Some(x)
                            && no_path_match(vals, x) && !is_control_path(manifest, x) {
                            let q = choose|q: int| 0 <= q < k + 1 && label_top(#[trigger] ls[q]) == Some(x)
                                && no_path_match(vals, x) && !is_control_path(manifest, x);
                            assert(q < k);
                        }
                    }
                }
            },
            Some(top) => {
                let ghost t = top@;
                match manifest.project_by_path(top.as_str()) {
                    Some(p) => {
                        let ghost i = choose|i: int| 0 <= i < vals.len() && vals[i] == *p
                            && same_ignoring_case(p.path@, t)
                            && forall|j: int| 0 <= j < i ==> !same_ignoring_case((#[trigger] vals[j]).path@, t);
                        proof {
                            assert(first_path_match(vals, t, i));
                        }
                        projects.insert(p.id.clone());
                        proof {
                            assert forall|x: Seq<char>| #[trigger] projects@.contains(x) <==> exists|q: int, i2: int|
                                0 <= q < k + 1 && label_names_project(vals, ls[q], i2) && vals[i2].id@ == x by {
                                if x == p.id@ {
                                    assert(label_top(ls[k as int]) == Some(t));
                                    assert(vals[i].id@ == x);
                                    assert(label_names_project(vals, ls[k as int], i));
                                }
                                if exists|q: int, i2: int| 0 <= q < k + 1 && label_names_project(vals, ls[q], i2) && vals[i2].id@ == x {
                                    let (q, i2) = choose|q: int, i2: int| 0 <= q < k + 1 && label_names_project(vals, ls[q], i2) && vals[i2].id@ == x;
                                    if q == k {
                                        lemma_first_match_unique(vals, t, i, i2);
                                    }
                                }
                            }
                            assert forall|x: Seq<char>| #[trigger] unknown@.contains(x) <==> exists|q: int|
                                0 <= q < k + 1 && label_top(#[trigger] ls[q]) == Some(x)
                                    && no_path_match(vals, x) && !is_control_path(manifest, x) by {
                                if exists|q: int| 0 <= q < k + 1 && label_top(#[trigger] ls[q]) == Some(x)
                                    && no_path_match(vals, x) && !is_control_path(manifest, x) {
                                    let q = choose|q: int| 0 <= q < k + 1 && label_top(#[trigger] ls[q]) == Some(x)
                                        && no_path_match(vals, x) && !is_control_path(manifest, x);
                                    if q == k {
                                        assert(!same_ignoring_case(vals[i].path@, x));
                                    }
                                }
                            }
                        }
                    },
                    None => {
                        let folded = to_lower(top.as_str());
                        let is_control = control.contains(folded.as_str());
                        proof {
                            if is_control {
                                let j = choose|j: int| 0 <= j < manifest.control_paths.len()
                                    && lower(#[trigger] views(manifest.control_paths@)[j]) == lower(t);
                                assert(is_control_path(manifest, t));
                            }
                            if is_control_path(manifest, t) {
                                let j = choose|j: int| 0 <= j < manifest.control_paths.len()
                                    && lower(#[trigger] views(manifest.control_paths@)[j]) == lower(t);
                                assert(control@.contains(lower(t)));
                            }
                        }
                        if !is_control {
                            unknown.insert(top);
                        }
                        proof {
                            assert forall|x: Seq<char>| #[trigger] projects@.contains(x) <==> exists|q: int, i2: int|
                                0 <= q < k + 1 && label_names_project(vals, ls[q], i2) && vals[i2].id@ == x by {
                                if exists|q: int, i2: int| 0 <= q < k + 1 && label_names_project(vals, ls[q], i2) && vals[i2].id@ == x {
                                    let (q, i2) = choose|q: int, i2: int| 0 <= q < k + 1 && label_names_project(vals, ls[q], i2) && vals[i2].id@ == x;
                                    if q == k {
                                        assert(!same_ignoring_case(vals[i2].path@, t));
                                    }
                                }
                            }
                            assert forall|x: Seq<char>| #[trigger] unknown@.contains(x) <==> exists|q: int|
                                0 <= q < k + 1 && label_top(#[trigger] ls[q]) == Some(x)
                                    && no_path_match(vals, x) && !is_control_path(manifest, x) by {
                                if x == t && !is_control {
                                    assert(label_top(ls[k as int]) == Some(x));
                                }
                                if exists|q: int| 0 <= q < k + 1 && label_top(#[trigger] ls[q]) == Some(x)
                                    && no_path_match(vals, x) && !is_control_path(manifest, x) {
                                    let q = choose|q: int| 0 <= q < k + 1 && label_top(#[trigger] ls[q]) == Some(x)
                                        && no_path_match(vals, x) && !is_control_path(manifest, x);
                                }
                            }
                        }
                    },
                }
            },
        }
        k = k + 1;
    }
    Ok(DependencyResolution { projects, unknown_root_packages: unknown, labels })
}

proof fn lemma_first_match_unique(vals: Seq<Project>, t: Seq<char>, i: int, j: int)
    requires
        first_path_match(vals, t, i),
        first_path_match(vals, t, j),
    ensures
        i == j,
{
}

// ---------------------------------------------------------------- the query's answer

/// What `serde_json` makes of bytes read as a JSON array of strings:
/// the strings, or the text of its error.
pub uninterp spec fn json_string_list(bytes: Seq<u8>) -> Result<Seq<Seq<char>>, Seq<char>>;

/// The texts of a parse result.
pub open spec fn list_result_view(r: &Result<Vec<String>, String>) -> Result<Seq<Seq<char>>, Seq<char>> {
    match r {
        Ok(v) => Ok(views(v@)),
        Err(e) => Err(e@),
    }
}

/// Parses a JSON array of strings (`serde_json::from_slice::<Vec<String>>`).
#[verifier::external_body]
fn parse_string_list(bytes: &[u8]) -> (r: Result<Vec<String>, String>)
    ensures
        json_string_list(bytes@) == list_result_view(&r),
{
    serde_json::from_slice::<Vec<String>>(bytes).map_err(|e| e.to_string())
}

/// Reads the labels that `buck2 uquery --json` printed and classifies them.
pub fn resolve(manifest: &Manifest, stdout: &[u8]) -> (r: Result<DependencyResolution, Error>)
    requires
        manifest.wf(),
    ensures
        r is Ok <==> json_string_list(stdout@) is Ok,
        r matches Err(e) ==> json_string_list(stdout@) matches Err(t)
            && e@ == ErrorView::Message("无法解析 Buck2 uquery 的 JSON 输出: "@ + t),
        r matches Ok(res) ==> json_string_list(stdout@) matches Ok(ls) && views(res.labels@) == ls,
{
    match parse_string_list(stdout) {
        Ok(labels) => classify_labels(manifest, labels),
        Err(source) => Err(message2("无法解析 Buck2 uquery 的 JSON 输出: ", source.as_str())),
    }
}

/// The resolution of an empty selection: nothing.
pub fn empty_resolution() -> (r: DependencyResolution)
    ensures
        r.projects.wf(),
        r.unknown_root_packages.wf(),
        r.projects@ == Set::<Seq<char>>::empty(),
        r.unknown_root_packages@ == Set::<Seq<char>>::empty(),
        r.labels@.len() == 0,
{
    DependencyResolution { projects: TextSet::new(), unknown_root_packages: TextSet::new(), labels: Vec::new() }
}

}
