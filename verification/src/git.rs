//! What fls reads from Git, and the sparse-checkout rules it writes.
use vstd::prelude::*;

use crate::collections::{TextMap, TextSet};
use crate::error::{message2, message3, Error, ErrorView};
use crate::manifest::Manifest;
use crate::order::strictly_sorted;
use crate::text::{
    bytes_to_vec, chars_of, concat2, concat3, decode_utf8, joined, owned, split_bytes,
    split_chars, split_on, string_from_chars, trim, trimmed, utf8_error_text, views,
};

verus! {

/// A Git worktree: its top-level directory and its metadata directory.
#[derive(Debug)]
pub struct Git {
    pub root: String,
    pub git_dir: String,
}

/// Whether sparse checkout is on, and its rules.
#[derive(Debug)]
pub struct SparseSnapshot {
    pub enabled: bool,
    pub patterns: String,
}

/// Whether a directory holds local changes that removing it would lose, and ignored files.
#[derive(Debug)]
pub struct Dirtiness {
    pub blocking: bool,
    pub ignored: bool,
}

/// How the host's `Path` reads paths: by Unix rules, or by Windows rules (drive and UNC
/// prefixes, `\` as well as `/` separating components).
#[derive(Clone, Copy, Debug, PartialEq, Eq, Structural)]
pub enum PathStyle {
    Unix,
    Windows,
}

/// `c` separates path components.
pub open spec fn is_separator(style: PathStyle, c: char) -> bool {
    c == '/' || (style == PathStyle::Windows && c == '\\')
}

/// The separator `Path::join` inserts.
pub open spec fn main_separator(style: PathStyle) -> char {
    if style == PathStyle::Windows { '\\' } else { '/' }
}

/// The first separator of `p` at or after `from`, or the length of `p`.
pub open spec fn next_separator(style: PathStyle, p: Seq<char>, from: int) -> int
    decreases p.len() - from,
{
    if from >= p.len() {
        p.len() as int
    } else if is_separator(style, p[from]) {
        from
    } else {
        next_separator(style, p, from + 1)
    }
}

/// `p` begins with two separators: a UNC prefix `\\server\share`.
pub open spec fn starts_unc(p: Seq<char>) -> bool {
    p.len() >= 2 && is_separator(PathStyle::Windows, p[0]) && is_separator(PathStyle::Windows, p[1])
}

/// `p` begins with a drive prefix `X:`.
pub open spec fn starts_drive(p: Seq<char>) -> bool {
    p.len() >= 2 && (('a' <= p[0] && p[0] <= 'z') || ('A' <= p[0] && p[0] <= 'Z')) && p[1] == ':'
}

/// The length of a Windows path's prefix: `\\server\share`, a drive `X:`, or none.
pub open spec fn prefix_length(p: Seq<char>) -> int {
    if starts_unc(p) {
        let server_end = next_separator(PathStyle::Windows, p, 2);
        if server_end < p.len() {
            next_separator(PathStyle::Windows, p, server_end + 1)
        } else {
            p.len() as int
        }
    } else if starts_drive(p) {
        2
    } else {
        0
    }
}

/// `Path::is_absolute`: on Unix a path that starts at the root; on Windows one with a prefix
/// and a root (`C:\x`, `C:/x`, `\\server\share`), so that `C:x` and `\x` are not.
pub open spec fn is_absolute(style: PathStyle, p: Seq<char>) -> bool {
    match style {
        PathStyle::Unix => p.len() > 0 && p[0] == '/',
        PathStyle::Windows => starts_unc(p) || (starts_drive(p) && p.len() > 2 && is_separator(style, p[2])),
    }
}

/// `Path::join(base, name)`: an absolute `name` replaces `base`; on Windows a `name` with a
/// prefix but no root replaces it too, and one with a root but no prefix keeps only the
/// prefix of `base`; otherwise `name` follows `base`, with a separator unless `base` is
/// empty, ends in one, or is a bare drive `X:`.
pub open spec fn path_join(style: PathStyle, base: Seq<char>, name: Seq<char>) -> Seq<char> {
    if is_absolute(style, name) {
        name
    } else if style == PathStyle::Windows && prefix_length(name) > 0 {
        name
    } else if style == PathStyle::Windows && name.len() > 0 && is_separator(style, name[0]) {
        base.take(prefix_length(base)) + name
    } else if base.len() == 0 || is_separator(style, base.last())
        || (style == PathStyle::Windows && starts_drive(base) && base.len() == 2) {
        base + name
    } else {
        base + seq![main_separator(style)] + name
    }
}

fn is_separator_exec(style: PathStyle, c: char) -> (b: bool)
    ensures
        b == is_separator(style, c),
{
    c == '/' || (style == PathStyle::Windows && c == '\\')
}

fn next_separator_exec(style: PathStyle, v: &Vec<char>, from: usize) -> (r: usize)
    requires
        from <= v.len(),
    ensures
        r as int == next_separator(style, v@, from as int),
        from <= r <= v.len(),
{
    let mut i = from;
    while i < v.len()
        invariant
            from <= i <= v.len(),
            next_separator(style, v@, i as int) == next_separator(style, v@, from as int),
        decreases v.len() - i,
    {
        if is_separator_exec(style, v[i]) {
            return i;
        }
        i = i + 1;
    }
    i
}

fn starts_unc_exec(v: &Vec<char>) -> (b: bool)
    ensures
        b == starts_unc(v@),
{
    v.len() >= 2 && is_separator_exec(PathStyle::Windows, v[0]) && is_separator_exec(PathStyle::Windows, v[1])
}

fn starts_drive_exec(v: &Vec<char>) -> (b: bool)
    ensures
        b == starts_drive(v@),
{
    v.len() >= 2 && (('a' <= v[0] && v[0] <= 'z') || ('A' <= v[0] && v[0] <= 'Z')) && v[1] == ':'
}

fn prefix_length_exec(v: &Vec<char>) -> (r: usize)
    ensures
        r as int == prefix_length(v@),
        r <= v.len(),
{
    if starts_unc_exec(v) {
        let server_end = next_separator_exec(PathStyle::Windows, v, 2);
        if server_end < v.len() {
            next_separator_exec(PathStyle::Windows, v, server_end + 1)
        } else {
            v.len()
        }
    } else if starts_drive_exec(v) {
        2
    } else {
        0
    }
}

fn is_absolute_exec(style: PathStyle, v: &Vec<char>) -> (b: bool)
    ensures
        b == is_absolute(style, v@),
{
    match style {
        PathStyle::Unix => v.len() > 0 && v[0] == '/',
        PathStyle::Windows => starts_unc_exec(v) || (starts_drive_exec(v) && v.len() > 2 && is_separator_exec(style, v[2])),
    }
}

/// The first `n` characters of `v`.
fn take_chars(v: &Vec<char>, n: usize) -> (r: Vec<char>)
    requires
        n <= v.len(),
    ensures
        r@ == v@.take(n as int),
{
    let mut r: Vec<char> = Vec::new();
    let mut i: usize = 0;
    while i < n
        invariant
            i <= n <= v.len(),
            r@ == v@.take(i as int),
        decreases n - i,
    {
        r.push(v[i]);
        assert(r@ =~= v@.take(i + 1));
        i = i + 1;
    }
    r
}

/// `Path::join` under `style`.
pub fn join_path(style: PathStyle, base: &str, name: &str) -> (r: String)
    ensures
        r@ == path_join(style, base@, name@),
{
    let b = chars_of(base);
    let n = chars_of(name);
    if is_absolute_exec(style, &n) {
        return owned(name);
    }
    let windows = style == PathStyle::Windows;
    if windows && prefix_length_exec(&n) > 0 {
        return owned(name);
    }
    if windows && n.len() > 0 && is_separator_exec(style, n[0]) {
        let k = prefix_length_exec(&b);
        let head = string_from_chars(&take_chars(&b, k));
        return concat2(head.as_str(), name);
    }
    if b.len() == 0 || is_separator_exec(style, b[b.len() - 1]) || (windows && starts_drive_exec(&b) && b.len() == 2) {
        concat2(base, name)
    } else if windows {
        proof { reveal_strlit("\\"); }
        concat3(base, "\\", name)
    } else {
        proof { reveal_strlit("/"); }
        concat3(base, "/", name)
    }
}

/// The text a command printed: UTF-8, trimmed.
pub open spec fn text_result(bytes: Seq<u8>, description: Seq<char>) -> Result<Seq<char>, ErrorView> {
    if vstd::utf8::valid_utf8(bytes) {
        Ok(trimmed(vstd::utf8::decode_utf8(bytes)))
    } else {
        Err(ErrorView::Message(description + " 不是有效的 UTF-8: "@ + utf8_error_text(bytes)))
    }
}

/// Reads what a command printed as trimmed UTF-8 text.
pub fn text(bytes: &[u8], description: &str) -> (r: Result<String, Error>)
    ensures
        r matches Ok(s) ==> text_result(bytes@, description@) == Ok::<Seq<char>, ErrorView>(s@),
        r matches Err(e) ==> text_result(bytes@, description@) == Err::<Seq<char>, ErrorView>(e@),
{
    match decode_utf8(bytes_to_vec(bytes)) {
        Ok(s) => Ok(trim(s.as_str())),
        Err(source) => Err(message3(description, " 不是有效的 UTF-8: ", source.as_str())),
    }
}

/// The non-empty NUL-separated records of `bytes`.
pub open spec fn nul_records(bytes: Seq<u8>) -> Seq<Seq<u8>> {
    split_on(bytes, 0u8).filter(|p: Seq<u8>| p.len() > 0)
}

/// Reads the NUL-separated paths that `git ls-files -z` printed.
pub fn split_nul_paths(bytes: &[u8]) -> (r: Result<Vec<String>, Error>)
    ensures
        r is Ok <==> forall|i: int| 0 <= i < nul_records(bytes@).len()
            ==> vstd::utf8::valid_utf8(#[trigger] nul_records(bytes@)[i]),
        r matches Ok(v) ==> views(v@) == nul_records(bytes@).map_values(|p: Seq<u8>| vstd::utf8::decode_utf8(p)),
        r matches Err(e) ==> exists|i: int| 0 <= i < nul_records(bytes@).len()
            && !vstd::utf8::valid_utf8(nul_records(bytes@)[i])
            && (forall|j: int| 0 <= j < i ==> vstd::utf8::valid_utf8(#[trigger] nul_records(bytes@)[j]))
            && e@ == ErrorView::Message("Git 路径不是有效的 UTF-8: "@ + utf8_error_text(nul_records(bytes@)[i])),
{
    let all = bytes_to_vec(bytes);
    let parts = split_bytes(&all, 0u8);
    let ghost pred = |p: Seq<u8>| p.len() > 0;
    let ghost dec = |p: Seq<u8>| vstd::utf8::decode_utf8(p);
    let ghost ps = split_on(bytes@, 0u8);
    let mut out: Vec<String> = Vec::new();
    let mut i: usize = 0;
    while i < parts.len()
        invariant
            all@ == bytes@,
            parts@.map_values(|p: Vec<u8>| p@) == ps,
            ps == split_on(bytes@, 0u8),
            pred == (|p: Seq<u8>| p.len() > 0),
            dec == (|p: Seq<u8>| vstd::utf8::decode_utf8(p)),
            i <= parts.len(),
            forall|j: int| 0 <= j < ps.take(i as int).filter(pred).len()
                ==> vstd::utf8::valid_utf8(#[trigger] ps.take(i as int).filter(pred)[j]),
            views(out@) == ps.take(i as int).filter(pred).map_values(dec),
        decreases parts.len() - i,
    {
        let ghost p = parts@[i as int]@;
        proof {
            assert(ps[i as int] == p);
            assert(ps.take(i + 1) =~= ps.take(i as int).push(p));
            ps.take(i as int).lemma_filter_push(p, pred);
        }
        if parts[i].len() > 0 {
            let piece = clone_bytes(&parts[i]);
            match decode_utf8(piece) {
                Ok(s) => {
                    let ghost before = views(out@);
                    out.push(s);
                    proof {
                        ps.take(i as int).filter(pred).lemma_push_map_commute(dec, p);
                        assert(views(out@) =~= before.push(dec(p)));
                        let f = ps.take(i + 1).filter(pred);
                        assert(f == ps.take(i as int).filter(pred).push(p));
                        assert forall|j: int| 0 <= j < f.len() implies vstd::utf8::valid_utf8(#[trigger] f[j]) by {
                            if j < f.len() - 1 {
                                assert(f[j] == ps.take(i as int).filter(pred)[j]);
                            }
                        }
                    }
                },
                Err(source) => {
                    proof {
                        let k = ps.take(i as int).filter(pred).len() as int;
                        lemma_filter_prefix(ps, pred, i as int + 1);
                        let f = ps.take(i + 1).filter(pred);
                        assert(f[k] == p);
                        assert(nul_records(bytes@).take(k + 1) == f);
                        assert(nul_records(bytes@)[k] == p);
                        assert forall|j: int| 0 <= j < k implies vstd::utf8::valid_utf8(#[trigger] nul_records(bytes@)[j]) by {
                            assert(nul_records(bytes@)[j] == f[j]);
                            assert(f[j] == ps.take(i as int).filter(pred)[j]);
                        }
                    }
                    return Err(message2("Git 路径不是有效的 UTF-8: ", source.as_str()));
                },
            }
        } else {
            proof {
                assert(!pred(p));
            }
        }
        i = i + 1;
    }
    assert(ps.take(i as int) =~= ps);
    Ok(out)
}

fn clone_bytes(v: &Vec<u8>) -> (r: Vec<u8>)
    ensures
        r@ == v@,
{
    bytes_to_vec(v.as_slice())
}

/// Filtering a prefix of `s` gives a prefix of filtering `s`.
proof fn lemma_filter_prefix<A>(s: Seq<A>, pred: spec_fn(A) -> bool, n: int)
    requires
        0 <= n <= s.len(),
    ensures
        s.filter(pred).take(s.take(n).filter(pred).len() as int) == s.take(n).filter(pred),
        s.take(n).filter(pred).len() <= s.filter(pred).len(),
    decreases s.len() - n,
{
    if n < s.len() {
        lemma_filter_prefix(s, pred, n + 1);
        assert(s.take(n + 1) =~= s.take(n).push(s[n]));
        s.take(n).lemma_filter_push(s[n], pred);
        let a = s.take(n).filter(pred);
        let b = s.take(n + 1).filter(pred);
        if pred(s[n]) {
            assert(b == a.push(s[n]));
            assert(s.filter(pred).take(a.len() as int) =~= b.take(a.len() as int));
            assert(b.take(a.len() as int) =~= a);
        }
    } else {
        assert(s.take(n) =~= s);
        assert(s.filter(pred).take(s.filter(pred).len() as int) =~= s.filter(pred));
    }
}

impl Git {
    /// The worktree whose root and metadata directory Git printed.
    pub fn discover(root_stdout: &[u8], git_dir_stdout: &[u8]) -> (r: Result<Git, Error>)
        ensures
            r is Ok <==> text_result(root_stdout@, "Git 仓库根路径"@) is Ok
                && text_result(git_dir_stdout@, "Git 工作树元数据路径"@) is Ok,
            r matches Ok(g) ==> text_result(root_stdout@, "Git 仓库根路径"@) == Ok::<Seq<char>, ErrorView>(g.root@)
                && text_result(git_dir_stdout@, "Git 工作树元数据路径"@) == Ok::<Seq<char>, ErrorView>(g.git_dir@),
            r matches Err(e) ==> if text_result(root_stdout@, "Git 仓库根路径"@) is Err {
                text_result(root_stdout@, "Git 仓库根路径"@) == Err::<Seq<char>, ErrorView>(e@)
            } else {
                text_result(git_dir_stdout@, "Git 工作树元数据路径"@) == Err::<Seq<char>, ErrorView>(e@)
            },
    {
        let root = match text(root_stdout, "Git 仓库根路径") {
            Ok(s) => s,
            Err(e) => return Err(e),
        };
        let git_dir = match text(git_dir_stdout, "Git 工作树元数据路径") {
            Ok(s) => s,
            Err(e) => return Err(e),
        };
        Ok(Git { root, git_dir })
    }

    /// `<git-dir>/fls`.
    pub fn state_directory(&self, style: PathStyle) -> (r: String)
        ensures
            r@ == path_join(style, self.git_dir@, "fls"@),
    {
        join_path(style, self.git_dir.as_str(), "fls")
    }

    /// `<git-dir>/fls/state.toml`.
    pub fn state_path(&self, style: PathStyle) -> (r: String)
        ensures
            r@ == path_join(style, path_join(style, self.git_dir@, "fls"@), "state.toml"@),
    {
        let d = self.state_directory(style);
        join_path(style, d.as_str(), "state.toml")
    }

    /// The commit that `git rev-parse HEAD` printed.
    pub fn head(&self, stdout: &[u8]) -> (r: Result<String, Error>)
        ensures
            r matches Ok(s) ==> text_result(stdout@, "HEAD"@) == Ok::<Seq<char>, ErrorView>(s@),
            r matches Err(e) ==> text_result(stdout@, "HEAD"@) == Err::<Seq<char>, ErrorView>(e@),
    {
        text(stdout, "HEAD")
    }

    /// The version that `git --version` printed.
    pub fn version(&self, stdout: &[u8]) -> (r: Result<String, Error>)
        ensures
            r matches Ok(s) ==> text_result(stdout@, "Git 版本"@) == Ok::<Seq<char>, ErrorView>(s@),
            r matches Err(e) ==> text_result(stdout@, "Git 版本"@) == Err::<Seq<char>, ErrorView>(e@),
    {
        text(stdout, "Git 版本")
    }

    /// The tracked files that `git ls-files -z` printed.
    pub fn tracked_files(&self, stdout: &[u8]) -> (r: Result<Vec<String>, Error>)
        ensures
            r is Ok <==> forall|i: int| 0 <= i < nul_records(stdout@).len()
                ==> vstd::utf8::valid_utf8(#[trigger] nul_records(stdout@)[i]),
            r matches Ok(v) ==> views(v@) == nul_records(stdout@).map_values(|p: Seq<u8>| vstd::utf8::decode_utf8(p)),
            r matches Err(e) ==> exists|i: int| 0 <= i < nul_records(stdout@).len()
                && !vstd::utf8::valid_utf8(nul_records(stdout@)[i])
                && (forall|j: int| 0 <= j < i ==> vstd::utf8::valid_utf8(#[trigger] nul_records(stdout@)[j]))
                && e@ == ErrorView::Message("Git 路径不是有效的 UTF-8: "@ + utf8_error_text(nul_records(stdout@)[i])),
    {
        split_nul_paths(stdout)
    }

    /// The top-level directories that hold tracked files.
    pub fn top_level_directories(&self, files: &Vec<String>) -> (r: TextSet)
        ensures
            r.wf(),
            forall|x: Seq<char>| #[trigger] r@.contains(x) <==> exists|i: int| 0 <= i < files.len()
                && (#[trigger] views(files@)[i]).contains('/') && split_on(views(files@)[i], '/')[0] == x,
    {
        let mut r = TextSet::new();
        let mut i: usize = 0;
        while i < files.len()
            invariant
                r.wf(),
                i <= files.len(),
                forall|x: Seq<char>| #[trigger] r@.contains(x) <==> exists|j: int| 0 <= j < i
                    && (#[trigger] views(files@)[j]).contains('/') && split_on(views(files@)[j], '/')[0] == x,
            decreases files.len() - i,
        {
            let t = &files[i];
            assert(views(files@)[i as int] == t@);
            let v = chars_of(t.as_str());
            if crate::text::has_char(t.as_str(), '/') {
                let first = first_segment(&v);
                r.insert(string_from_chars(&first));
            }
            proof {
                assert forall|x: Seq<char>| #[trigger] r@.contains(x) <==> exists|j: int| 0 <= j < i + 1
                    && (#[trigger] views(files@)[j]).contains('/') && split_on(views(files@)[j], '/')[0] == x by {
                    if t@.contains('/') && x == split_on(t@, '/')[0] {
                        assert(views(files@)[i as int].contains('/') && split_on(views(files@)[i as int], '/')[0] == x);
                    }
                }
            }
            i = i + 1;
        }
        r
    }

    /// The projects that the sparse-checkout rules check out as whole directories
    /// (`/<path>/` rules); every project when sparse checkout is off.
    pub fn inferred_materialized_projects(&self, manifest: &Manifest, snapshot: &SparseSnapshot) -> (r: TextSet)
        requires
            manifest.wf(),
        ensures
            r.wf(),
            !snapshot.enabled ==> r@ == manifest.projects@.dom(),
            snapshot.enabled ==> forall|x: Seq<char>| #[trigger] r@.contains(x) <==> manifest.projects@.contains_key(x)
                && exists|k: int| 0 <= k < split_on(snapshot.patterns@, '\n').len()
                    && full_directory_rule(#[trigger] split_on(snapshot.patterns@, '\n')[k]) == Some(manifest.projects@[x].path@),
    {
        let entries = manifest.projects.entries();
        if !snapshot.enabled {
            let mut r = TextSet::new();
            let mut i: usize = 0;
            while i < entries.len()
                invariant
                    manifest.wf(),
                    entries@.map_values(|e: (String, crate::manifest::Project)| e.0@) == manifest.projects.keys(),
                    i <= entries.len(),
                    r.wf(),
                    r@ == manifest.projects.keys().take(i as int).to_set(),
                decreases entries.len() - i,
            {
                r.insert(entries[i].0.clone());
                proof {
                    broadcast use Seq::lemma_push_to_set_commute;
                    let ks = manifest.projects.keys();
                    assert(ks[i as int] == entries@[i as int].0@);
                    assert(ks.take(i + 1) =~= ks.take(i as int).push(ks[i as int]));
                }
                i = i + 1;
            }
            proof {
                assert(manifest.projects.keys().take(i as int) =~= manifest.projects.keys());
                manifest.projects.lemma_view_dom();
            }
            return r;
        }
        let pv = chars_of(snapshot.patterns.as_str());
        let lines = split_chars(&pv, '\n');
        let ghost ls = split_on(snapshot.patterns@, '\n');
        let mut full = TextSet::new();
        let mut k: usize = 0;
        while k < lines.len()
            invariant
                lines@.map_values(|p: Vec<char>| p@) == ls,
                k <= lines.len(),
                full.wf(),
                forall|x: Seq<char>| #[trigger] full@.contains(x) <==> exists|j: int| 0 <= j < k
                    && full_directory_rule(#[trigger] ls[j]) == Some(x),
            decreases lines.len() - k,
        {
            assert(ls[k as int] == lines@[k as int]@);
            let line = string_from_chars(&lines[k]);
            match full_directory_rule_exec(line.as_str()) {
                Some(p) => {
                    full.insert(p);
                },
                None => {},
            }
            proof {
                assert forall|x: Seq<char>| #[trigger] full@.contains(x) <==> exists|j: int| 0 <= j < k + 1
                    && full_directory_rule(#[trigger] ls[j]) == Some(x) by {
                    if full_directory_rule(ls[k as int]) == Some(x) {
                        assert(0 <= k < k + 1);
                    }
                }
            }
            k = k + 1;
        }
        let mut r = TextSet::new();
        let mut i: usize = 0;
        while i < entries.len()
            invariant
                manifest.wf(),
                entries@.map_values(|e: (String, crate::manifest::Project)| e.0@) == manifest.projects.keys(),
                entries@.map_values(|e: (String, crate::manifest::Project)| e.1) == manifest.projects.values(),
                i <= entries.len(),
                r.wf(),
                full.wf(),
                forall|x: Seq<char>| #[trigger] full@.contains(x) <==> exists|j: int| 0 <= j < ls.len()
                    && full_directory_rule(#[trigger] ls[j]) == Some(x),
                forall|x: Seq<char>| #[trigger] r@.contains(x) <==> manifest.projects.keys().take(i as int).contains(x)
                    && full@.contains(manifest.projects@[x].path@),
            decreases entries.len() - i,
        {
            proof {
                manifest.projects.lemma_view_at(i as int);
                assert(manifest.projects.keys()[i as int] == entries@[i as int].0@);
                assert(manifest.projects.values()[i as int] == entries@[i as int].1);
            }
            let ghost id = entries@[i as int].0@;
            if full.contains(entries[i].1.path.as_str()) {
                r.insert(entries[i].0.clone());
            }
            proof {
                let ks = manifest.projects.keys();
                assert(ks.take(i + 1) =~= ks.take(i as int).push(id));
                manifest.projects.lemma_lengths();
                crate::collections::lemma_sorted_no_duplicates(ks);
                assert forall|x: Seq<char>| #[trigger] r@.contains(x) <==> ks.take(i + 1).contains(x)
                    && full@.contains(manifest.projects@[x].path@) by {
                    if x == id {
                        assert(ks.take(i + 1)[i as int] == x);
                    } else {
                        if ks.take(i + 1).contains(x) {
                            let j = choose|j: int| 0 <= j < i + 1 && #[trigger] ks.take(i + 1)[j] == x;
                            assert(ks.take(i as int)[j] == x);
                        }
                        if ks.take(i as int).contains(x) {
                            let j = choose|j: int| 0 <= j < i && #[trigger] ks.take(i as int)[j] == x;
                            assert(ks.take(i + 1)[j] == x);
                        }
                    }
                }
            }
            i = i + 1;
        }
        proof {
            let ks = manifest.projects.keys();
            assert(ks.take(i as int) =~= ks);
            manifest.projects.lemma_view_dom();
            assert forall|x: Seq<char>| #[trigger] r@.contains(x) <==> manifest.projects@.contains_key(x)
                && exists|k: int| 0 <= k < ls.len() && full_directory_rule(#[trigger] ls[k]) == Some(manifest.projects@[x].path@) by {
                assert(manifest.projects@.dom().contains(x) == ks.to_set().contains(x));
            }
        }
        r
    }
}

/// The directory a sparse-checkout rule checks out whole: the trimmed line is
/// `/<name>/` with no further `/` inside.
pub open spec fn full_directory_rule(line: Seq<char>) -> Option<Seq<char>> {
    let t = trimmed(line);
    if t.len() >= 2 && t[0] == '/' && t.last() == '/' && !t.subrange(1, t.len() - 1).contains('/') {
        Some(t.subrange(1, t.len() - 1))
    } else {
        None
    }
}

fn full_directory_rule_exec(line: &str) -> (r: Option<String>)
    ensures
        r matches Some(p) ==> full_directory_rule(line@) == Some(p@),
        r is None ==> full_directory_rule(line@) is None,
{
    let t = trim(line);
    let v = chars_of(t.as_str());
    if v.len() < 2 || v[0] != '/' || v[v.len() - 1] != '/' {
        return None;
    }
    let mut inner: Vec<char> = Vec::new();
    let mut i: usize = 1;
    while i < v.len() - 1
        invariant
            v@ == t@,
            t@ == trimmed(line@),
            v.len() >= 2,
            1 <= i <= v.len() - 1,
            inner@ == v@.subrange(1, i as int),
            !inner@.contains('/'),
        decreases v.len() - 1 - i,
    {
        if v[i] == '/' {
            assert(v@.subrange(1, v.len() - 1)[i - 1] == '/');
            assert(v@.subrange(1, v.len() - 1).contains('/'));
            return None;
        }
        inner.push(v[i]);
        proof {
            assert(inner@ =~= v@.subrange(1, i + 1));
            if inner@.contains('/') {
                let j = choose|j: int| 0 <= j < inner@.len() && inner@[j] == '/';
                assert(inner@.drop_last()[j] == '/');
            }
        }
        i = i + 1;
    }
    Some(string_from_chars(&inner))
}

fn first_segment(v: &Vec<char>) -> (r: Vec<char>)
    ensures
        r@ == split_on(v@, '/')[0],
{
    let pieces = split_chars(v, '/');
    proof {
        crate::text::lemma_split_nonempty(v@, '/');
        assert(pieces@.map_values(|p: Vec<char>| p@)[0] == pieces@[0]@);
    }
    let mut r: Vec<char> = Vec::new();
    let first = &pieces[0];
    let mut i: usize = 0;
    while i < first.len()
        invariant
            i <= first.len(),
            r@ == first@.take(i as int),
        decreases first.len() - i,
    {
        r.push(first[i]);
        assert(r@ =~= first@.take(i + 1));
        i = i + 1;
    }
    assert(first@.take(i as int) =~= first@);
    r
}


// ---------------------------------------------------------------- sparse-checkout rules

/// The last `/`-separated segment of a path: its file name.
pub open spec fn file_name(path: Seq<char>) -> Seq<char> {
    split_on(path, '/').last()
}

/// Tracked files that every worktree keeps: those at the root, and Buck2 metadata
/// (`BUCK` and `*.bzl`) anywhere.
pub open spec fn always_checked_out(path: Seq<char>) -> bool {
    ||| !path.contains('/')
    ||| file_name(path) == "BUCK"@
    ||| crate::text::ends_with(file_name(path), ".bzl"@)
}

/// The directory of a project: from the manifest, else from the remembered paths.
pub open spec fn project_dir(m: &Manifest, known: Map<Seq<char>, Seq<char>>, id: Seq<char>) -> Option<Seq<char>> {
    if m.projects@.contains_key(id) {
        Some(m.projects@[id].path@)
    } else if known.contains_key(id) {
        Some(known[id])
    } else {
        None
    }
}

/// `p` is the rule that checks out project `id` as a whole directory.
pub open spec fn dir_rule(m: &Manifest, known: Map<Seq<char>, Seq<char>>, id: Seq<char>, p: Seq<char>) -> bool {
    project_dir(m, known, id) is Some && p == "/"@ + project_dir(m, known, id)->0 + "/"@
}

/// The sparse-checkout rules for keeping `materialized` in the worktree.
pub open spec fn pattern_set(
    m: &Manifest,
    known: Map<Seq<char>, Seq<char>>,
    materialized: Set<Seq<char>>,
    files: Seq<Seq<char>>,
) -> Set<Seq<char>> {
    Set::new(|p: Seq<char>| {
        ||| exists|i: int| 0 <= i < files.len() && always_checked_out(#[trigger] files[i]) && p == "/"@ + files[i]
        ||| exists|i: int| 0 <= i < m.control_paths.len() && p == "/"@ + (#[trigger] views(m.control_paths@)[i]) + "/"@
        ||| exists|id: Seq<char>| #[trigger] materialized.contains(id) && dir_rule(m, known, id, p)
    })
}

/// The error for the first project, in ID order, whose directory is unknown.
pub open spec fn unknown_dir_error(id: Seq<char>) -> ErrorView {
    ErrorView::Message("状态中的项目 `"@ + id + "` 没有已知路径，无法安全生成稀疏检出规则"@)
}

fn is_always_checked_out(path: &str) -> (b: bool)
    ensures
        b == always_checked_out(path@),
{
    let v = chars_of(path);
    if !crate::text::has_char(path, '/') {
        return true;
    }
    let pieces = split_chars(&v, '/');
    proof {
        crate::text::lemma_split_nonempty(v@, '/');
    }
    let last = &pieces[pieces.len() - 1];
    let name = string_from_chars(last);
    proof {
        assert(pieces@.map_values(|p: Vec<char>| p@)[pieces.len() - 1] == last@);
        assert(name@ == file_name(path@));
    }
    let buck = owned("BUCK");
    name == buck || crate::text::strip_suffix(name.as_str(), ".bzl").is_some()
}

impl Git {
    /// The sparse-checkout rules that keep `materialized` checked out, given the tracked
    /// `files`: sorted, one per line.
    pub fn sparse_patterns(
        &self,
        manifest: &Manifest,
        project_paths: &TextMap<String>,
        materialized: &TextSet,
        files: &Vec<String>,
    ) -> (r: Result<String, Error>)
        requires
            manifest.wf(),
            project_paths.wf(),
            materialized.wf(),
        ensures
            r is Ok <==> forall|i: int| 0 <= i < materialized.elems().len()
                ==> project_dir(manifest, project_paths.text_view(), #[trigger] materialized.elems()[i]) is Some,
            r matches Err(e) ==> exists|i: int| 0 <= i < materialized.elems().len()
                && project_dir(manifest, project_paths.text_view(), materialized.elems()[i]) is None
                && (forall|j: int| 0 <= j < i ==> project_dir(manifest, project_paths.text_view(), #[trigger] materialized.elems()[j]) is Some)
                && e@ == unknown_dir_error(materialized.elems()[i]),
            r matches Ok(s) ==> exists|p: Seq<Seq<char>>| strictly_sorted(p)
                && p.to_set() == pattern_set(manifest, project_paths.text_view(), materialized@, views(files@))
                && s@ == joined(p, "\n"@) + "\n"@,
    {
        let ghost fs = views(files@);
        let ghost known = project_paths.text_view();
        let ghost target = pattern_set(manifest, known, materialized@, fs);
        let mut patterns = TextSet::new();
        let mut i: usize = 0;
        while i < files.len()
            invariant
                fs == views(files@),
                i <= files.len(),
                patterns.wf(),
                forall|p: Seq<char>| #[trigger] patterns@.contains(p) <==>
                    exists|j: int| 0 <= j < i && always_checked_out(#[trigger] fs[j]) && p == "/"@ + fs[j],
            decreases files.len() - i,
        {
            assert(fs[i as int] == files@[i as int]@);
            if is_always_checked_out(files[i].as_str()) {
                patterns.insert(concat2("/", files[i].as_str()));
            }
            proof {
                assert forall|p: Seq<char>| #[trigger] patterns@.contains(p) <==>
                    exists|j: int| 0 <= j < i + 1 && always_checked_out(#[trigger] fs[j]) && p == "/"@ + fs[j] by {
                    if always_checked_out(fs[i as int]) && p == "/"@ + fs[i as int] {
                        assert(0 <= i < i + 1);
                    }
                }
            }
            i = i + 1;
        }
        let ghost cps = views(manifest.control_paths@);
        let mut c: usize = 0;
        while c < manifest.control_paths.len()
            invariant
                fs == views(files@),
                cps == views(manifest.control_paths@),
                c <= manifest.control_paths.len(),
                patterns.wf(),
                forall|p: Seq<char>| #[trigger] patterns@.contains(p) <==> (
                    (exists|j: int| 0 <= j < files.len() && always_checked_out(#[trigger] fs[j]) && p == "/"@ + fs[j])
                    || (exists|j: int| 0 <= j < c && p == "/"@ + (#[trigger] cps[j]) + "/"@)),
            decreases manifest.control_paths.len() - c,
        {
            assert(cps[c as int] == manifest.control_paths@[c as int]@);
            let mut pat = concat2("/", manifest.control_paths[c].as_str());
            pat.append("/");
            patterns.insert(pat);
            proof {
                assert forall|p: Seq<char>| #[trigger] patterns@.contains(p) <==> (
                    (exists|j: int| 0 <= j < files.len() && always_checked_out(#[trigger] fs[j]) && p == "/"@ + fs[j])
                    || (exists|j: int| 0 <= j < c + 1 && p == "/"@ + (#[trigger] cps[j]) + "/"@)) by {
                    if p == "/"@ + cps[c as int] + "/"@ {
                        assert(0 <= c < c + 1);
                    }
                }
            }
            c = c + 1;
        }
        let ids = materialized.to_vec();
        let ghost es = materialized.elems();
        let mut k: usize = 0;
        while k < ids.len()
            invariant
                manifest.wf(),
                project_paths.wf(),
                materialized.wf(),
                known == project_paths.text_view(),
                fs == views(files@),
                cps == views(manifest.control_paths@),
                es == materialized.elems(),
                views(ids@) == es,
                k <= ids.len(),
                patterns.wf(),
                forall|j: int| 0 <= j < k ==> project_dir(manifest, known, #[trigger] es[j]) is Some,
                forall|p: Seq<char>| #[trigger] patterns@.contains(p) <==> (
                    (exists|j: int| 0 <= j < files.len() && always_checked_out(#[trigger] fs[j]) && p == "/"@ + fs[j])
                    || (exists|j: int| 0 <= j < manifest.control_paths.len() && p == "/"@ + (#[trigger] cps[j]) + "/"@)
                    || (exists|j: int| 0 <= j < k && dir_rule(manifest, known, #[trigger] es[j], p))),
            decreases ids.len() - k,
        {
            let id = &ids[k];
            assert(es[k as int] == id@);
            let dir: String = match manifest.projects.get(id.as_str()) {
                Some(p) => p.path.clone(),
                None => match project_paths.get(id.as_str()) {
                    Some(d) => d.clone(),
                    None => {
                        return Err(message3("状态中的项目 `", id.as_str(), "` 没有已知路径，无法安全生成稀疏检出规则"));
                    },
                },
            };
            assert(project_dir(manifest, known, id@) == Some(dir@));
            let mut pat = concat2("/", dir.as_str());
            pat.append("/");
            patterns.insert(pat);
            proof {
                assert forall|p: Seq<char>| #[trigger] patterns@.contains(p) <==> (
                    (exists|j: int| 0 <= j < files.len() && always_checked_out(#[trigger] fs[j]) && p == "/"@ + fs[j])
                    || (exists|j: int| 0 <= j < manifest.control_paths.len() && p == "/"@ + (#[trigger] cps[j]) + "/"@)
                    || (exists|j: int| 0 <= j < k + 1 && dir_rule(manifest, known, #[trigger] es[j], p))) by {
                    if p == "/"@ + dir@ + "/"@ {
                        assert(0 <= k < k + 1 && project_dir(manifest, known, es[k as int]) == Some(dir@));
                    }
                }
            }
            k = k + 1;
        }
        proof {
            materialized.lemma_wf();
            patterns.lemma_wf();
            assert forall|p: Seq<char>| #[trigger] patterns@.contains(p) <==> target.contains(p) by {
                if exists|id: Seq<char>| #[trigger] materialized@.contains(id) && dir_rule(manifest, known, id, p) {
                    let id = choose|id: Seq<char>| #[trigger] materialized@.contains(id) && dir_rule(manifest, known, id, p);
                    assert(es.contains(id));
                    let j = choose|j: int| 0 <= j < es.len() && es[j] == id;
                }
                if exists|j: int| 0 <= j < es.len() && dir_rule(manifest, known, #[trigger] es[j], p) {
                    let j = choose|j: int| 0 <= j < es.len() && dir_rule(manifest, known, #[trigger] es[j], p);
                    assert(materialized@.contains(es[j]));
                }
            }
            assert forall|p: Seq<char>| patterns.elems().to_set().contains(p) <==> target.contains(p) by {
                assert(patterns@.contains(p) <==> patterns.elems().contains(p));
            }
            assert(patterns.elems().to_set() =~= target);
        }
        let list = patterns.to_vec();
        let mut result = crate::text::join(&list, "\n");
        result.append("\n");
        proof {
            patterns.lemma_wf();
            assert(strictly_sorted(patterns.elems()));
            assert(result@ == joined(patterns.elems(), "\n"@) + "\n"@);
        }
        Ok(result)
    }

    /// Whether a project directory has changes (`git status` listed anything) and whether it
    /// holds ignored files (a `! ` record in the listing with ignored files).
    pub fn dirtiness(&self, status_stdout: &[u8], ignored_stdout: &[u8]) -> (r: Dirtiness)
        ensures
            r.blocking == (status_stdout@.len() > 0),
            r.ignored == exists|k: int| 0 <= k < split_on(ignored_stdout@, 0u8).len()
                && crate::text::starts_with_bytes(#[trigger] split_on(ignored_stdout@, 0u8)[k], seq![0x21u8, 0x20u8]),
    {
        let all = bytes_to_vec(ignored_stdout);
        let parts = split_bytes(&all, 0u8);
        let ghost ps = split_on(ignored_stdout@, 0u8);
        let mut ignored = false;
        let mut i: usize = 0;
        while i < parts.len()
            invariant
                all@ == ignored_stdout@,
                parts@.map_values(|p: Vec<u8>| p@) == ps,
                i <= parts.len(),
                ignored == exists|k: int| 0 <= k < i
                    && crate::text::starts_with_bytes(#[trigger] ps[k], seq![0x21u8, 0x20u8]),
            decreases parts.len() - i,
        {
            let p = &parts[i];
            assert(ps[i as int] == p@);
            let hit = p.len() >= 2 && p[0] == 0x21u8 && p[1] == 0x20u8;
            proof {
                if hit {
                    assert(p@.take(2) =~= seq![0x21u8, 0x20u8]);
                }
                if crate::text::starts_with_bytes(p@, seq![0x21u8, 0x20u8]) {
                    assert(p@.take(2)[0] == 0x21u8);
                    assert(p@.take(2)[1] == 0x20u8);
                }
            }
            ignored = ignored || hit;
            i = i + 1;
        }
        Dirtiness { blocking: status_stdout.len() > 0, ignored }
    }
}


/// A path as Git printed it, made absolute against the worktree root: `Path::join`, which
/// keeps an absolute path as it is.
pub open spec fn absolutized(style: PathStyle, root: Seq<char>, p: Seq<char>) -> Seq<char> {
    path_join(style, root, p)
}

/// What `git config --bool core.sparseCheckout` answered means that sparse checkout is on.
pub open spec fn sparse_on(success: bool, stdout: Seq<u8>) -> bool {
    success && crate::text::same_ignoring_case(trimmed(crate::text::utf8_lossy(stdout)), "true"@)
}

/// Whether sparse checkout is on, from the answer of `git config --bool core.sparseCheckout`.
pub fn sparse_enabled(success: bool, stdout: &[u8]) -> (b: bool)
    ensures
        b == sparse_on(success, stdout@),
{
    if !success {
        return false;
    }
    let t = crate::text::decode_utf8_lossy(stdout);
    let tt = trim(t.as_str());
    crate::text::eq_ignore_case(tt.as_str(), "true")
}

/// The rules of a worktree without sparse checkout.
pub fn disabled_snapshot() -> (r: SparseSnapshot)
    ensures
        !r.enabled,
        r.patterns@.len() == 0,
{
    SparseSnapshot { enabled: false, patterns: String::new() }
}

impl Git {
    /// A path Git printed (described as `description`), made absolute against the root.
    pub fn printed_path(&self, style: PathStyle, stdout: &[u8], description: &str) -> (r: Result<String, Error>)
        ensures
            r matches Ok(p) ==> text_result(stdout@, description@) matches Ok(t) && p@ == absolutized(style, self.root@, t),
            r matches Err(e) ==> text_result(stdout@, description@) == Err::<Seq<char>, ErrorView>(e@),
            r is Ok <==> text_result(stdout@, description@) is Ok,
    {
        let t = match text(stdout, description) {
            Ok(t) => t,
            Err(e) => return Err(e),
        };
        Ok(join_path(style, self.root.as_str(), t.as_str()))
    }

    /// Where the hooks live: `core.hooksPath` when it is configured (`configured` holds what
    /// `git config --path core.hooksPath` printed when it succeeded), else what
    /// `git rev-parse --git-path hooks` printed (`default`); and whether it was configured.
    pub fn hooks_path(&self, style: PathStyle, configured: Option<Vec<u8>>, default: &[u8]) -> (r: Result<(String, bool), Error>)
        ensures
            configured matches Some(c) ==> match text_result(c@, "core.hooksPath"@) {
                Ok(t) => r matches Ok(p) && p.0@ == absolutized(style, self.root@, t) && p.1,
                Err(e) => r matches Err(x) && x@ == e,
            },
            configured is None ==> match text_result(default@, "Git hooks 路径"@) {
                Ok(t) => r matches Ok(p) && p.0@ == absolutized(style, self.root@, t) && !p.1,
                Err(e) => r matches Err(x) && x@ == e,
            },
    {
        match configured {
            Some(c) => match self.printed_path(style, c.as_slice(), "core.hooksPath") {
                Ok(p) => Ok((p, true)),
                Err(e) => Err(e),
            },
            None => match self.printed_path(style, default, "Git hooks 路径") {
                Ok(p) => Ok((p, false)),
                Err(e) => Err(e),
            },
        }
    }
}

}
