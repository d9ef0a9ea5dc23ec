//! The Git hooks that run `fls reconcile --hook` after a checkout, merge or rewrite.
use vstd::prelude::*;

use crate::git::{join_path, path_join, PathStyle};
use crate::text::{concat3, contains_text, has_substring, owned, views};

verus! {

/// The line by which fls knows a hook as its own.
pub const MARKER: &'static str = "# fls-managed-hook:v1";

/// The hooks fls installs.
pub open spec fn hook_names() -> Seq<Seq<char>> {
    seq!["post-checkout"@, "post-merge"@, "post-rewrite"@]
}

/// The hooks fls installs, in order.
pub fn hooks() -> (r: Vec<String>)
    ensures
        views(r@) == hook_names(),
{
    let r = vec![owned("post-checkout"), owned("post-merge"), owned("post-rewrite")];
    assert(views(r@) =~= hook_names());
    r
}

/// The script of each hook: skipped while fls itself reconciles, else `fls reconcile --hook`
/// (through `mise` where it is installed).
pub fn hook_script() -> (r: &'static str)
    ensures
        r@ == hook_text(),
{
    "#!/bin/sh\n# fls-managed-hook:v1\nif [ \"${FLS_RECONCILING:-}\" = \"1\" ]; then\n    exit 0\nfi\nif command -v mise >/dev/null 2>&1; then\n    mise exec -- fls reconcile --hook\nelse\n    fls reconcile --hook\nfi\n"
}

/// Whether a hook's text carries the marker.
pub fn is_managed(contents: &str) -> (b: bool)
    ensures
        b == has_substring(contents@, MARKER@),
{
    contains_text(contents, MARKER)
}

/// The warning when `core.hooksPath` is configured: fls leaves such hooks alone.
pub open spec fn custom_warning(hooks_path: Seq<char>) -> Seq<char> {
    "检测到自定义 core.hooksPath（"@ + hooks_path
        + "）；fls 不会写入或覆盖自定义 hooks，请自行调用 `fls reconcile --hook`。"@
}

/// The warning when `core.hooksPath` is configured: fls leaves such hooks alone.
pub fn custom_hooks_warning(hooks_path: &str) -> (r: String)
    ensures
        r@ == custom_warning(hooks_path@),
{
    concat3(
        "检测到自定义 core.hooksPath（",
        hooks_path,
        "）；fls 不会写入或覆盖自定义 hooks，请自行调用 `fls reconcile --hook`。",
    )
}

/// What installing one hook does, given its text if the file exists: write the script,
/// or leave a hook that fls does not manage in place, with a warning.
pub open spec fn install_action(path: Seq<char>, existing: Option<Seq<char>>) -> Option<Seq<char>> {
    match existing {
        Some(c) => if has_substring(c, MARKER@) {
            None
        } else {
            Some("未覆盖已有 hook `"@ + path + "`；请在其中调用 `fls reconcile --hook`。"@)
        },
        None => None,
    }
}

/// Decides for one hook at `path`: `None` to write the script, or the warning for leaving it.
pub fn install_decision(path: &str, existing: Option<&str>) -> (r: Option<String>)
    ensures
        match r {
            Some(w) => install_action(path@, match existing { Some(c) => Some(c@), None => None }) == Some(w@),
            None => install_action(path@, match existing { Some(c) => Some(c@), None => None }) is None,
        },
{
    match existing {
        Some(c) => if is_managed(c) {
            None
        } else {
            Some(concat3("未覆盖已有 hook `", path, "`；请在其中调用 `fls reconcile --hook`。"))
        },
        None => None,
    }
}

/// The path of a hook in the hooks directory.
pub fn hook_path(style: PathStyle, hooks_path: &str, hook: &str) -> (r: String)
    ensures
        r@ == path_join(style, hooks_path@, hook@),
{
    join_path(style, hooks_path, hook)
}

/// The finding when `core.hooksPath` is configured: fls cannot tell whether its hooks run.
pub open spec fn custom_inspection(hooks_path: Seq<char>) -> Seq<char> {
    "自定义 core.hooksPath 为 "@ + hooks_path + "，fls 无法确认 reconcile hook 已接入。"@
}

/// The warning when `core.hooksPath` is configured: fls cannot tell whether its hooks run.
pub fn custom_hooks_inspection(hooks_path: &str) -> (r: String)
    ensures
        r@ == custom_inspection(hooks_path@),
{
    concat3("自定义 core.hooksPath 为 ", hooks_path, "，fls 无法确认 reconcile hook 已接入。")
}

/// What inspecting one hook finds wanting, given its text (`None` when the file does not exist).
pub open spec fn inspection(path: Seq<char>, contents: Option<Seq<char>>) -> Option<Seq<char>> {
    match contents {
        Some(c) => if has_substring(c, MARKER@) {
            None
        } else {
            Some(path + " 已存在但不由 fls 管理；请手动接入 `fls reconcile --hook`。"@)
        },
        None => Some("缺少 "@ + path + "；下一次成功执行 fls 修改命令时会尝试安装。"@),
    }
}

/// Inspects one hook at `path`, given its text (`None` when the file does not exist).
pub fn inspect_hook(path: &str, contents: Option<&str>) -> (r: Option<String>)
    ensures
        match r {
            Some(w) => inspection(path@, match contents { Some(c) => Some(c@), None => None }) == Some(w@),
            None => inspection(path@, match contents { Some(c) => Some(c@), None => None }) is None,
        },
{
    match contents {
        Some(c) => if is_managed(c) {
            None
        } else {
            Some(crate::text::concat2(path, " 已存在但不由 fls 管理；请手动接入 `fls reconcile --hook`。"))
        },
        None => Some(concat3("缺少 ", path, "；下一次成功执行 fls 修改命令时会尝试安装。")),
    }
}

/// What installing or inspecting the hooks goes through.
#[derive(Debug)]
pub enum HookSetup {
    /// `core.hooksPath` is configured: no file is touched, and this is the one warning.
    Custom(String),
    /// The hooks directory to create, and the path of each hook to install or inspect, in order.
    Hooks(String, Vec<String>),
}

/// The path of each hook fls installs in `hooks_path`, in order.
pub open spec fn hook_paths(style: PathStyle, hooks_path: Seq<char>) -> Seq<Seq<char>> {
    hook_names().map_values(|h: Seq<char>| path_join(style, hooks_path, h))
}

/// How the hooks at `hooks_path` (`configured` when `core.hooksPath` set it) are set up:
/// a custom directory is left alone with the one warning `warning`; otherwise each hook in
/// it is considered in turn.
pub open spec fn hook_setup(setup: &HookSetup, style: PathStyle, hooks_path: Seq<char>, configured: bool, warning: Seq<char>) -> bool {
    if configured {
        setup matches HookSetup::Custom(w) && w@ == warning
    } else {
        setup matches HookSetup::Hooks(dir, paths) && dir@ == hooks_path && views(paths@) == hook_paths(style, hooks_path)
    }
}

fn hook_paths_in(style: PathStyle, hooks_path: &str) -> (r: Vec<String>)
    ensures
        views(r@) == hook_paths(style, hooks_path@),
{
    let names = hooks();
    let mut r: Vec<String> = Vec::new();
    let mut i: usize = 0;
    while i < names.len()
        invariant
            i <= names.len(),
            views(names@) == hook_names(),
            views(r@) == hook_paths(style, hooks_path@).take(i as int),
        decreases names.len() - i,
    {
        let ghost before = r@;
        let p = hook_path(style, hooks_path, names[i].as_str());
        r.push(p);
        proof {
            crate::text::lemma_views_push(before, p);
            assert(hook_names()[i as int] == names@[i as int]@);
            assert(hook_paths(style, hooks_path@).take(i + 1)
                =~= hook_paths(style, hooks_path@).take(i as int).push(p@));
        }
        i = i + 1;
    }
    assert(hook_paths(style, hooks_path@).take(i as int) =~= hook_paths(style, hooks_path@));
    r
}

/// How installing the hooks at `hooks_path` goes (`configured` when `core.hooksPath` set it):
/// with a custom directory nothing is written and the one warning is `custom_warning`;
/// otherwise the directory is created and each hook decided by `install_decision`.
pub fn install_setup(style: PathStyle, hooks_path: &str, configured: bool) -> (r: HookSetup)
    ensures
        hook_setup(&r, style, hooks_path@, configured, custom_warning(hooks_path@)),
{
    if configured {
        HookSetup::Custom(custom_hooks_warning(hooks_path))
    } else {
        HookSetup::Hooks(owned(hooks_path), hook_paths_in(style, hooks_path))
    }
}

/// How inspecting the hooks at `hooks_path` goes (`configured` when `core.hooksPath` set
/// it): with a custom directory the one finding is `custom_inspection`; otherwise each hook
/// is inspected by `inspect_hook`.
pub fn inspect_setup(style: PathStyle, hooks_path: &str, configured: bool) -> (r: HookSetup)
    ensures
        hook_setup(&r, style, hooks_path@, configured, custom_inspection(hooks_path@)),
{
    if configured {
        HookSetup::Custom(custom_hooks_inspection(hooks_path))
    } else {
        HookSetup::Hooks(owned(hooks_path), hook_paths_in(style, hooks_path))
    }
}

/// A script that fls wrote is recognised as its own: installing again rewrites it, and
/// inspecting it finds nothing wanting.
pub proof fn written_hooks_are_managed(path: Seq<char>)
    ensures
        install_action(path, Some(hook_text())) is None,
        inspection(path, Some(hook_text())) is None,
        has_substring(hook_text(), MARKER@),
{
    reveal_strlit("#!/bin/sh\n# fls-managed-hook:v1\nif [ \"${FLS_RECONCILING:-}\" = \"1\" ]; then\n    exit 0\nfi\nif command -v mise >/dev/null 2>&1; then\n    mise exec -- fls reconcile --hook\nelse\n    fls reconcile --hook\nfi\n");
    reveal_strlit("# fls-managed-hook:v1");
    let s = hook_text();
    assert(s.subrange(10, 10 + MARKER@.len() as int) =~= MARKER@);
    assert(crate::text::occurs_at(s, MARKER@, 10));
}

/// The text of the hook script.
pub open spec fn hook_text() -> Seq<char> {
    "#!/bin/sh\n# fls-managed-hook:v1\nif [ \"${FLS_RECONCILING:-}\" = \"1\" ]; then\n    exit 0\nfi\nif command -v mise >/dev/null 2>&1; then\n    mise exec -- fls reconcile --hook\nelse\n    fls reconcile --hook\nfi\n"@
}


/// Permission bits with execute added for owner, group and others (`mode | 0o111`).
pub fn executable_mode(mode: u32) -> (r: u32)
    ensures
        r == mode | 0o111u32,
        r & 0o111u32 == 0o111u32,
        r & !0o111u32 == mode & !0o111u32,
{
    let r = mode | 0o111u32;
    assert(r & 0o111u32 == 0o111u32) by (bit_vector)
        requires
            r == mode | 0o111u32;
    assert(r & !0o111u32 == mode & !0o111u32) by (bit_vector)
        requires
            r == mode | 0o111u32;
    r
}

}
