//! The lines fls prints for people.
use vstd::prelude::*;

use crate::collections::TextSet;
use crate::doctor::{Check, CheckStatus, Report};
use crate::text::{concat2, concat3, decimal, decimal_text, joined, owned};
use crate::workspace::{ApplyOutcome, ChangeKind, Plan, ProjectStatus};

verus! {

/// `n` spaces.
pub open spec fn spaces(n: nat) -> Seq<char> {
    Seq::new(n, |i: int| ' ')
}

/// `s` left-aligned in a field of `width` characters (`{:<width}`).
pub open spec fn pad_right(s: Seq<char>, width: nat) -> Seq<char> {
    if s.len() < width { s + spaces((width - s.len()) as nat) } else { s }
}

/// `s` right-aligned in a field of `width` characters (`{:>width}`).
pub open spec fn pad_left(s: Seq<char>, width: nat) -> Seq<char> {
    if s.len() < width { spaces((width - s.len()) as nat) + s } else { s }
}

/// Left-aligns `s` in a field of `width` characters.
pub fn padded_right(s: &str, width: usize) -> (r: String)
    ensures
        r@ == pad_right(s@, width as nat),
{
    let n = crate::text::chars_of(s).len();
    let mut r = owned(s);
    let mut k: usize = n;
    while k < width
        invariant
            n == s@.len(),
            n <= k <= width || (width < n && k == n),
            k >= n,
            r@ == s@ + spaces((k - n) as nat),
        decreases width - k,
    {
        crate::text::push_char(&mut r, ' ');
        assert(r@ =~= s@ + spaces((k + 1 - n) as nat));
        k = k + 1;
    }
    proof {
        if n >= width {
            assert(r@ =~= s@);
        }
    }
    r
}

/// Right-aligns `s` in a field of `width` characters.
pub fn padded_left(s: &str, width: usize) -> (r: String)
    ensures
        r@ == pad_left(s@, width as nat),
{
    let n = crate::text::chars_of(s).len();
    let mut r = String::new();
    let mut k: usize = n;
    while k < width
        invariant
            n == s@.len(),
            k >= n,
            k <= width || k == n,
            r@ == spaces((k - n) as nat),
        decreases width - k,
    {
        crate::text::push_char(&mut r, ' ');
        assert(r@ =~= spaces((k + 1 - n) as nat));
        k = k + 1;
    }
    let ghost pad = r@;
    r.append(s);
    proof {
        if n >= width {
            assert(pad =~= Seq::<char>::empty());
            assert(r@ =~= s@);
        }
    }
    r
}

/// The members of a set as printed: comma-separated, or `（无）` when there are none.
pub open spec fn list_text(elems: Seq<Seq<char>>) -> Seq<char> {
    if elems.len() == 0 { "（无）"@ } else { joined(elems, ", "@) }
}

/// Prints the members of a set.
pub fn join_set(values: &TextSet) -> (r: String)
    requires
        values.wf(),
    ensures
        r@ == list_text(values.elems()),
{
    if values.is_empty() {
        owned("（无）")
    } else {
        crate::text::join(&values.to_vec(), ", ")
    }
}

/// The name under which a change is shown.
pub fn command_name(kind: ChangeKind) -> (r: &'static str)
    ensures
        r@ == match kind {
            ChangeKind::Add => "Add"@,
            ChangeKind::Remove => "Remove"@,
            ChangeKind::Replace => "Set"@,
            ChangeKind::Reconcile => "Reconcile"@,
        },
{
    match kind {
        ChangeKind::Add => "Add",
        ChangeKind::Remove => "Remove",
        ChangeKind::Replace => "Set",
        ChangeKind::Reconcile => "Reconcile",
    }
}

/// The line of a project's status: ID, status and path in fixed fields, then the description.
pub open spec fn status_text(id: Seq<char>, status: Seq<char>, path: Option<Seq<char>>, description: Seq<char>) -> Seq<char> {
    pad_right(id, 28) + " "@ + pad_right(status, 12) + " "@
        + pad_right(match path { Some(p) => p, None => "-"@ }, 28) + " "@ + description
}

/// The lines of one status: its line, and its reason when it has one.
pub fn status_lines(s: &ProjectStatus) -> (r: Vec<String>)
    ensures
        r@.len() == (if s.reason is Some { 2int } else { 1int }),
        r@[0]@ == status_text(s.id@, s.status@, match s.path { Some(p) => Some(p@), None => None }, s.description@),
        s.reason matches Some(why) ==> r@[1]@ == "  原因："@ + why@,
{
    let path = match &s.path {
        Some(p) => p.clone(),
        None => owned("-"),
    };
    let mut line = padded_right(s.id.as_str(), 28);
    line.append(" ");
    line.append(padded_right(s.status.as_str(), 12).as_str());
    line.append(" ");
    line.append(padded_right(path.as_str(), 28).as_str());
    line.append(" ");
    line.append(s.description.as_str());
    let mut r: Vec<String> = Vec::new();
    r.push(line);
    match &s.reason {
        Some(why) => r.push(concat2("  原因：", why.as_str())),
        None => {},
    }
    r
}

/// A warning as printed.
pub fn warning_line(w: &str) -> (r: String)
    ensures
        r@ == "警告："@ + w@,
{
    concat2("警告：", w)
}

/// The line of a set: its label, then its members.
pub fn set_line(label: &str, values: &TextSet) -> (r: String)
    requires
        values.wf(),
    ensures
        r@ == label@ + list_text(values.elems()),
{
    concat2(label, join_set(values).as_str())
}

/// What a dry run prints of a plan (warnings go to the error stream separately).
pub fn plan_lines(plan: &Plan) -> (r: Vec<String>)
    requires
        plan.explicit_projects.wf(),
        plan.resolved_projects.wf(),
        plan.added_projects.wf(),
        plan.removed_projects.wf(),
        plan.retained_projects.wf(),
    ensures
        r@.len() >= 5,
        r@[1]@ == "显式项目："@ + list_text(plan.explicit_projects.elems()),
        r@[2]@ == "解析后项目："@ + list_text(plan.resolved_projects.elems()),
        r@[3]@ == "将检出："@ + list_text(plan.added_projects.elems()),
        r@[4]@ == "将移除："@ + list_text(plan.removed_projects.elems()),
        r@.len() == (if plan.retained_projects@.len() == 0 { 5int } else { 6 + plan.retained_projects@.len() as int }),
{
    let l0 = concat2("计划：", command_name(plan.command));
    let l1 = set_line("显式项目：", &plan.explicit_projects);
    let l2 = set_line("解析后项目：", &plan.resolved_projects);
    let l3 = set_line("将检出：", &plan.added_projects);
    let l4 = set_line("将移除：", &plan.removed_projects);
    let ghost v1 = l1@;
    let ghost v2 = l2@;
    let ghost v3 = l3@;
    let ghost v4 = l4@;
    let mut r: Vec<String> = Vec::new();
    r.push(l0);
    r.push(l1);
    r.push(l2);
    r.push(l3);
    r.push(l4);
    assert(r@[1]@ == v1 && r@[2]@ == v2 && r@[3]@ == v3 && r@[4]@ == v4);
    let n = plan.retained_projects.len();
    if n > 0 {
        r.push(owned("保留项目："));
        assert(r@[1]@ == "显式项目："@ + list_text(plan.explicit_projects.elems()));
        assert(r@[2]@ == "解析后项目："@ + list_text(plan.resolved_projects.elems()));
        assert(r@[3]@ == "将检出："@ + list_text(plan.added_projects.elems()));
        assert(r@[4]@ == "将移除："@ + list_text(plan.removed_projects.elems()));
        let entries = plan.retained_projects.entries();
        let mut i: usize = 0;
        while i < entries.len()
            invariant
                i <= entries.len(),
                entries@.len() == n,
                r@.len() == 6 + i,
                r@[1]@ == "显式项目："@ + list_text(plan.explicit_projects.elems()),
                r@[2]@ == "解析后项目："@ + list_text(plan.resolved_projects.elems()),
                r@[3]@ == "将检出："@ + list_text(plan.added_projects.elems()),
                r@[4]@ == "将移除："@ + list_text(plan.removed_projects.elems()),
            decreases entries.len() - i,
        {
            let mut line = concat3("  - ", entries[i].0.as_str(), ": ");
            line.append(entries[i].1.as_str());
            r.push(line);
            i = i + 1;
        }
    }
    r
}

/// What fls prints after applying a plan (warnings go to the error stream separately).
pub fn outcome_lines(outcome: &ApplyOutcome) -> (r: Vec<String>)
    requires
        outcome.plan.explicit_projects.wf(),
        outcome.plan.resolved_projects.wf(),
        outcome.plan.added_projects.wf(),
        outcome.plan.removed_projects.wf(),
    ensures
        r@.len() == 3,
        r@[0]@ == if outcome.plan.added_projects@.len() > 0 || outcome.plan.removed_projects@.len() > 0 {
            "工作树已更新：新增 "@ + decimal(outcome.plan.added_projects@.len()) + " 个项目，移除 "@
                + decimal(outcome.plan.removed_projects@.len()) + " 个项目。"@
        } else {
            "工作树已经符合请求，无需增删项目。"@
        },
        r@[1]@ == "显式选择："@ + list_text(outcome.plan.explicit_projects.elems()),
        r@[2]@ == "依赖闭包："@ + list_text(outcome.plan.resolved_projects.elems()),
{
    let plan = &outcome.plan;
    let mut r: Vec<String> = Vec::new();
    let added = plan.added_projects.len();
    let removed = plan.removed_projects.len();
    if added > 0 || removed > 0 {
        let mut line = concat3("工作树已更新：新增 ", decimal_text(added as u64).as_str(), " 个项目，移除 ");
        line.append(decimal_text(removed as u64).as_str());
        line.append(" 个项目。");
        r.push(line);
    } else {
        r.push(owned("工作树已经符合请求，无需增删项目。"));
    }
    r.push(concat2("显式选择：", join_set(&plan.explicit_projects).as_str()));
    r.push(concat2("依赖闭包：", join_set(&plan.resolved_projects).as_str()));
    r
}

/// The symbol of a check's outcome.
pub open spec fn status_symbol(s: CheckStatus) -> Seq<char> {
    match s {
        CheckStatus::Pass => "PASS"@,
        CheckStatus::Warning => "WARN"@,
        CheckStatus::Fail => "FAIL"@,
    }
}

/// The line of one check: `[<symbol>] <name> <message>`, the name in a field of 20.
pub fn check_line(c: &Check) -> (r: String)
    ensures
        r@ == "["@ + status_symbol(c.status) + "] "@ + pad_right(c.name@, 20) + " "@ + c.message@,
{
    let symbol = match c.status {
        CheckStatus::Pass => "PASS",
        CheckStatus::Warning => "WARN",
        CheckStatus::Fail => "FAIL",
    };
    let mut line = concat3("[", symbol, "] ");
    line.append(padded_right(c.name.as_str(), 20).as_str());
    line.append(" ");
    line.append(c.message.as_str());
    line
}

/// The last line of a doctor report.
pub fn doctor_verdict(report: &Report) -> (r: &'static str)
    ensures
        r@ == if report.healthy { "doctor 检查通过。"@ } else { "doctor 检查未通过；修改命令可能拒绝服务。"@ },
{
    if report.healthy {
        "doctor 检查通过。"
    } else {
        "doctor 检查未通过；修改命令可能拒绝服务。"
    }
}

/// One line of an interactive list: its number right-aligned in two places, whether it is
/// ticked, its ID in a field of 28, and its description.
pub fn choice_line(index: usize, choice: &ProjectStatus, ticked: bool) -> (r: String)
    ensures
        r@ == "  "@ + pad_left(decimal(index as nat), 2) + ". ["@ + (if ticked { "x"@ } else { " "@ }) + "] "@
            + pad_right(choice.id@, 28) + " "@ + choice.description@,
{
    let number = decimal_text(index as u64);
    let mut line = concat2("  ", padded_left(number.as_str(), 2).as_str());
    line.append(". [");
    line.append(if ticked { "x" } else { " " });
    line.append("] ");
    line.append(padded_right(choice.id.as_str(), 28).as_str());
    line.append(" ");
    line.append(choice.description.as_str());
    line
}


/// The JSON body of a failed command: its error's text.
#[derive(Debug)]
pub struct ErrorEnvelope<'a> {
    pub error: &'a str,
}

impl<'a> ErrorEnvelope<'a> {
    /// The body for an error's text.
    pub fn new(error: &'a str) -> (e: ErrorEnvelope<'a>)
        ensures
            e.error@ == error@,
    {
        ErrorEnvelope { error }
    }
}

}
