//! The command line: what each command asks for, and how an interactive answer selects projects.
use vstd::prelude::*;

use crate::collections::TextSet;
use crate::doctor::Report;
use crate::error::{error_text, Error, ErrorView};
use crate::listing::{status_view, status_views, StatusView};
use crate::text::{chars_of, concat2, concat3, decimal, decimal_text, is_space, lower, lower_char, owned, same_ignoring_case, split_chars, split_on, string_from_chars, trim, trimmed, views};
use crate::workspace::{Plan, ProjectStatus, Workspace};

verus! {

/// A parsed command line.
#[derive(Debug)]
pub struct Cli {
    pub command: Command,
}

/// The commands.
#[derive(Debug)]
pub enum Command {
    /// Select projects explicitly, with their Buck2 dependency closure.
    Add(SelectionArgs),
    /// Drop projects from the explicit selection.
    Remove(DestructiveSelectionArgs),
    /// Replace the explicit selection (`fls set`).
    Replace(DestructiveSelectionArgs),
    /// List the projects and how each came into the worktree.
    List(OutputArgs),
    /// Recompute the dependency closure at the current `HEAD`.
    Reconcile(ReconcileArgs),
    /// Check Git, Buck2, the manifest, the project graph, sparse checkout and the hooks.
    Doctor(OutputArgs),
}

#[derive(Debug)]
pub struct SelectionArgs {
    pub projects: Vec<String>,
    pub all: bool,
    pub dry_run: bool,
    pub json: bool,
}

#[derive(Debug)]
pub struct DestructiveSelectionArgs {
    pub projects: Vec<String>,
    pub all: bool,
    /// Removing clean projects from the worktree is confirmed.
    pub yes: bool,
    pub dry_run: bool,
    pub json: bool,
}

#[derive(Debug)]
pub struct OutputArgs {
    pub json: bool,
}

#[derive(Debug)]
pub struct ReconcileArgs {
    pub dry_run: bool,
    pub json: bool,
    pub hook: bool,
}

impl Cli {
    /// Whether the command asked for JSON output.
    pub fn wants_json(&self) -> (b: bool)
        ensures
            b == match self.command {
                Command::Add(a) => a.json,
                Command::Remove(a) => a.json,
                Command::Replace(a) => a.json,
                Command::List(a) => a.json,
                Command::Reconcile(a) => a.json,
                Command::Doctor(a) => a.json,
            },
    {
        match &self.command {
            Command::Add(args) => args.json,
            Command::Remove(args) => args.json,
            Command::Replace(args) => args.json,
            Command::List(args) => args.json,
            Command::Doctor(args) => args.json,
            Command::Reconcile(args) => args.json,
        }
    }
}

// ---------------------------------------------------------------- the choices offered

/// The lines of `v` whose status `keep` accepts, in order.
pub open spec fn choices_where(v: Seq<ProjectStatus>, keep: spec_fn(Seq<char>) -> bool) -> Seq<StatusView> {
    status_views(v).filter(|s: StatusView| keep(s.status))
}

/// What may be added: neither explicit nor unavailable.
pub open spec fn addable(status: Seq<char>) -> bool {
    status != "explicit"@ && status != "unavailable"@
}

/// What may be removed: explicit or unavailable.
pub open spec fn removable_choice(status: Seq<char>) -> bool {
    status == "explicit"@ || status == "unavailable"@
}

/// What a new selection may hold: anything available.
pub open spec fn settable(status: Seq<char>) -> bool {
    status != "unavailable"@
}

/// Which choices a command offers.
#[derive(Clone, Copy, Debug, PartialEq, Eq, Structural)]
pub enum ChoiceKind {
    Add,
    Remove,
    Replace,
}

pub open spec fn choice_filter(kind: ChoiceKind) -> spec_fn(Seq<char>) -> bool {
    match kind {
        ChoiceKind::Add => |s: Seq<char>| addable(s),
        ChoiceKind::Remove => |s: Seq<char>| removable_choice(s),
        ChoiceKind::Replace => |s: Seq<char>| settable(s),
    }
}

fn offered(kind: ChoiceKind, status: &str) -> (b: bool)
    ensures
        b == choice_filter(kind)(status@),
{
    let explicit = owned("explicit");
    let unavailable = owned("unavailable");
    let s = owned(status);
    proof {
        reveal_strlit("explicit");
        reveal_strlit("unavailable");
    }
    match kind {
        ChoiceKind::Add => s != explicit && s != unavailable,
        ChoiceKind::Remove => s == explicit || s == unavailable,
        ChoiceKind::Replace => s != unavailable,
    }
}

/// The status lines a command offers to choose from, in order.
pub fn choices(statuses: Vec<ProjectStatus>, kind: ChoiceKind) -> (r: Vec<ProjectStatus>)
    ensures
        status_views(r@) == choices_where(statuses@, choice_filter(kind)),
{
    let ghost all = statuses@;
    let ghost pred = |s: StatusView| choice_filter(kind)(s.status);
    let mut r: Vec<ProjectStatus> = Vec::new();
    let mut rest = statuses;
    let mut rev: Vec<ProjectStatus> = Vec::new();
    assert(all.len() == rest.len());
    while rest.len() > 0
        invariant
            all.len() <= usize::MAX,
            all.len() == rest@.len() + rev@.len(),
            forall|k: int| 0 <= k < rev@.len() ==> #[trigger] rev@[k] == all[all.len() - 1 - k],
            forall|k: int| 0 <= k < rest@.len() ==> #[trigger] rest@[k] == all[k],
        decreases rest@.len(),
    {
        let x = rest.pop().unwrap();
        rev.push(x);
    }
    let mut n: usize = 0;
    while rev.len() > 0
        invariant
            all.len() <= usize::MAX,
            all.len() == n + rev@.len(),
            forall|k: int| 0 <= k < rev@.len() ==> #[trigger] rev@[k] == all[all.len() - 1 - k],
            pred == (|s: StatusView| choice_filter(kind)(s.status)),
            status_views(r@) == status_views(all.take(n as int)).filter(pred),
        decreases rev@.len(),
    {
        let x = rev.pop().unwrap();
        assert(x == all[n as int]);
        let ghost before = r@;
        proof {
            assert(status_views(all.take(n + 1)) =~= status_views(all.take(n as int)).push(status_view(x)));
            status_views(all.take(n as int)).lemma_filter_push(status_view(x), pred);
        }
        if offered(kind, x.status.as_str()) {
            r.push(x);
            assert(status_views(r@) =~= status_views(before).push(status_view(r@.last())));
        }
        n = n + 1;
    }
    assert(all.take(n as int) =~= all);
    r
}

/// Where a command's projects come from.
#[derive(Debug)]
pub enum Selection {
    /// Named on the command line (or `--all`).
    Given(TextSet),
    /// To be chosen interactively from these lines.
    Ask(Vec<ProjectStatus>),
}

impl Workspace {
    /// The projects `fls add` works on: all with `--all`, the named ones, or a choice among
    /// those not yet explicit.
    pub fn selection_for_add(&self, all: bool, projects: &Vec<String>) -> (r: Result<Selection, Error>)
        requires
            self.wf(),
        ensures
            all ==> (r matches Ok(Selection::Given(s)) && s.wf() && s@ == self.manifest.projects@.dom()),
            !all && projects@.len() > 0 ==> match r {
                Ok(Selection::Given(s)) => s.wf() && forall|i: int| 0 <= i < projects.len()
                    ==> crate::workspace::names_project(&self.manifest, #[trigger] views(projects@)[i]),
                Ok(Selection::Ask(_)) => false,
                Err(_) => !forall|i: int| 0 <= i < projects.len()
                    ==> crate::workspace::names_project(&self.manifest, #[trigger] views(projects@)[i]),
            },
            !all && projects@.len() == 0 ==> (r matches Ok(Selection::Ask(c))
                && exists|v: Seq<ProjectStatus>| crate::listing::stably_sorted_by_id(crate::listing::listed_statuses(self), status_views(v))
                    && status_views(c@) == choices_where(v, choice_filter(ChoiceKind::Add))),
    {
        if all {
            return Ok(Selection::Given(self.all_projects()));
        }
        if projects.len() > 0 {
            return match self.resolve_inputs(projects) {
                Ok(s) => Ok(Selection::Given(s)),
                Err(e) => Err(e),
            };
        }
        let statuses = self.statuses();
        let ghost v = statuses@;
        Ok(Selection::Ask(choices(statuses, ChoiceKind::Add)))
    }

    /// The projects `fls remove` works on: the whole explicit selection with `--all`, the
    /// named ones, or a choice among the explicit and unavailable ones.
    pub fn selection_for_remove(&self, all: bool, projects: &Vec<String>) -> (r: Result<Selection, Error>)
        requires
            self.wf(),
        ensures
            all ==> (r matches Ok(Selection::Given(s)) && s.wf() && s@ == self.state.explicit_projects@),
            !all && projects@.len() > 0 ==> match r {
                Ok(Selection::Given(s)) => s.wf() && forall|i: int| 0 <= i < projects.len()
                    ==> crate::workspace::removal_target(self, #[trigger] views(projects@)[i]) is Some,
                Ok(Selection::Ask(_)) => false,
                Err(_) => !forall|i: int| 0 <= i < projects.len()
                    ==> crate::workspace::removal_target(self, #[trigger] views(projects@)[i]) is Some,
            },
            !all && projects@.len() == 0 ==> (r matches Ok(Selection::Ask(c))
                && exists|v: Seq<ProjectStatus>| crate::listing::stably_sorted_by_id(crate::listing::listed_statuses(self), status_views(v))
                    && status_views(c@) == choices_where(v, choice_filter(ChoiceKind::Remove))),
    {
        if all {
            return Ok(Selection::Given(self.state.explicit_projects.duplicate()));
        }
        if projects.len() > 0 {
            return match self.resolve_removal_inputs(projects) {
                Ok(s) => Ok(Selection::Given(s)),
                Err(e) => Err(e),
            };
        }
        let statuses = self.statuses();
        Ok(Selection::Ask(choices(statuses, ChoiceKind::Remove)))
    }

    /// The projects `fls set` works on: all with `--all`, the named ones, or a choice among
    /// the available ones.
    pub fn selection_for_set(&self, all: bool, projects: &Vec<String>) -> (r: Result<Selection, Error>)
        requires
            self.wf(),
        ensures
            all ==> (r matches Ok(Selection::Given(s)) && s.wf() && s@ == self.manifest.projects@.dom()),
            !all && projects@.len() > 0 ==> match r {
                Ok(Selection::Given(s)) => s.wf() && forall|i: int| 0 <= i < projects.len()
                    ==> crate::workspace::names_project(&self.manifest, #[trigger] views(projects@)[i]),
                Ok(Selection::Ask(_)) => false,
                Err(_) => !forall|i: int| 0 <= i < projects.len()
                    ==> crate::workspace::names_project(&self.manifest, #[trigger] views(projects@)[i]),
            },
            !all && projects@.len() == 0 ==> (r matches Ok(Selection::Ask(c))
                && exists|v: Seq<ProjectStatus>| crate::listing::stably_sorted_by_id(crate::listing::listed_statuses(self), status_views(v))
                    && status_views(c@) == choices_where(v, choice_filter(ChoiceKind::Replace))),
    {
        if all {
            return Ok(Selection::Given(self.all_projects()));
        }
        if projects.len() > 0 {
            return match self.resolve_inputs(projects) {
                Ok(s) => Ok(Selection::Given(s)),
                Err(e) => Err(e),
            };
        }
        let statuses = self.statuses();
        Ok(Selection::Ask(choices(statuses, ChoiceKind::Replace)))
    }
}


// ---------------------------------------------------------------- the interactive answer

/// A separator between numbers in an answer: a comma or whitespace.
pub open spec fn is_separator(c: char) -> bool {
    c == ',' || is_space(c)
}

/// The numbers of an answer: the non-empty pieces between separators.
pub open spec fn tokens(s: Seq<char>) -> Seq<Seq<char>> {
    split_on(s.map_values(|c: char| if is_separator(c) { ',' } else { c }), ',').filter(|t: Seq<char>| t.len() > 0)
}

/// The value of a string of ASCII digits.
pub open spec fn digits_value(d: Seq<char>) -> nat
    decreases d.len(),
{
    if d.len() == 0 {
        0
    } else {
        digits_value(d.drop_last()) * 10 + ((d.last() as nat) - ('0' as nat)) as nat
    }
}

pub open spec fn is_digit(c: char) -> bool {
    '0' <= c && c <= '9'
}

/// What `str::parse::<usize>` makes of a token: an optional `+`, then at least one ASCII
/// digit, with a value that fits.
pub open spec fn parsed_index(t: Seq<char>) -> Option<nat> {
    let d = unsigned_digits(t);
    if d.len() > 0 && all_digits(d) && digits_value(d) <= usize::MAX {
        Some(digits_value(d))
    } else {
        None
    }
}

/// A token without its leading `+`, if any.
pub open spec fn unsigned_digits(t: Seq<char>) -> Seq<char> {
    if t.len() > 0 && t[0] == '+' { t.drop_first() } else { t }
}

pub open spec fn all_digits(d: Seq<char>) -> bool {
    forall|i: int| 0 <= i < d.len() ==> is_digit(#[trigger] d[i])
}

/// Parses a token as `str::parse::<usize>` does.
pub fn parse_index(t: &str) -> (r: Option<usize>)
    ensures
        match r {
            Some(n) => parsed_index(t@) == Some(n as nat),
            None => parsed_index(t@) is None,
        },
{
    let v = chars_of(t);
    let start: usize = if v.len() > 0 && v[0] == '+' { 1 } else { 0 };
    let ghost d = unsigned_digits(t@);
    assert(d =~= v@.skip(start as int));
    if start >= v.len() {
        return None;
    }
    let mut n: usize = 0;
    let mut i: usize = start;
    while i < v.len()
        invariant
            v@ == t@,
            d == unsigned_digits(t@),
            d == v@.skip(start as int),
            start <= i <= v.len(),
            forall|k: int| start <= k < i ==> is_digit(#[trigger] v@[k]),
            n as nat == digits_value(v@.subrange(start as int, i as int)),
        decreases v.len() - i,
    {
        let c = v[i];
        if !('0' <= c && c <= '9') {
            proof {
                assert(d[i - start] == c);
                assert(!is_digit(d[i - start]));
                assert(!all_digits(d));
            }
            return None;
        }
        let digit: usize = (c as u32 - '0' as u32) as usize;
        proof {
            assert(v@.subrange(start as int, i + 1).drop_last() =~= v@.subrange(start as int, i as int));
        }
        let grown = match n.checked_mul(10) {
            Some(m) => m.checked_add(digit),
            None => None,
        };
        match grown {
            Some(g) => {
                n = g;
            },
            None => {
                proof {
                    let p = v@.subrange(start as int, i + 1);
                    assert(p.drop_last() =~= v@.subrange(start as int, i as int));
                    assert(digits_value(p) > usize::MAX);
                    if all_digits(d) {
                        assert(p =~= d.subrange(0, p.len() as int));
                        lemma_digits_value_grows(p, d);
                    }
                }
                return None;
            },
        }
        i = i + 1;
    }
    assert(v@.subrange(start as int, i as int) =~= d);
    Some(n)
}

/// A prefix of a digit string is worth no more than the whole.
proof fn lemma_digits_value_grows(p: Seq<char>, d: Seq<char>)
    requires
        p.len() <= d.len(),
        p == d.subrange(0, p.len() as int),
        forall|i: int| 0 <= i < d.len() ==> is_digit(#[trigger] d[i]),
    ensures
        digits_value(p) <= digits_value(d),
    decreases d.len() - p.len(),
{
    if p.len() < d.len() {
        let q = d.subrange(0, p.len() + 1 as int);
        assert(q.drop_last() =~= p);
        assert(is_digit(d[p.len() as int]));
        lemma_digits_value_grows(q, d);
    } else {
        assert(p =~= d);
    }
}

/// The refusal of a token that is not a number.
pub open spec fn invalid_choice_error(t: Seq<char>) -> ErrorView {
    ErrorView::Message("无效选择 `"@ + t + "`；请输入列表中的编号"@)
}

/// The refusal of a number outside the list.
pub open spec fn out_of_range_error(n: nat, len: nat) -> ErrorView {
    ErrorView::Message("选择 `"@ + decimal(n) + "` 超出 1..="@ + decimal(len) + " 的范围"@)
}

/// The project that one token picks (`0` picks the first, as `1` does).
pub open spec fn pick(choices: Seq<StatusView>, t: Seq<char>) -> Result<Seq<char>, ErrorView> {
    match parsed_index(t) {
        None => Err(invalid_choice_error(t)),
        Some(n) => {
            let k = if n == 0 { 0 } else { n - 1 };
            if k < choices.len() {
                Ok(choices[k].id)
            } else {
                Err(out_of_range_error(n, choices.len()))
            }
        },
    }
}

/// The projects that the tokens pick, or the refusal of the first bad token.
pub open spec fn picks(choices: Seq<StatusView>, ts: Seq<Seq<char>>) -> Result<Set<Seq<char>>, ErrorView>
    decreases ts.len(),
{
    if ts.len() == 0 {
        Ok(Set::empty())
    } else {
        match picks(choices, ts.drop_last()) {
            Err(e) => Err(e),
            Ok(s) => match pick(choices, ts.last()) {
                Err(e) => Err(e),
                Ok(id) => Ok(s.insert(id)),
            },
        }
    }
}

/// What an interactive answer selects: with nothing typed, the explicit choices when the
/// current selection is offered as the default (else nothing); `all` (any case) for every
/// choice; else the numbered choices.
pub open spec fn answer_selection(choices: Seq<StatusView>, answer: Seq<char>, show_defaults: bool) -> Result<Set<Seq<char>>, ErrorView> {
    let t = trimmed(answer);
    if t.len() == 0 {
        if show_defaults {
            Ok(choices.filter(|c: StatusView| c.status == "explicit"@).map_values(|c: StatusView| c.id).to_set())
        } else {
            Ok(Set::empty())
        }
    } else if same_ignoring_case(t, "all"@) {
        Ok(choices.map_values(|c: StatusView| c.id).to_set())
    } else {
        picks(choices, tokens(t))
    }
}

/// The pieces of an answer between separators, empty ones left out.
pub fn answer_tokens(s: &str) -> (r: Vec<String>)
    ensures
        views(r@) == tokens(s@),
{
    let v = chars_of(s);
    let mut w: Vec<char> = Vec::new();
    let mut i: usize = 0;
    let ghost f = |c: char| if is_separator(c) { ',' } else { c };
    while i < v.len()
        invariant
            v@ == s@,
            i <= v.len(),
            f == (|c: char| if is_separator(c) { ',' } else { c }),
            w@ == v@.take(i as int).map_values(f),
        decreases v.len() - i,
    {
        let c = v[i];
        let m = if c == ',' || crate::text::is_space_exec(c) { ',' } else { c };
        w.push(m);
        assert(w@ =~= v@.take(i + 1).map_values(f));
        i = i + 1;
    }
    assert(v@.take(i as int) =~= v@);
    let pieces = split_chars(&w, ',');
    let ghost ps = split_on(w@, ',');
    let ghost keep = |t: Seq<char>| t.len() > 0;
    let mut r: Vec<String> = Vec::new();
    let mut j: usize = 0;
    while j < pieces.len()
        invariant
            pieces@.map_values(|p: Vec<char>| p@) == ps,
            j <= pieces.len(),
            keep == (|t: Seq<char>| t.len() > 0),
            views(r@) == ps.take(j as int).filter(keep),
        decreases pieces.len() - j,
    {
        let ghost before = r@;
        proof {
            assert(ps[j as int] == pieces@[j as int]@);
            assert(ps.take(j + 1) =~= ps.take(j as int).push(ps[j as int]));
            ps.take(j as int).lemma_filter_push(ps[j as int], keep);
        }
        if pieces[j].len() > 0 {
            r.push(string_from_chars(&pieces[j]));
            proof {
                crate::text::lemma_views_push(before, r@.last());
                assert(r@ =~= before.push(r@.last()));
            }
        }
        j = j + 1;
    }
    assert(ps.take(j as int) =~= ps);
    r
}

/// Reads an interactive answer against the offered choices.
pub fn parse_answer(choices: &Vec<ProjectStatus>, answer: &str, show_defaults: bool) -> (r: Result<TextSet, Error>)
    ensures
        match r {
            Ok(s) => s.wf() && answer_selection(status_views(choices@), answer@, show_defaults) == Ok::<Set<Seq<char>>, ErrorView>(s@),
            Err(e) => answer_selection(status_views(choices@), answer@, show_defaults) == Err::<Set<Seq<char>>, ErrorView>(e@),
        },
{
    let ghost cs = status_views(choices@);
    let t = trim(answer);
    if t.as_str().is_empty() {
        let mut s = TextSet::new();
        if show_defaults {
            let explicit = owned("explicit");
            let ghost keep = |c: StatusView| c.status == "explicit"@;
            let ghost id_of = |c: StatusView| c.id;
            let mut i: usize = 0;
            while i < choices.len()
                invariant
                    s.wf(),
                    i <= choices.len(),
                    cs == status_views(choices@),
                    explicit@ == "explicit"@,
                    keep == (|c: StatusView| c.status == "explicit"@),
                    id_of == (|c: StatusView| c.id),
                    s@ == cs.take(i as int).filter(keep).map_values(id_of).to_set(),
                decreases choices.len() - i,
            {
                proof {
                    assert(cs[i as int] == status_view(choices@[i as int]));
                    assert(cs.take(i + 1) =~= cs.take(i as int).push(cs[i as int]));
                    cs.take(i as int).lemma_filter_push(cs[i as int], keep);
                }
                if choices[i].status == explicit {
                    s.insert(choices[i].id.clone());
                    proof {
                        broadcast use Seq::lemma_push_to_set_commute, Seq::lemma_push_map_commute;
                    }
                }
                i = i + 1;
            }
            assert(cs.take(i as int) =~= cs);
        }
        assert(s@ =~= Set::<Seq<char>>::empty() || show_defaults);
        return Ok(s);
    }
    if crate::text::eq_ignore_case(t.as_str(), "all") {
        let mut s = TextSet::new();
        let ghost id_of = |c: StatusView| c.id;
        let mut i: usize = 0;
        while i < choices.len()
            invariant
                s.wf(),
                i <= choices.len(),
                cs == status_views(choices@),
                id_of == (|c: StatusView| c.id),
                s@ == cs.take(i as int).map_values(id_of).to_set(),
            decreases choices.len() - i,
        {
            proof {
                assert(cs[i as int] == status_view(choices@[i as int]));
                assert(cs.take(i + 1) =~= cs.take(i as int).push(cs[i as int]));
                broadcast use Seq::lemma_push_to_set_commute, Seq::lemma_push_map_commute;
            }
            s.insert(choices[i].id.clone());
            i = i + 1;
        }
        assert(cs.take(i as int) =~= cs);
        return Ok(s);
    }
    let ts = answer_tokens(t.as_str());
    let ghost tv = views(ts@);
    let mut s = TextSet::new();
    let mut i: usize = 0;
    while i < ts.len()
        invariant
            s.wf(),
            i <= ts.len(),
            cs == status_views(choices@),
            tv == views(ts@),
            tv == tokens(trimmed(answer@)),
            trimmed(answer@).len() > 0,
            !same_ignoring_case(trimmed(answer@), "all"@),
            picks(cs, tv.take(i as int)) == Ok::<Set<Seq<char>>, ErrorView>(s@),
        decreases ts.len() - i,
    {
        let tok = &ts[i];
        proof {
            assert(tv[i as int] == tok@);
            assert(tv.take(i + 1).drop_last() =~= tv.take(i as int));
            assert(tv.take(i + 1).last() == tok@);
        }
        match parse_index(tok.as_str()) {
            None => {
                proof {
                    assert(picks(cs, tv.take(i + 1)) == Err::<Set<Seq<char>>, ErrorView>(invalid_choice_error(tok@)));
                    lemma_picks_stop(cs, tv, i + 1);
                    assert(tv.take(ts.len() as int) =~= tv);
                }
                return Err(concat3_error("无效选择 `", tok.as_str(), "`；请输入列表中的编号"));
            },
            Some(n) => {
                let k: usize = if n == 0 { 0 } else { n - 1 };
                if k < choices.len() {
                    assert(cs[k as int] == status_view(choices@[k as int]));
                    s.insert(choices[k].id.clone());
                } else {
                    let mut m = concat3("选择 `", decimal_text(n as u64).as_str(), "` 超出 1..=");
                    m.append(decimal_text(choices.len() as u64).as_str());
                    m.append(" 的范围");
                    proof {
                        assert(picks(cs, tv.take(i + 1)) == Err::<Set<Seq<char>>, ErrorView>(out_of_range_error(n as nat, cs.len())));
                        lemma_picks_stop(cs, tv, i + 1);
                        assert(tv.take(ts.len() as int) =~= tv);
                    }
                    return Err(Error::Message(m));
                }
            },
        }
        i = i + 1;
    }
    assert(tv.take(i as int) =~= tv);
    Ok(s)
}

/// Once a token is refused, the later ones do not matter.
proof fn lemma_picks_stop(cs: Seq<StatusView>, ts: Seq<Seq<char>>, k: int)
    requires
        0 <= k <= ts.len(),
        picks(cs, ts.take(k)) is Err,
    ensures
        picks(cs, ts) == picks(cs, ts.take(k)),
    decreases ts.len(),
{
    if ts.len() == k {
        assert(ts.take(k) =~= ts);
    } else {
        assert(ts.drop_last().take(k) =~= ts.take(k));
        lemma_picks_stop(cs, ts.drop_last(), k);
    }
}

fn concat3_error(a: &str, b: &str, c: &str) -> (e: Error)
    ensures
        e@ == ErrorView::Message(a@ + b@ + c@),
{
    Error::Message(concat3(a, b, c))
}

/// Whether a confirmation answer says yes: `y` or `yes`, in any ASCII case, around whitespace.
pub open spec fn confirms(answer: Seq<char>) -> bool {
    lower(trimmed(answer)) == "y"@ || lower(trimmed(answer)) == "yes"@
}

/// Reads a confirmation answer.
pub fn is_confirmation(answer: &str) -> (b: bool)
    ensures
        b == confirms(answer@),
{
    let t = trim(answer);
    let l = crate::text::to_lower(t.as_str());
    let y = owned("y");
    let yes = owned("yes");
    l == y || l == yes
}

/// The question before removing projects.
pub fn removal_question(projects: &TextSet) -> (r: String)
    ensures
        r@ == "将从工作树移除这些干净项目："@ + crate::text::joined(projects.elems(), ", "@) + "。继续？[y/N] "@,
{
    let list = crate::text::join(&projects.to_vec(), ", ");
    concat3("将从工作树移除这些干净项目：", list.as_str(), "。继续？[y/N] ")
}

/// A change that removes projects needs `--yes` or a confirmation.
pub fn needs_confirmation(removed: &TextSet, confirmed: bool) -> (b: bool)
    requires
        removed.wf(),
    ensures
        b == (removed@ != Set::<Seq<char>>::empty() && !confirmed),
{
    !removed.is_empty() && !confirmed
}


/// What executing a planned change does next.
#[derive(Clone, Copy, Debug, PartialEq, Eq, Structural)]
pub enum ChangeStep {
    /// A dry run: show the plan and stop.
    ShowPlan,
    /// Ask before removing projects; stop with `cancelled_error` unless the answer confirms.
    AskToRemove,
    /// Apply the plan.
    Apply,
}

/// Decides what executing a planned change does next: a dry run only shows the plan; a plan
/// that removes projects without `--yes` asks first; otherwise it is applied.
pub fn execute_change(plan: &Plan, dry_run: bool, confirmed: bool) -> (s: ChangeStep)
    requires
        plan.removed_projects.wf(),
    ensures
        s == if dry_run {
            ChangeStep::ShowPlan
        } else if plan.removed_projects@ != Set::<Seq<char>>::empty() && !confirmed {
            ChangeStep::AskToRemove
        } else {
            ChangeStep::Apply
        },
{
    if dry_run {
        ChangeStep::ShowPlan
    } else if needs_confirmation(&plan.removed_projects, confirmed) {
        ChangeStep::AskToRemove
    } else {
        ChangeStep::Apply
    }
}

/// The refusal when the removal was not confirmed.
pub fn cancelled_error() -> (e: Error)
    ensures
        e@ == ErrorView::Message("操作已取消；非交互环境请检查 `--dry-run` 后使用 `--yes` 确认"@),
{
    Error::message("操作已取消；非交互环境请检查 `--dry-run` 后使用 `--yes` 确认")
}

/// The refusal when projects must be chosen but there is no terminal to ask on.
pub fn not_interactive_error() -> (e: Error)
    ensures
        e@ == ErrorView::Message("没有提供项目且当前不是交互终端；请传入项目 ID 或使用 `--all`"@),
{
    Error::message("没有提供项目且当前不是交互终端；请传入项目 ID 或使用 `--all`")
}

/// The prompt after the list of choices.
pub fn answer_prompt(show_defaults: bool) -> (r: &'static str)
    ensures
        r@ == if show_defaults {
            "输入编号（空格或逗号分隔，all 表示全部，直接回车保留勾选）："@
        } else {
            "输入编号（空格或逗号分隔，all 表示全部）："@
        },
{
    if show_defaults {
        "输入编号（空格或逗号分隔，all 表示全部，直接回车保留勾选）："
    } else {
        "输入编号（空格或逗号分隔，all 表示全部）："
    }
}


/// The exit status of `doctor`: 0 when every check passed, else 1.
pub fn doctor_exit_code(report: &Report) -> (c: i32)
    ensures
        c == if report.healthy { 0i32 } else { 1i32 },
{
    if report.healthy { 0 } else { 1 }
}

/// The warning that `reconcile`, run from a Git hook, prints in place of failing.
pub open spec fn hook_warning(e: ErrorView) -> Seq<char> {
    "fls reconcile hook 警告："@ + error_text(e)
}

/// What `reconcile` answers, and the warning to print if any: run from a Git hook, a failure
/// becomes a warning and success, so that the Git command goes on; otherwise the result stands.
pub fn reconcile_result(hook: bool, result: Result<i32, Error>) -> (r: (Result<i32, Error>, Option<String>))
    ensures
        hook && result is Err ==> (r.0 matches Ok(c) && c == 0)
            && (r.1 matches Some(w) && w@ == hook_warning(result->Err_0@)),
        !(hook && result is Err) ==> r.1 is None && match (r.0, result) {
            (Ok(a), Ok(b)) => a == b,
            (Err(a), Err(b)) => a@ == b@,
            _ => false,
        },
{
    match result {
        Ok(code) => (Ok(code), None),
        Err(e) => if hook {
            let t = e.text();
            (Ok(0), Some(concat2("fls reconcile hook 警告：", t.as_str())))
        } else {
            (Err(e), None)
        },
    }
}


/// A letter in either ASCII case.
pub open spec fn either_case(c: char, small: char, capital: char) -> bool {
    c == small || c == capital
}

/// Only a yes confirms a removal: the answer, without surrounding whitespace, is `y` or
/// `yes` with each letter in either case. Anything else, `n`, `no` or nothing among them,
/// leaves the projects in place.
pub proof fn only_yes_confirms(answer: Seq<char>)
    ensures
        confirms(answer) <==> {
            let t = trimmed(answer);
            ||| t.len() == 1 && either_case(t[0], 'y', 'Y')
            ||| t.len() == 3 && either_case(t[0], 'y', 'Y') && either_case(t[1], 'e', 'E') && either_case(t[2], 's', 'S')
        },
        !confirms("n"@),
        !confirms("no"@),
        !confirms(""@),
{
    reveal_strlit("y");
    reveal_strlit("yes");
    reveal_strlit("n");
    reveal_strlit("no");
    reveal_strlit("");
    let t = trimmed(answer);
    let l = lower(t);
    assert(l.len() == t.len());
    assert forall|i: int| 0 <= i < t.len() implies #[trigger] l[i] == lower_char(t[i]) by {}
    assert(lower_char('Y') == 'y');
    assert(lower_char('E') == 'e');
    assert(lower_char('S') == 's');
    assert(lower_char('y') == 'y');
    assert(lower_char('e') == 'e');
    assert(lower_char('s') == 's');
    assert forall|c: char| #[trigger] lower_char(c) == 'y' implies either_case(c, 'y', 'Y') by {
        if 'A' <= c <= 'Z' {
            assert(c as u32 + 32 == 'y' as u32);
        }
    }
    assert forall|c: char| #[trigger] lower_char(c) == 'e' implies either_case(c, 'e', 'E') by {
        if 'A' <= c <= 'Z' {
            assert(c as u32 + 32 == 'e' as u32);
        }
    }
    assert forall|c: char| #[trigger] lower_char(c) == 's' implies either_case(c, 's', 'S') by {
        if 'A' <= c <= 'Z' {
            assert(c as u32 + 32 == 's' as u32);
        }
    }
    if t.len() == 1 && either_case(t[0], 'y', 'Y') {
        assert(l =~= "y"@);
    }
    if t.len() == 3 && either_case(t[0], 'y', 'Y') && either_case(t[1], 'e', 'E') && either_case(t[2], 's', 'S') {
        assert(l =~= "yes"@);
    }
    if l == "y"@ {
        assert(l[0] == 'y');
    }
    if l == "yes"@ {
        assert(l[0] == 'y' && l[1] == 'e' && l[2] == 's');
    }
    assert(trimmed("n"@) == "n"@) by {
        crate::text::lemma_trimmed_without_spaces("n"@);
    }
    assert(lower("n"@) =~= "n"@);
    assert(trimmed("no"@) == "no"@) by {
        crate::text::lemma_trimmed_without_spaces("no"@);
    }
    assert(lower("no"@) =~= "no"@);
    assert(trimmed(""@) == ""@) by {
        crate::text::lemma_trimmed_without_spaces(""@);
    }
    assert(lower(""@) =~= ""@);
}


/// Which lines each command offers. `fls add` offers every line that is neither explicit nor
/// unavailable: available, dependency and retained projects alike; `fls remove` offers
/// exactly the others, so every line is offered by one of the two; `fls set` offers what
/// `fls add` offers and the explicit lines. The offered lines keep their order.
pub proof fn choices_follow_status(v: Seq<ProjectStatus>)
    ensures
        forall|i: int| 0 <= i < v.len() ==> {
            let s = #[trigger] v[i].status@;
            &&& choices_where(v, choice_filter(ChoiceKind::Add)).contains(status_view(v[i]))
                <== s != "explicit"@ && s != "unavailable"@
            &&& choices_where(v, choice_filter(ChoiceKind::Remove)).contains(status_view(v[i]))
                <== s == "explicit"@ || s == "unavailable"@
            &&& choices_where(v, choice_filter(ChoiceKind::Replace)).contains(status_view(v[i]))
                <== s != "unavailable"@
        },
        forall|k: int| 0 <= k < choices_where(v, choice_filter(ChoiceKind::Add)).len() ==> {
            let s = (#[trigger] choices_where(v, choice_filter(ChoiceKind::Add))[k]).status;
            s != "explicit"@ && s != "unavailable"@
        },
        forall|k: int| 0 <= k < choices_where(v, choice_filter(ChoiceKind::Remove)).len() ==> {
            let s = (#[trigger] choices_where(v, choice_filter(ChoiceKind::Remove))[k]).status;
            s == "explicit"@ || s == "unavailable"@
        },
        forall|k: int| 0 <= k < choices_where(v, choice_filter(ChoiceKind::Replace)).len() ==> {
            let s = (#[trigger] choices_where(v, choice_filter(ChoiceKind::Replace))[k]).status;
            s != "unavailable"@
        },
        forall|s: Seq<char>| #[trigger] choice_filter(ChoiceKind::Add)(s) != choice_filter(ChoiceKind::Remove)(s),
        forall|s: Seq<char>| #[trigger] choice_filter(ChoiceKind::Replace)(s)
            == (choice_filter(ChoiceKind::Add)(s) || s == "explicit"@),
        choice_filter(ChoiceKind::Add)("available"@),
        choice_filter(ChoiceKind::Add)("dependency"@),
        choice_filter(ChoiceKind::Add)("retained"@),
{
    reveal_strlit("available");
    reveal_strlit("dependency");
    reveal_strlit("retained");
    reveal_strlit("explicit");
    reveal_strlit("unavailable");
    assert("available"@ != "explicit"@ && "available"@ != "unavailable"@) by {
        assert("available"@[0] != "explicit"@[0]);
        assert("available"@[0] != "unavailable"@[0]);
    }
    assert("dependency"@ != "explicit"@ && "dependency"@ != "unavailable"@) by {
        assert("dependency"@[0] != "explicit"@[0]);
        assert("dependency"@[0] != "unavailable"@[0]);
    }
    assert("retained"@ != "explicit"@ && "retained"@ != "unavailable"@) by {
        assert("retained"@[0] != "explicit"@[0]);
        assert("retained"@[0] != "unavailable"@[0]);
    }
    assert("explicit"@ != "unavailable"@) by {
        assert("explicit"@[0] != "unavailable"@[0]);
    }
    let sv = status_views(v);
    assert forall|kind: ChoiceKind, i: int| 0 <= i < v.len() && #[trigger] choice_filter(kind)(#[trigger] v[i].status@)
        implies choices_where(v, choice_filter(kind)).contains(status_view(v[i])) by {
        let pred = |s: StatusView| choice_filter(kind)(s.status);
        assert(sv[i] == status_view(v[i]));
        sv.lemma_filter_contains(pred, i);
    }
    assert forall|i: int| 0 <= i < v.len() implies {
        let s = #[trigger] v[i].status@;
        &&& choices_where(v, choice_filter(ChoiceKind::Add)).contains(status_view(v[i]))
            <== s != "explicit"@ && s != "unavailable"@
        &&& choices_where(v, choice_filter(ChoiceKind::Remove)).contains(status_view(v[i]))
            <== s == "explicit"@ || s == "unavailable"@
        &&& choices_where(v, choice_filter(ChoiceKind::Replace)).contains(status_view(v[i]))
            <== s != "unavailable"@
    } by {
        let s = v[i].status@;
        assert(choice_filter(ChoiceKind::Add)(s) == (s != "explicit"@ && s != "unavailable"@));
        assert(choice_filter(ChoiceKind::Remove)(s) == (s == "explicit"@ || s == "unavailable"@));
        assert(choice_filter(ChoiceKind::Replace)(s) == (s != "unavailable"@));
    }
    assert forall|kind: ChoiceKind, k: int| 0 <= k < choices_where(v, choice_filter(kind)).len()
        implies choice_filter(kind)((#[trigger] choices_where(v, choice_filter(kind))[k]).status) by {
        let pred = |s: StatusView| choice_filter(kind)(s.status);
        sv.lemma_filter_pred(pred, k);
    }
}

}
