//! The host triples fls supports and the Buck2 version that `mise.toml` pins.
use vstd::prelude::*;

use crate::error::{message3, string_result_view, Error, ErrorView};
use crate::text::{concat2, has_char, join, joined, owned, trim, trimmed, views};

verus! {

/// The host triples fls ships for.
pub open spec fn host_triples() -> Seq<Seq<char>> {
    seq![
        "aarch64-apple-darwin"@,
        "x86_64-apple-darwin"@,
        "aarch64-pc-windows-msvc"@,
        "x86_64-pc-windows-msvc"@,
        "aarch64-unknown-linux-gnu"@,
        "aarch64-unknown-linux-musl"@,
        "x86_64-unknown-linux-gnu"@,
        "x86_64-unknown-linux-musl"@,
        "riscv64gc-unknown-linux-gnu"@,
    ]
}

/// The host triples fls ships for (`SUPPORTED_HOST_TRIPLES`).
pub fn supported_host_triples() -> (r: Vec<String>)
    ensures
        views(r@) == host_triples(),
{
    let r = vec![
        owned("aarch64-apple-darwin"),
        owned("x86_64-apple-darwin"),
        owned("aarch64-pc-windows-msvc"),
        owned("x86_64-pc-windows-msvc"),
        owned("aarch64-unknown-linux-gnu"),
        owned("aarch64-unknown-linux-musl"),
        owned("x86_64-unknown-linux-gnu"),
        owned("x86_64-unknown-linux-musl"),
        owned("riscv64gc-unknown-linux-gnu"),
    ];
    assert(views(r@) =~= host_triples());
    r
}

/// The message for a host outside the supported matrix.
pub open spec fn unsupported_host_error(triple: Seq<char>) -> ErrorView {
    ErrorView::Message("当前 host triple `"@ + triple + "` 不受 fls 支持；支持范围为："@ + joined(host_triples(), ", "@))
}

/// The host check: the triple when supported, else the refusal.
pub open spec fn host_check(triple: Seq<char>) -> Result<Seq<char>, ErrorView> {
    if host_triples().contains(triple) {
        Ok(triple)
    } else {
        Err(unsupported_host_error(triple))
    }
}

/// Accepts `triple` when it is in the supported matrix.
pub fn ensure_supported_host(triple: &str) -> (r: Result<String, Error>)
    ensures
        string_result_view(&r) == host_check(triple@),
        r is Ok <==> host_triples().contains(triple@),
        r matches Ok(s) ==> s@ == triple@,
        r matches Err(e) ==> e@ == unsupported_host_error(triple@),
{
    let all = supported_host_triples();
    let mut i: usize = 0;
    while i < all.len()
        invariant
            views(all@) == host_triples(),
            i <= all.len(),
            forall|j: int| 0 <= j < i ==> host_triples()[j] != triple@,
        decreases all.len() - i,
    {
        assert(host_triples()[i as int] == all@[i as int]@);
        let t = owned(triple);
        if all[i] == t {
            return Ok(t);
        }
        i = i + 1;
    }
    let list = join(&all, ", ");
    let mut m = concat2("当前 host triple `", triple);
    m.append("` 不受 fls 支持；支持范围为：");
    m.append(list.as_str());
    Err(Error::Message(m))
}

/// What `mise.toml` says under `[tools] buck2`.
#[derive(Debug)]
pub enum Buck2Pin {
    /// No `buck2` entry.
    Missing,
    /// `buck2 = "<version>"`.
    Text(String),
    /// Any other value: its `version` entry when that is a string.
    Other(Option<String>),
}

/// The texts of a pin.
pub enum Buck2PinView {
    Missing,
    Text(Seq<char>),
    Other(Option<Seq<char>>),
}

impl View for Buck2Pin {
    type V = Buck2PinView;

    open spec fn view(&self) -> Buck2PinView {
        match self {
            Buck2Pin::Missing => Buck2PinView::Missing,
            Buck2Pin::Text(v) => Buck2PinView::Text(v@),
            Buck2Pin::Other(Some(v)) => Buck2PinView::Other(Some(v@)),
            Buck2Pin::Other(None) => Buck2PinView::Other(None),
        }
    }
}

/// A parsed TOML value, as far as fls reads it: a string, a table with its entries in the
/// table's order, or anything else.
#[derive(Debug)]
pub enum TomlValue {
    Text(String),
    Table(Vec<(String, TomlValue)>),
    Other,
}

/// The texts of a TOML value.
pub enum TomlView {
    Text(Seq<char>),
    Table(Seq<(Seq<char>, TomlView)>),
    Other,
}

/// The texts of a TOML value.
pub open spec fn toml_view(v: TomlValue) -> TomlView
    decreases v,
{
    match v {
        TomlValue::Text(s) => TomlView::Text(s@),
        TomlValue::Table(entries) => TomlView::Table(Seq::new(entries@.len(), |i: int|
            (entries@[i].0@, if 0 <= i < entries@.len() { toml_view(entries@[i].1) } else { TomlView::Other }))),
        TomlValue::Other => TomlView::Other,
    }
}

/// The texts of a parse result.
pub open spec fn toml_result_view(r: &Result<TomlValue, String>) -> Result<TomlView, Seq<char>> {
    match r {
        Ok(v) => Ok(toml_view(*v)),
        Err(e) => Err(e@),
    }
}

/// What `toml::from_str::<toml::Value>` makes of a document, converted one for one
/// (strings, tables with their entries, anything else), or the text of its error.
pub uninterp spec fn toml_document(contents: Seq<char>) -> Result<TomlView, Seq<char>>;

#[verifier::external_type_specification]
#[verifier::external_body]
pub struct ExTomlValue(toml::Value);

/// Converts a `toml::Value` one for one: a string to `Text`, a table to `Table` with its
/// entries in the table's order, anything else to `Other`. Nothing is claimed of it here;
/// `parse_toml`, which calls it, carries the claim.
#[verifier::external_body]
fn toml_tree(value: &toml::Value) -> TomlValue {
    match value {
        toml::Value::String(s) => TomlValue::Text(s.clone()),
        toml::Value::Table(table) => {
            let mut entries = Vec::new();
            for (key, item) in table {
                entries.push((key.clone(), toml_tree(item)));
            }
            TomlValue::Table(entries)
        },
        _ => TomlValue::Other,
    }
}

/// Parses a TOML document with `toml::from_str::<toml::Value>` and converts it with
/// `toml_tree`; the error is the parser's error text. The contract claims only that the
/// result is the same for the same contents, as `toml_document` names it.
#[verifier::external_body]
fn parse_toml(contents: &str) -> (r: Result<TomlValue, String>)
    ensures
        toml_result_view(&r) == toml_document(contents@),
{
    match toml::from_str::<toml::Value>(contents) {
        Ok(value) => Ok(toml_tree(&value)),
        Err(e) => Err(e.to_string()),
    }
}

/// Entry `i` is the first of `entries` under `key`.
pub open spec fn first_entry_at(entries: Seq<(Seq<char>, TomlView)>, key: Seq<char>, i: int) -> bool {
    &&& 0 <= i < entries.len()
    &&& entries[i].0 == key
    &&& forall|j: int| 0 <= j < i ==> (#[trigger] entries[j]).0 != key
}

/// The value under `key` in a table (`toml::Value::get`); none when `v` is not a table or
/// has no such entry.
pub open spec fn toml_get(v: TomlView, key: Seq<char>) -> Option<TomlView> {
    match v {
        TomlView::Table(entries) => if exists|i: int| first_entry_at(entries, key, i) {
            Some(entries[choose|i: int| first_entry_at(entries, key, i)].1)
        } else {
            None
        },
        _ => None,
    }
}

/// What `mise.toml` says under `[tools] buck2`: nothing, a string, or another value with
/// its `version` entry when that is a string.
pub open spec fn pin_of(document: TomlView) -> Buck2PinView {
    let buck2 = match toml_get(document, "tools"@) {
        Some(tools) => toml_get(tools, "buck2"@),
        None => None,
    };
    match buck2 {
        None => Buck2PinView::Missing,
        Some(TomlView::Text(v)) => Buck2PinView::Text(v),
        Some(value) => Buck2PinView::Other(match toml_get(value, "version"@) {
            Some(TomlView::Text(v)) => Some(v),
            _ => None,
        }),
    }
}

/// The value under `key` in a table, if `v` is one and has such an entry (the first).
pub fn toml_entry<'a>(v: &'a TomlValue, key: &str) -> (r: Option<&'a TomlValue>)
    ensures
        match r {
            Some(x) => toml_get(toml_view(*v), key@) == Some(toml_view(*x)),
            None => toml_get(toml_view(*v), key@) is None,
        },
{
    match v {
        TomlValue::Table(entries) => {
            let ghost es = match toml_view(*v) { TomlView::Table(es) => es, _ => Seq::empty() };
            assert(es.len() == entries@.len());
            let k = owned(key);
            let mut i: usize = 0;
            while i < entries.len()
                invariant
                    i <= entries.len(),
                    es.len() == entries@.len(),
                    toml_view(*v) == TomlView::Table(es),
                    *v == TomlValue::Table(*entries),
                    k@ == key@,
                    forall|j: int| 0 <= j < i ==> (#[trigger] es[j]).0 != key@,
                decreases entries.len() - i,
            {
                assert(es[i as int] == (entries@[i as int].0@, toml_view(entries@[i as int].1)));
                if entries[i].0 == k {
                    proof {
                        assert(first_entry_at(es, key@, i as int));
                        let c = choose|c: int| first_entry_at(es, key@, c);
                        if c < i {
                            assert(es[c].0 != key@);
                        } else if i < c {
                            assert(es[i as int].0 != key@);
                        }
                    }
                    return Some(&entries[i].1);
                }
                i = i + 1;
            }
            proof {
                if exists|c: int| first_entry_at(es, key@, c) {
                    let c = choose|c: int| first_entry_at(es, key@, c);
                    assert(es[c].0 != key@);
                }
            }
            None
        },
        _ => None,
    }
}

/// The pin that a parsed `mise.toml` holds under `[tools] buck2`.
pub fn buck2_pin(document: &TomlValue) -> (p: Buck2Pin)
    ensures
        p@ == pin_of(toml_view(*document)),
{
    proof {
        reveal_strlit("tools");
        reveal_strlit("buck2");
        reveal_strlit("version");
    }
    let buck2 = match toml_entry(document, "tools") {
        Some(tools) => toml_entry(tools, "buck2"),
        None => None,
    };
    match buck2 {
        None => Buck2Pin::Missing,
        Some(TomlValue::Text(v)) => Buck2Pin::Text(v.clone()),
        Some(value) => Buck2Pin::Other(match toml_entry(value, "version") {
            Some(TomlValue::Text(v)) => Some(v.clone()),
            _ => None,
        }),
    }
}

/// The pinned Buck2 version.
pub open spec fn pinned_version(pin: Buck2PinView) -> Result<Seq<char>, ErrorView> {
    match pin {
        Buck2PinView::Missing => Err(ErrorView::Message("mise.toml 没有固定 Buck2 版本"@)),
        Buck2PinView::Text(v) => Ok(v),
        Buck2PinView::Other(Some(v)) => Ok(v),
        Buck2PinView::Other(None) => Err(ErrorView::Message("mise.toml 中的 Buck2 版本不是精确字符串"@)),
    }
}

/// The pinned version from what parsing `mise.toml` (at `path`) gave.
pub open spec fn pin_check(path: Seq<char>, parsed: Result<TomlView, Seq<char>>) -> Result<Seq<char>, ErrorView> {
    match parsed {
        Err(e) => Err(ErrorView::ParseToml(path, e)),
        Ok(document) => pinned_version(pin_of(document)),
    }
}

/// The Buck2 version that a parsed `mise.toml` pins.
pub fn buck2_pin_version(pin: Buck2Pin) -> (r: Result<String, Error>)
    ensures
        string_result_view(&r) == pinned_version(pin@),
{
    match pin {
        Buck2Pin::Missing => Err(Error::message("mise.toml 没有固定 Buck2 版本")),
        Buck2Pin::Text(v) => Ok(v),
        Buck2Pin::Other(Some(v)) => Ok(v),
        Buck2Pin::Other(None) => Err(Error::message("mise.toml 中的 Buck2 版本不是精确字符串")),
    }
}

/// The Buck2 version that `mise.toml` (read from `path`, holding `contents`) pins under
/// `[tools] buck2`: its string, or its `version` entry.
pub fn pinned_buck2_version(path: &str, contents: &str) -> (r: Result<String, Error>)
    ensures
        string_result_view(&r) == pin_check(path@, toml_document(contents@)),
{
    match parse_toml(contents) {
        Ok(document) => buck2_pin_version(buck2_pin(&document)),
        Err(source) => Err(Error::ParseToml { path: owned(path), source }),
    }
}

/// A pin that names a range or `latest` rather than one exact version.
pub open spec fn inexact_pin(v: Seq<char>) -> bool {
    v == "latest"@ || v.contains('*') || v.contains(' ')
}

/// The pin check: the pinned version when it is exact and Buck2 printed a version.
pub open spec fn buck2_check(pinned: Result<Seq<char>, ErrorView>, actual: Seq<char>) -> Result<Seq<char>, ErrorView> {
    match pinned {
        Err(e) => Err(e),
        Ok(v) => if inexact_pin(v) {
            Err(ErrorView::Message("mise.toml 必须精确固定 Buck2 版本，当前值为 `"@ + v + "`"@))
        } else if trimmed(actual).len() == 0 {
            Err(ErrorView::Message("锁定的 Buck2 没有返回版本信息"@))
        } else {
            Ok(v)
        },
    }
}

/// Checks the pinned version (`pinned`, as read) against what the locked Buck2 printed.
pub fn ensure_buck2_version(pinned: Result<String, Error>, actual: &str) -> (r: Result<String, Error>)
    ensures
        string_result_view(&r) == buck2_check(string_result_view(&pinned), actual@),
        pinned matches Err(e0) ==> r matches Err(e) && e@ == e0@,
        pinned matches Ok(v) ==> {
            if inexact_pin(v@) {
                r matches Err(e) && e@ == ErrorView::Message("mise.toml 必须精确固定 Buck2 版本，当前值为 `"@ + v@ + "`"@)
            } else if trimmed(actual@).len() == 0 {
                r matches Err(e) && e@ == ErrorView::Message("锁定的 Buck2 没有返回版本信息"@)
            } else {
                r matches Ok(s) && s@ == v@
            }
        },
{
    let expected = match pinned {
        Ok(v) => v,
        Err(e) => return Err(e),
    };
    let latest = owned("latest");
    if expected == latest || has_char(expected.as_str(), '*') || has_char(expected.as_str(), ' ') {
        return Err(message3("mise.toml 必须精确固定 Buck2 版本，当前值为 `", expected.as_str(), "`"));
    }
    let t = trim(actual);
    if t.as_str().is_empty() {
        return Err(Error::message("锁定的 Buck2 没有返回版本信息"));
    }
    Ok(expected)
}

/// No host triple is listed twice.
pub proof fn host_triples_are_distinct()
    ensures
        host_triples().no_duplicates(),
        host_triples().len() == 9,
{
    reveal_strlit("aarch64-apple-darwin");
    reveal_strlit("x86_64-apple-darwin");
    reveal_strlit("aarch64-pc-windows-msvc");
    reveal_strlit("x86_64-pc-windows-msvc");
    reveal_strlit("aarch64-unknown-linux-gnu");
    reveal_strlit("aarch64-unknown-linux-musl");
    reveal_strlit("x86_64-unknown-linux-gnu");
    reveal_strlit("x86_64-unknown-linux-musl");
    reveal_strlit("riscv64gc-unknown-linux-gnu");
    let h = host_triples();
    assert forall|i: int, j: int| 0 <= i < h.len() && 0 <= j < h.len() && i != j implies h[i] != h[j] by {
        if h[i] == h[j] {
            assert(h[i].len() == h[j].len());
            assert(h[i][0] == h[j][0]);
            assert(h[i][h[i].len() - 1] == h[j][h[j].len() - 1]);
            assert(h[i][8] == h[j][8]);
            assert(h[i][16] == h[j][16]);
        }
    }
}

}
