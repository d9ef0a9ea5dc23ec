//! Text primitives over the character sequences of strings.
use vstd::prelude::*;

verus! {

/// The characters of a string slice, in order.
pub fn chars_of(s: &str) -> (v: Vec<char>)
    ensures
        v@ == s@,
{
    let mut v: Vec<char> = Vec::new();
    for c in it: s.chars()
        invariant
            v@ == it.seq().take(it.index() as int),
            it.seq() == s@,
    {
        v.push(c);
    }
    v
}

/// Appends one character (`String::push`).
#[verifier::external_body]
pub(crate) fn push_char(s: &mut String, c: char)
    ensures
        final(s)@ == old(s)@.push(c),
{
    s.push(c);
}

/// A string made of the given characters.
pub fn string_from_chars(v: &Vec<char>) -> (s: String)
    ensures
        s@ == v@,
{
    let mut s = String::new();
    let mut i: usize = 0;
    while i < v.len()
        invariant
            i <= v.len(),
            s@ == v@.take(i as int),
        decreases v.len() - i,
    {
        push_char(&mut s, v[i]);
        assert(v@.take(i as int).push(v@[i as int]) =~= v@.take(i + 1));
        i = i + 1;
    }
    assert(v@.take(v.len() as int) =~= v@);
    s
}

/// An owned copy of `s`.
pub fn owned(s: &str) -> (r: String)
    ensures
        r@ == s@,
{
    s.to_owned()
}

/// `a` followed by `b`.
pub fn concat2(a: &str, b: &str) -> (r: String)
    ensures
        r@ == a@ + b@,
{
    let mut r = a.to_owned();
    r.append(b);
    r
}

/// `a`, `b` and `c` one after another.
pub fn concat3(a: &str, b: &str, c: &str) -> (r: String)
    ensures
        r@ == a@ + b@ + c@,
{
    let mut r = a.to_owned();
    r.append(b);
    r.append(c);
    r
}

/// Five pieces one after another.
pub fn concat5(a: &str, b: &str, c: &str, d: &str, e: &str) -> (r: String)
    ensures
        r@ == a@ + b@ + c@ + d@ + e@,
{
    let mut r = a.to_owned();
    r.append(b);
    r.append(c);
    r.append(d);
    r.append(e);
    r
}

// ---------------------------------------------------------------- ASCII case

pub open spec fn lower_char(c: char) -> char {
    if 'A' <= c <= 'Z' {
        ((c as u32) + 32) as char
    } else {
        c
    }
}

/// ASCII lower-casing (`str::to_ascii_lowercase`): other characters stay.
pub open spec fn lower(s: Seq<char>) -> Seq<char> {
    s.map_values(|c: char| lower_char(c))
}

/// ASCII case-insensitive equality (`str::eq_ignore_ascii_case`).
pub open spec fn same_ignoring_case(a: Seq<char>, b: Seq<char>) -> bool {
    lower(a) == lower(b)
}

fn lower_char_exec(c: char) -> (r: char)
    ensures
        r == lower_char(c),
{
    if 'A' <= c && c <= 'Z' {
        let b: u8 = c as u8;
        (b + 32) as char
    } else {
        c
    }
}

/// The ASCII lower-case form of `s`.
pub fn to_lower(s: &str) -> (r: String)
    ensures
        r@ == lower(s@),
{
    let v = chars_of(s);
    let mut w: Vec<char> = Vec::new();
    let mut i: usize = 0;
    while i < v.len()
        invariant
            v@ == s@,
            i <= v.len(),
            w@ == lower(v@.take(i as int)),
        decreases v.len() - i,
    {
        w.push(lower_char_exec(v[i]));
        assert(w@ =~= lower(v@.take(i + 1)));
        i = i + 1;
    }
    assert(v@.take(i as int) =~= v@);
    string_from_chars(&w)
}

/// Whether `a` and `b` are equal when ASCII letters are compared without case.
pub fn eq_ignore_case(a: &str, b: &str) -> (r: bool)
    ensures
        r == same_ignoring_case(a@, b@),
{
    let x = to_lower(a);
    let y = to_lower(b);
    x == y
}

// ---------------------------------------------------------------- whitespace

/// `char::is_whitespace`: the Unicode `White_Space` characters.
pub open spec fn is_space(c: char) -> bool {
    ||| ('\u{9}' <= c && c <= '\u{d}')
    ||| c == ' '
    ||| c == '\u{85}'
    ||| c == '\u{a0}'
    ||| c == '\u{1680}'
    ||| ('\u{2000}' <= c && c <= '\u{200a}')
    ||| c == '\u{2028}'
    ||| c == '\u{2029}'
    ||| c == '\u{202f}'
    ||| c == '\u{205f}'
    ||| c == '\u{3000}'
}

pub fn is_space_exec(c: char) -> (r: bool)
    ensures
        r == is_space(c),
{
    ('\u{9}' <= c && c <= '\u{d}') || c == ' ' || c == '\u{85}' || c == '\u{a0}' || c == '\u{1680}'
        || ('\u{2000}' <= c && c <= '\u{200a}') || c == '\u{2028}' || c == '\u{2029}'
        || c == '\u{202f}' || c == '\u{205f}' || c == '\u{3000}'
}

/// `s` without leading whitespace.
pub open spec fn trim_start(s: Seq<char>) -> Seq<char>
    decreases s.len(),
{
    if s.len() > 0 && is_space(s[0]) {
        trim_start(s.drop_first())
    } else {
        s
    }
}

/// `s` without trailing whitespace.
pub open spec fn trim_end(s: Seq<char>) -> Seq<char>
    decreases s.len(),
{
    if s.len() > 0 && is_space(s.last()) {
        trim_end(s.drop_last())
    } else {
        s
    }
}

/// `str::trim`: `s` without leading and trailing whitespace.
pub open spec fn trimmed(s: Seq<char>) -> Seq<char> {
    trim_end(trim_start(s))
}

/// A text that neither starts nor ends with whitespace is its own trimmed form.
pub proof fn lemma_trimmed_without_spaces(s: Seq<char>)
    requires
        s.len() > 0 ==> !is_space(s[0]) && !is_space(s.last()),
    ensures
        trimmed(s) == s,
{
}

proof fn lemma_trim_start_skip(s: Seq<char>, i: int)
    requires
        0 <= i <= s.len(),
        forall|j: int| 0 <= j < i ==> is_space(#[trigger] s[j]),
    ensures
        trim_start(s) == trim_start(s.skip(i)),
    decreases i,
{
    if i > 0 {
        assert(s.drop_first().skip(i - 1) =~= s.skip(i));
        lemma_trim_start_skip(s.drop_first(), i - 1);
    } else {
        assert(s.skip(0) =~= s);
    }
}

proof fn lemma_trim_end_take(s: Seq<char>, i: int)
    requires
        0 <= i <= s.len(),
        forall|j: int| i <= j < s.len() ==> is_space(#[trigger] s[j]),
    ensures
        trim_end(s) == trim_end(s.take(i)),
    decreases s.len() - i,
{
    if i < s.len() {
        assert(s.drop_last().take(i) =~= s.take(i));
        lemma_trim_end_take(s.drop_last(), i);
    } else {
        assert(s.take(i) =~= s);
    }
}

/// `s` with leading and trailing whitespace removed.
pub fn trim(s: &str) -> (r: String)
    ensures
        r@ == trimmed(s@),
{
    let v = chars_of(s);
    let mut start: usize = 0;
    while start < v.len() && is_space_exec(v[start])
        invariant
            v@ == s@,
            start <= v.len(),
            forall|j: int| 0 <= j < start ==> is_space(#[trigger] v@[j]),
        decreases v.len() - start,
    {
        start = start + 1;
    }
    let mut end: usize = v.len();
    while end > start && is_space_exec(v[end - 1])
        invariant
            v@ == s@,
            start <= end <= v.len(),
            forall|j: int| end <= j < v.len() ==> is_space(#[trigger] v@[j]),
        decreases end,
    {
        end = end - 1;
    }
    let mut w: Vec<char> = Vec::new();
    let mut i: usize = start;
    while i < end
        invariant
            v@ == s@,
            start <= i <= end <= v.len(),
            w@ == v@.subrange(start as int, i as int),
        decreases end - i,
    {
        w.push(v[i]);
        assert(w@ =~= v@.subrange(start as int, i + 1));
        i = i + 1;
    }
    proof {
        lemma_trim_start_skip(v@, start as int);
        let t = v@.skip(start as int);
        if start < v.len() {
            assert(!is_space(t[0]));
            assert(trim_start(t) == t);
        } else {
            assert(t.len() == 0);
        }
        assert forall|j: int| end - start <= j < t.len() implies is_space(#[trigger] t[j]) by {
            assert(t[j] == v@[j + start]);
        }
        lemma_trim_end_take(t, end - start);
        let u = t.take(end - start);
        assert(u =~= w@);
        if end > start {
            assert(u.last() == v@[end - 1]);
        }
    }
    string_from_chars(&w)
}

// ---------------------------------------------------------------- searching and splitting

/// Index of the first `c` in `s`, or `s.len()` when there is none.
pub open spec fn find<A>(s: Seq<A>, c: A) -> int
    decreases s.len(),
{
    if s.len() == 0 {
        0
    } else if s[0] == c {
        0
    } else {
        1 + find(s.drop_first(), c)
    }
}

/// The pieces of `s` between occurrences of `c` (`str::split` with a single separator).
pub open spec fn split_on<A>(s: Seq<A>, c: A) -> Seq<Seq<A>>
    decreases s.len(),
{
    let i = find(s, c);
    proof {
        lemma_find_bounds(s, c);
    }
    if i >= s.len() {
        seq![s]
    } else {
        seq![s.take(i)] + split_on(s.skip(i + 1), c)
    }
}

pub proof fn lemma_find_bounds<A>(s: Seq<A>, c: A)
    ensures
        0 <= find(s, c) <= s.len(),
        find(s, c) < s.len() ==> s[find(s, c)] == c,
        forall|j: int| 0 <= j < find(s, c) ==> s[j] != c,
        find(s, c) == s.len() <==> !s.contains(c),
    decreases s.len(),
{
    if s.len() > 0 && s[0] != c {
        lemma_find_bounds(s.drop_first(), c);
        assert forall|j: int| 0 <= j < find(s, c) implies s[j] != c by {
            if j > 0 {
                assert(s[j] == s.drop_first()[j - 1]);
            }
        }
        if s.contains(c) {
            let k = choose|k: int| 0 <= k < s.len() && s[k] == c;
            assert(s.drop_first()[k - 1] == c);
        }
        if s.drop_first().contains(c) {
            let k = choose|k: int| 0 <= k < s.drop_first().len() && s.drop_first()[k] == c;
            assert(s[k + 1] == c);
        }
    }
}

/// Splitting always yields at least one piece.
pub proof fn lemma_split_nonempty<A>(s: Seq<A>, c: A)
    ensures
        split_on(s, c).len() >= 1,
{
    lemma_find_bounds(s, c);
}

proof fn lemma_find_append<A>(a: Seq<A>, t: Seq<A>, c: A)
    requires
        !a.contains(c),
    ensures
        find(a + t, c) == a.len() + find(t, c),
    decreases a.len(),
{
    if a.len() > 0 {
        assert((a + t).drop_first() =~= a.drop_first() + t);
        assert((a + t)[0] == a[0]);
        assert(!a.drop_first().contains(c)) by {
            if a.drop_first().contains(c) {
                let k = choose|k: int| 0 <= k < a.drop_first().len() && a.drop_first()[k] == c;
                assert(a[k + 1] == c);
            }
        }
        lemma_find_append(a.drop_first(), t, c);
    } else {
        assert(a + t =~= t);
    }
}

/// `split_on` of a piece that has no separator followed by the separator and the rest.
proof fn lemma_split_step<A>(cur: Seq<A>, c: A, rest: Seq<A>)
    requires
        !cur.contains(c),
    ensures
        split_on(cur + seq![c] + rest, c) == seq![cur] + split_on(rest, c),
{
    let s = cur + seq![c] + rest;
    assert(s =~= cur + (seq![c] + rest));
    lemma_find_append(cur, seq![c] + rest, c);
    assert((seq![c] + rest)[0] == c);
    assert(s.take(cur.len() as int) =~= cur);
    assert(s.skip(cur.len() as int + 1) =~= rest);
}

proof fn lemma_split_last<A>(cur: Seq<A>, c: A)
    requires
        !cur.contains(c),
    ensures
        split_on(cur, c) == seq![cur],
{
    lemma_find_bounds(cur, c);
}

/// Splits characters at each `c`.
pub fn split_chars(v: &Vec<char>, c: char) -> (r: Vec<Vec<char>>)
    ensures
        r@.map_values(|p: Vec<char>| p@) == split_on(v@, c),
{
    let mut done: Vec<Vec<char>> = Vec::new();
    let mut cur: Vec<char> = Vec::new();
    let mut i: usize = 0;
    assert(cur@ + v@.skip(0) =~= v@);
    assert(done@.map_values(|p: Vec<char>| p@) + split_on(v@, c) =~= split_on(v@, c));
    while i < v.len()
        invariant
            i <= v.len(),
            !cur@.contains(c),
            split_on(v@, c) == done@.map_values(|p: Vec<char>| p@) + split_on(cur@ + v@.skip(i as int), c),
        decreases v.len() - i,
    {
        let x = v[i];
        let ghost d0 = done@.map_values(|p: Vec<char>| p@);
        let ghost c0 = cur@;
        proof {
            assert(v@.skip(i as int) =~= seq![x] + v@.skip(i + 1));
        }
        if x == c {
            proof {
                assert(c0 + v@.skip(i as int) =~= c0 + seq![c] + v@.skip(i + 1));
                lemma_split_step(c0, c, v@.skip(i + 1));
            }
            let piece = cur;
            done.push(piece);
            cur = Vec::new();
            proof {
                assert(done@.map_values(|p: Vec<char>| p@) =~= d0.push(c0));
                assert(cur@ + v@.skip(i + 1) =~= v@.skip(i + 1));
                assert(d0 + (seq![c0] + split_on(v@.skip(i + 1), c)) =~= d0.push(c0) + split_on(v@.skip(i + 1), c));
            }
        } else {
            cur.push(x);
            proof {
                assert(c0 + v@.skip(i as int) =~= cur@ + v@.skip(i + 1));
                if cur@.contains(c) {
                    let k = choose|k: int| 0 <= k < cur@.len() && cur@[k] == c;
                    assert(k < c0.len());
                    assert(c0[k] == c);
                }
            }
        }
        i = i + 1;
    }
    let ghost d0 = done@.map_values(|p: Vec<char>| p@);
    proof {
        assert(cur@ + v@.skip(i as int) =~= cur@);
        lemma_split_last(cur@, c);
    }
    let ghost c0 = cur@;
    done.push(cur);
    proof {
        assert(done@.map_values(|p: Vec<char>| p@) =~= d0.push(c0));
        assert(d0 + seq![c0] =~= d0.push(c0));
    }
    done
}

/// Splits bytes at each `c`.
pub fn split_bytes(v: &Vec<u8>, c: u8) -> (r: Vec<Vec<u8>>)
    ensures
        r@.map_values(|p: Vec<u8>| p@) == split_on(v@, c),
{
    let mut done: Vec<Vec<u8>> = Vec::new();
    let mut cur: Vec<u8> = Vec::new();
    let mut i: usize = 0;
    assert(cur@ + v@.skip(0) =~= v@);
    assert(done@.map_values(|p: Vec<u8>| p@) + split_on(v@, c) =~= split_on(v@, c));
    while i < v.len()
        invariant
            i <= v.len(),
            !cur@.contains(c),
            split_on(v@, c) == done@.map_values(|p: Vec<u8>| p@) + split_on(cur@ + v@.skip(i as int), c),
        decreases v.len() - i,
    {
        let x = v[i];
        let ghost d0 = done@.map_values(|p: Vec<u8>| p@);
        let ghost c0 = cur@;
        proof {
            assert(v@.skip(i as int) =~= seq![x] + v@.skip(i + 1));
        }
        if x == c {
            proof {
                assert(c0 + v@.skip(i as int) =~= c0 + seq![c] + v@.skip(i + 1));
                lemma_split_step(c0, c, v@.skip(i + 1));
            }
            let piece = cur;
            done.push(piece);
            cur = Vec::new();
            proof {
                assert(done@.map_values(|p: Vec<u8>| p@) =~= d0.push(c0));
                assert(cur@ + v@.skip(i + 1) =~= v@.skip(i + 1));
                assert(d0 + (seq![c0] + split_on(v@.skip(i + 1), c)) =~= d0.push(c0) + split_on(v@.skip(i + 1), c));
            }
        } else {
            cur.push(x);
            proof {
                assert(c0 + v@.skip(i as int) =~= cur@ + v@.skip(i + 1));
                if cur@.contains(c) {
                    let k = choose|k: int| 0 <= k < cur@.len() && cur@[k] == c;
                    assert(k < c0.len());
                    assert(c0[k] == c);
                }
            }
        }
        i = i + 1;
    }
    let ghost d0 = done@.map_values(|p: Vec<u8>| p@);
    proof {
        assert(cur@ + v@.skip(i as int) =~= cur@);
        lemma_split_last(cur@, c);
    }
    let ghost c0 = cur@;
    done.push(cur);
    proof {
        assert(done@.map_values(|p: Vec<u8>| p@) =~= d0.push(c0));
        assert(d0 + seq![c0] =~= d0.push(c0));
    }
    done
}

/// Whether `c` occurs in `s`.
pub fn has_char(s: &str, c: char) -> (b: bool)
    ensures
        b == s@.contains(c),
{
    let v = chars_of(s);
    let mut i: usize = 0;
    while i < v.len()
        invariant
            v@ == s@,
            i <= v.len(),
            forall|j: int| 0 <= j < i ==> v@[j] != c,
        decreases v.len() - i,
    {
        if v[i] == c {
            return true;
        }
        i = i + 1;
    }
    false
}

/// Whether `p` is a prefix of `s`.
pub open spec fn starts_with(s: Seq<char>, p: Seq<char>) -> bool {
    p.len() <= s.len() && s.take(p.len() as int) == p
}

/// Whether `p` is a suffix of `s`.
pub open spec fn ends_with(s: Seq<char>, p: Seq<char>) -> bool {
    p.len() <= s.len() && s.skip(s.len() - p.len()) == p
}

/// Whether the bytes `p` are a prefix of `s`.
pub open spec fn starts_with_bytes(s: Seq<u8>, p: Seq<u8>) -> bool {
    p.len() <= s.len() && s.take(p.len() as int) == p
}

/// `str::strip_prefix`.
pub fn strip_prefix(s: &str, p: &str) -> (r: Option<String>)
    ensures
        r is Some <==> starts_with(s@, p@),
        r matches Some(t) ==> t@ == s@.skip(p@.len() as int),
{
    let v = chars_of(s);
    let w = chars_of(p);
    if w.len() > v.len() {
        return None;
    }
    let mut i: usize = 0;
    while i < w.len()
        invariant
            v@ == s@,
            w@ == p@,
            w.len() <= v.len(),
            i <= w.len(),
            v@.take(i as int) == w@.take(i as int),
        decreases w.len() - i,
    {
        if v[i] != w[i] {
            assert(v@.take(w.len() as int)[i as int] != w@[i as int]);
            return None;
        }
        assert(v@.take(i + 1) =~= v@.take(i as int).push(v@[i as int]));
        assert(w@.take(i + 1) =~= w@.take(i as int).push(w@[i as int]));
        i = i + 1;
    }
    assert(w@.take(i as int) =~= w@);
    let mut rest: Vec<char> = Vec::new();
    let mut j: usize = w.len();
    while j < v.len()
        invariant
            v@ == s@,
            w@ == p@,
            w.len() <= j <= v.len(),
            rest@ == v@.subrange(w.len() as int, j as int),
        decreases v.len() - j,
    {
        rest.push(v[j]);
        assert(rest@ =~= v@.subrange(w.len() as int, j + 1));
        j = j + 1;
    }
    assert(rest@ =~= v@.skip(w.len() as int));
    Some(string_from_chars(&rest))
}

/// `str::strip_suffix`.
pub fn strip_suffix(s: &str, p: &str) -> (r: Option<String>)
    ensures
        r is Some <==> ends_with(s@, p@),
        r matches Some(t) ==> t@ == s@.take(s@.len() - p@.len()),
{
    let v = chars_of(s);
    let w = chars_of(p);
    if w.len() > v.len() {
        return None;
    }
    let off: usize = v.len() - w.len();
    let mut i: usize = 0;
    while i < w.len()
        invariant
            v@ == s@,
            w@ == p@,
            off == v.len() - w.len(),
            i <= w.len(),
            v@.skip(off as int).take(i as int) == w@.take(i as int),
        decreases w.len() - i,
    {
        if v[off + i] != w[i] {
            assert(v@.skip(off as int)[i as int] != w@[i as int]);
            return None;
        }
        assert(v@.skip(off as int).take(i + 1) =~= v@.skip(off as int).take(i as int).push(v@[off + i]));
        assert(w@.take(i + 1) =~= w@.take(i as int).push(w@[i as int]));
        i = i + 1;
    }
    assert(w@.take(i as int) =~= w@);
    assert(v@.skip(off as int).take(i as int) =~= v@.skip(off as int));
    let mut rest: Vec<char> = Vec::new();
    let mut j: usize = 0;
    while j < off
        invariant
            v@ == s@,
            off <= v.len(),
            j <= off,
            rest@ == v@.take(j as int),
        decreases off - j,
    {
        rest.push(v[j]);
        assert(rest@ =~= v@.take(j + 1));
        j = j + 1;
    }
    Some(string_from_chars(&rest))
}

// ---------------------------------------------------------------- joining

/// The texts of `items` with `sep` between neighbours (`[String]::join`).
pub open spec fn joined(items: Seq<Seq<char>>, sep: Seq<char>) -> Seq<char>
    decreases items.len(),
{
    if items.len() == 0 {
        Seq::empty()
    } else if items.len() == 1 {
        items[0]
    } else {
        joined(items.drop_last(), sep) + sep + items.last()
    }
}

/// The views of a vector of strings.
pub open spec fn views(v: Seq<String>) -> Seq<Seq<char>> {
    v.map_values(|s: String| s@)
}

pub proof fn lemma_views_push(v: Seq<String>, s: String)
    ensures
        views(v.push(s)) == views(v).push(s@),
{
    assert(views(v.push(s)) =~= views(v).push(s@));
}

/// Joins the strings with `sep` between neighbours.
pub fn join(items: &Vec<String>, sep: &str) -> (r: String)
    ensures
        r@ == joined(views(items@), sep@),
{
    let mut r = String::new();
    let mut i: usize = 0;
    while i < items.len()
        invariant
            i <= items.len(),
            r@ == joined(views(items@).take(i as int), sep@),
        decreases items.len() - i,
    {
        proof {
            let t = views(items@).take(i + 1);
            assert(t.drop_last() =~= views(items@).take(i as int));
            assert(t.last() == items@[i as int]@);
        }
        if i > 0 {
            r.append(sep);
        } else {
            assert(views(items@).take(0) =~= Seq::<Seq<char>>::empty());
        }
        r.append(items[i].as_str());
        i = i + 1;
    }
    assert(views(items@).take(i as int) =~= views(items@));
    r
}

// ---------------------------------------------------------------- numbers

/// Decimal digits of `n`, without sign or leading zeros.
pub open spec fn decimal(n: nat) -> Seq<char>
    decreases n,
{
    if n < 10 {
        seq![digit_char((n % 10) as nat)]
    } else {
        decimal(n / 10) + seq![digit_char((n % 10) as nat)]
    }
}

pub open spec fn digit_char(d: nat) -> char {
    if d == 0 { '0' } else if d == 1 { '1' } else if d == 2 { '2' } else if d == 3 { '3' }
    else if d == 4 { '4' } else if d == 5 { '5' } else if d == 6 { '6' } else if d == 7 { '7' }
    else if d == 8 { '8' } else { '9' }
}

fn digit_char_exec(d: u64) -> (c: char)
    requires
        d < 10,
    ensures
        c == digit_char(d as nat),
{
    if d == 0 { '0' } else if d == 1 { '1' } else if d == 2 { '2' } else if d == 3 { '3' }
    else if d == 4 { '4' } else if d == 5 { '5' } else if d == 6 { '6' } else if d == 7 { '7' }
    else if d == 8 { '8' } else { '9' }
}

/// The decimal form of `n` (as `{}` formats it).
pub fn decimal_text(n: u64) -> (r: String)
    ensures
        r@ == decimal(n as nat),
    decreases n,
{
    if n < 10 {
        let v = vec![digit_char_exec(n % 10)];
        assert(v@ =~= seq![digit_char((n % 10) as nat)]);
        string_from_chars(&v)
    } else {
        let mut r = decimal_text(n / 10);
        push_char(&mut r, digit_char_exec(n % 10));
        r
    }
}


// ---------------------------------------------------------------- UTF-8

/// The text with which `String::from_utf8` reports invalid bytes (its error's `Display`).
pub uninterp spec fn utf8_error_text(bytes: Seq<u8>) -> Seq<char>;

/// Decodes UTF-8 (`String::from_utf8`); the error is the failure's text.
#[verifier::external_body]
pub(crate) fn decode_utf8(bytes: Vec<u8>) -> (r: Result<String, String>)
    ensures
        r is Ok <==> vstd::utf8::valid_utf8(bytes@),
        r matches Ok(s) ==> s@ == vstd::utf8::decode_utf8(bytes@),
        r matches Err(e) ==> e@ == utf8_error_text(bytes@),
{
    String::from_utf8(bytes).map_err(|e| e.to_string())
}

/// A copy of a byte slice as a vector.
pub fn bytes_to_vec(b: &[u8]) -> (v: Vec<u8>)
    ensures
        v@ == b@,
{
    let mut v: Vec<u8> = Vec::new();
    let mut i: usize = 0;
    while i < b.len()
        invariant
            i <= b.len(),
            v@ == b@.take(i as int),
        decreases b.len() - i,
    {
        v.push(b[i]);
        assert(v@ =~= b@.take(i + 1));
        i = i + 1;
    }
    assert(b@.take(i as int) =~= b@);
    v
}


/// What `String::from_utf8_lossy` makes of bytes.
pub uninterp spec fn utf8_lossy(bytes: Seq<u8>) -> Seq<char>;

/// Decodes UTF-8, putting U+FFFD for each invalid sequence (`String::from_utf8_lossy`).
/// Valid UTF-8 decodes as it is.
#[verifier::external_body]
pub(crate) fn decode_utf8_lossy(bytes: &[u8]) -> (r: String)
    ensures
        r@ == utf8_lossy(bytes@),
        vstd::utf8::valid_utf8(bytes@) ==> r@ == vstd::utf8::decode_utf8(bytes@),
{
    String::from_utf8_lossy(bytes).into_owned()
}

// ---------------------------------------------------------------- substrings

/// `needle` occurs in `hay` starting at `i`.
pub open spec fn occurs_at(hay: Seq<char>, needle: Seq<char>, i: int) -> bool {
    0 <= i && i + needle.len() <= hay.len() && hay.subrange(i, i + needle.len()) == needle
}

/// `needle` occurs somewhere in `hay` (`str::contains` with a string pattern).
pub open spec fn has_substring(hay: Seq<char>, needle: Seq<char>) -> bool {
    exists|i: int| occurs_at(hay, needle, i)
}

/// Whether `needle` occurs in `hay`.
pub fn contains_text(hay: &str, needle: &str) -> (b: bool)
    ensures
        b == has_substring(hay@, needle@),
{
    let h = chars_of(hay);
    let n = chars_of(needle);
    if n.len() > h.len() {
        proof {
            assert forall|i: int| !occurs_at(hay@, needle@, i) by {}
        }
        return false;
    }
    if n.len() == 0 {
        assert(hay@.subrange(0, 0) =~= needle@);
        assert(occurs_at(hay@, needle@, 0));
        return true;
    }
    let last = h.len() - n.len();
    let mut i: usize = 0;
    while i <= last
        invariant
            h@ == hay@,
            n@ == needle@,
            last == h@.len() - n@.len(),
            last < h.len(),
            i <= last + 1,
            forall|k: int| 0 <= k < i ==> !occurs_at(hay@, needle@, k),
        decreases last + 1 - i,
    {
        let mut j: usize = 0;
        let mut same = true;
        while j < n.len()
            invariant
                h@ == hay@,
                n@ == needle@,
                i + n@.len() <= h@.len(),
                j <= n@.len(),
                same == forall|k: int| 0 <= k < j ==> h@[i + k] == n@[k],
            decreases n.len() - j,
        {
            assert(i + j < h.len());
            if h[i + j] != n[j] {
                same = false;
            }
            j = j + 1;
        }
        if same {
            proof {
                assert(hay@.subrange(i as int, i + needle@.len()) =~= needle@);
                assert(occurs_at(hay@, needle@, i as int));
            }
            return true;
        }
        proof {
            assert(!occurs_at(hay@, needle@, i as int)) by {
                if occurs_at(hay@, needle@, i as int) {
                    let k = choose|k: int| 0 <= k < n@.len() && h@[i + k] != n@[k];
                    assert(hay@.subrange(i as int, i + needle@.len())[k] == h@[i + k]);
                }
            }
        }
        i = i + 1;
    }
    false
}

/// A copy of a list of texts.
pub fn copy_texts(v: &Vec<String>) -> (r: Vec<String>)
    ensures
        views(r@) == views(v@),
{
    let mut r: Vec<String> = Vec::new();
    let mut i: usize = 0;
    while i < v.len()
        invariant
            i <= v.len(),
            views(r@) == views(v@).take(i as int),
        decreases v.len() - i,
    {
        let ghost before = r@;
        r.push(v[i].clone());
        proof {
            lemma_views_push(before, v@[i as int]);
            assert(views(v@).take(i + 1) =~= views(v@).take(i as int).push(v@[i as int]@));
        }
        i = i + 1;
    }
    assert(views(v@).take(i as int) =~= views(v@));
    r
}

}
