use vstd::prelude::*;

verus! {

/// Strict lexicographic order on texts, comparing characters by code point.
/// This is the order of `str`'s `Ord` (byte order of UTF-8 agrees with code point order).
pub open spec fn text_lt(a: Seq<char>, b: Seq<char>) -> bool
    decreases a.len(),
{
    if a.len() == 0 {
        b.len() > 0
    } else if b.len() == 0 {
        false
    } else if a[0] < b[0] {
        true
    } else if a[0] == b[0] {
        text_lt(a.drop_first(), b.drop_first())
    } else {
        false
    }
}

/// A sequence of texts in strictly increasing order (hence without duplicates).
pub open spec fn strictly_sorted(s: Seq<Seq<char>>) -> bool {
    forall|i: int, j: int| 0 <= i < j < s.len() ==> text_lt(#[trigger] s[i], #[trigger] s[j])
}

pub proof fn lemma_text_lt_irreflexive(a: Seq<char>)
    ensures
        !text_lt(a, a),
    decreases a.len(),
{
    if a.len() > 0 {
        lemma_text_lt_irreflexive(a.drop_first());
    }
}

pub proof fn lemma_text_lt_transitive(a: Seq<char>, b: Seq<char>, c: Seq<char>)
    requires
        text_lt(a, b),
        text_lt(b, c),
    ensures
        text_lt(a, c),
    decreases a.len(),
{
    if a.len() > 0 && b.len() > 0 && c.len() > 0 {
        if a[0] == b[0] && b[0] == c[0] {
            lemma_text_lt_transitive(a.drop_first(), b.drop_first(), c.drop_first());
        }
    }
}

pub proof fn lemma_text_lt_total(a: Seq<char>, b: Seq<char>)
    ensures
        a == b || text_lt(a, b) || text_lt(b, a),
    decreases a.len(),
{
    if a.len() > 0 && b.len() > 0 {
        if a[0] == b[0] {
            lemma_text_lt_total(a.drop_first(), b.drop_first());
            if a.drop_first() == b.drop_first() {
                assert(a =~= seq![a[0]] + a.drop_first());
                assert(b =~= seq![b[0]] + b.drop_first());
            }
        } else {
            assert(a[0] < b[0] || b[0] < a[0]);
        }
    } else if a.len() == 0 && b.len() == 0 {
        assert(a =~= b);
    }
}

pub proof fn lemma_text_lt_asymmetric(a: Seq<char>, b: Seq<char>)
    requires
        text_lt(a, b),
    ensures
        !text_lt(b, a),
{
    if text_lt(b, a) {
        lemma_text_lt_transitive(a, b, a);
        lemma_text_lt_irreflexive(a);
    }
}

/// Skipping a common prefix does not change how two texts compare.
pub proof fn lemma_text_lt_common_prefix(a: Seq<char>, b: Seq<char>, i: int)
    requires
        0 <= i <= a.len(),
        i <= b.len(),
        a.take(i) == b.take(i),
    ensures
        text_lt(a, b) == text_lt(a.skip(i), b.skip(i)),
    decreases i,
{
    if i > 0 {
        assert(a[0] == a.take(i)[0]);
        assert(b[0] == b.take(i)[0]);
        assert(a.drop_first().take(i - 1) =~= a.take(i).drop_first());
        assert(b.drop_first().take(i - 1) =~= b.take(i).drop_first());
        lemma_text_lt_common_prefix(a.drop_first(), b.drop_first(), i - 1);
        assert(a.drop_first().skip(i - 1) =~= a.skip(i));
        assert(b.drop_first().skip(i - 1) =~= b.skip(i));
    } else {
        assert(a.skip(0) =~= a);
        assert(b.skip(0) =~= b);
    }
}

/// The three outcomes of comparing two texts.
#[derive(Clone, Copy, Debug, PartialEq, Eq)]
pub enum TextOrder {
    Less,
    Equal,
    Greater,
}

/// Compares two texts in `text_lt` order.
pub fn compare_texts(a: &str, b: &str) -> (r: TextOrder)
    ensures
        r == TextOrder::Less <==> text_lt(a@, b@),
        r == TextOrder::Equal <==> a@ == b@,
        r == TextOrder::Greater <==> text_lt(b@, a@),
{
    let x = crate::text::chars_of(a);
    let y = crate::text::chars_of(b);
    let mut i: usize = 0;
    proof {
        lemma_text_lt_total(a@, b@);
        lemma_text_lt_irreflexive(a@);
    }
    while i < x.len() && i < y.len() && x[i] == y[i]
        invariant
            x@ == a@,
            y@ == b@,
            i <= x.len(),
            i <= y.len(),
            x@.take(i as int) == y@.take(i as int),
        decreases x.len() - i,
    {
        assert(x@.take(i + 1) =~= x@.take(i as int).push(x@[i as int]));
        assert(y@.take(i + 1) =~= y@.take(i as int).push(y@[i as int]));
        i = i + 1;
    }
    proof {
        lemma_text_lt_common_prefix(a@, b@, i as int);
        lemma_text_lt_common_prefix(b@, a@, i as int);
    }
    if i == x.len() && i == y.len() {
        assert(x@ =~= x@.take(i as int));
        assert(y@ =~= y@.take(i as int));
        TextOrder::Equal
    } else if i == x.len() {
        assert(x@.skip(i as int).len() == 0);
        proof {
            if a@ == b@ {
                assert(false);
            }
        }
        TextOrder::Less
    } else if i == y.len() {
        assert(y@.skip(i as int).len() == 0);
        proof {
            if a@ == b@ {
                assert(false);
            }
            lemma_text_lt_asymmetric(b@, a@);
        }
        TextOrder::Greater
    } else {
        let cx = x[i];
        let cy = y[i];
        assert(x@.skip(i as int)[0] == cx);
        assert(y@.skip(i as int)[0] == cy);
        proof {
            if a@ == b@ {
                assert(false);
            }
        }
        if cx < cy {
            proof { lemma_text_lt_asymmetric(a@, b@); }
            TextOrder::Less
        } else {
            assert(cy < cx);
            proof { lemma_text_lt_asymmetric(b@, a@); }
            TextOrder::Greater
        }
    }
}


/// Whether `a` sorts strictly before `b`.
pub fn text_lt_exec(a: &str, b: &str) -> (r: bool)
    ensures
        r == text_lt(a@, b@),
{
    match compare_texts(a, b) {
        TextOrder::Less => true,
        _ => false,
    }
}

}
