//! Orders on texts and on ranks, and sorting by them.

use vstd::prelude::*;
use crate::text;

verus! {

/// Whether a text comes before another, or is the same: by the first character in which they
/// differ, a text before what continues it.
pub open spec fn text_le(a: Seq<char>, b: Seq<char>) -> bool
    decreases a.len(),
{
    if a.len() == 0 {
        true
    } else if b.len() == 0 {
        false
    } else if a[0] != b[0] {
        a[0] < b[0]
    } else {
        text_le(a.drop_first(), b.drop_first())
    }
}

/// Whether a text comes before another, or is the same.
pub fn le(a: &str, b: &str) -> (r: bool)
    ensures
        r == text_le(a@, b@),
{
    let x = text::chars_of(a);
    let y = text::chars_of(b);
    let mut i: usize = 0;
    assert(a@.skip(0) =~= a@);
    assert(b@.skip(0) =~= b@);
    while i < x.len() && i < y.len()
        invariant
            x@ == a@,
            y@ == b@,
            i <= x@.len(),
            i <= y@.len(),
            text_le(a@, b@) == text_le(a@.skip(i as int), b@.skip(i as int)),
        decreases x@.len() - i,
    {
        let c: char = x[i];
        let d: char = y[i];
        if c != d {
            return c < d;
        }
        assert(a@.skip(i as int).drop_first() =~= a@.skip(i + 1));
        assert(b@.skip(i as int).drop_first() =~= b@.skip(i + 1));
        i = i + 1;
    }
    i == x.len()
}

pub proof fn lemma_text_le_total(a: Seq<char>, b: Seq<char>)
    ensures
        text_le(a, b) || text_le(b, a),
    decreases a.len(),
{
    if a.len() > 0 && b.len() > 0 && a[0] == b[0] {
        lemma_text_le_total(a.drop_first(), b.drop_first());
    }
}

pub proof fn lemma_text_le_transitive(a: Seq<char>, b: Seq<char>, c: Seq<char>)
    requires
        text_le(a, b),
        text_le(b, c),
    ensures
        text_le(a, c),
    decreases a.len(),
{
    if a.len() > 0 && b.len() > 0 && c.len() > 0 && a[0] == b[0] && b[0] == c[0] {
        lemma_text_le_transitive(a.drop_first(), b.drop_first(), c.drop_first());
    }
}

pub proof fn lemma_text_le_antisymmetric(a: Seq<char>, b: Seq<char>)
    requires
        text_le(a, b),
        text_le(b, a),
    ensures
        a == b,
    decreases a.len(),
{
    if a.len() == 0 {
        assert(b.len() == 0);
        assert(a =~= b);
    } else {
        lemma_text_le_antisymmetric(a.drop_first(), b.drop_first());
        assert(a =~= seq![a[0]] + a.drop_first());
        assert(b =~= seq![b[0]] + b.drop_first());
    }
}

/// Whether texts stand in ascending order.
pub open spec fn ascending(s: Seq<Seq<char>>) -> bool {
    forall|i: int, j: int| 0 <= i < j < s.len() ==> text_le(#[trigger] s[i], #[trigger] s[j])
}

/// Sorts texts in ascending order.
pub fn sort_texts(v: Vec<String>) -> (r: Vec<String>)
    ensures
        ascending(text::texts(r@)),
        text::texts(r@).to_multiset() == text::texts(v@).to_multiset(),
        r@.len() == v@.len(),
{
    let mut rest = v;
    let ghost all = text::texts(v@);
    let mut out: Vec<String> = Vec::new();
    proof {
        assert(text::texts(out@) =~= Seq::empty());
        text::texts(out@).to_multiset_ensures();
        all.to_multiset_ensures();
        assert(text::texts(out@).to_multiset() =~= vstd::multiset::Multiset::empty());
        assert(all.to_multiset() =~= text::texts(out@).to_multiset().add(text::texts(rest@).to_multiset()));
    }
    while rest.len() > 0
        invariant
            ascending(text::texts(out@)),
            out@.len() + rest@.len() == v@.len(),
            all == text::texts(v@),
            all.to_multiset() == text::texts(out@).to_multiset().add(
                text::texts(rest@).to_multiset(),
            ),
        decreases rest@.len(),
    {
        let ghost before = text::texts(rest@);
        let ghost done = text::texts(out@);
        let x = rest.pop().unwrap();
        proof {
            assert(text::texts(rest@) =~= before.drop_last());
            assert(before =~= before.drop_last().push(x@));
            before.drop_last().to_multiset_ensures();
        }
        let mut i: usize = 0;
        while i < out.len() && le(out[i].as_str(), x.as_str())
            invariant
                i <= out@.len(),
                done == text::texts(out@),
                forall|k: int| 0 <= k < i ==> text_le(#[trigger] done[k], x@),
            decreases out@.len() - i,
        {
            assert(done[i as int] == out@[i as int]@);
            i = i + 1;
        }
        proof {
            assert forall|k: int| i <= k < done.len() implies text_le(x@, #[trigger] done[k]) by {
                assert(done[i as int] == out@[i as int]@);
                lemma_text_le_total(x@, done[i as int]);
                if k > i {
                    lemma_text_le_transitive(x@, done[i as int], done[k]);
                }
            }
        }
        out.insert(i, x);
        proof {
            let now = text::texts(out@);
            assert(now =~= done.insert(i as int, x@));
            vstd::seq_lib::to_multiset_insert(done, i as int, x@);
            assert forall|a: int, b: int| 0 <= a < b < now.len() implies text_le(
                #[trigger] now[a],
                #[trigger] now[b],
            ) by {
                if a < i && b < i {
                    assert(now[a] == done[a] && now[b] == done[b]);
                } else if a < i && b == i {
                    assert(now[a] == done[a]);
                } else if a < i {
                    assert(now[a] == done[a] && now[b] == done[b - 1]);
                } else if a == i {
                    assert(now[b] == done[b - 1]);
                } else {
                    assert(now[a] == done[a - 1] && now[b] == done[b - 1]);
                }
            }
            assert(now.to_multiset() =~= done.to_multiset().insert(x@));
            assert(done.to_multiset().add(before.drop_last().to_multiset().insert(x@))
                =~= done.to_multiset().insert(x@).add(before.drop_last().to_multiset()));
        }
    }
    proof {
        assert(text::texts(rest@) =~= Seq::empty());
        text::texts(rest@).to_multiset_ensures();
        assert(text::texts(rest@).to_multiset() =~= vstd::multiset::Multiset::empty());
        assert(all.to_multiset() =~= text::texts(out@).to_multiset());
    }
    out
}

/// Texts that continue texts of the same length are in the order of these, or, where these are the
/// same, in the order of what follows.
pub proof fn lemma_text_le_continued(a: Seq<char>, b: Seq<char>, x: Seq<char>, y: Seq<char>)
    requires
        a.len() == b.len(),
    ensures
        text_le(a + x, b + y) == (if a == b {
            text_le(x, y)
        } else {
            text_le(a, b)
        }),
    decreases a.len(),
{
    if a.len() == 0 {
        assert(a =~= b);
        assert(a + x =~= x);
        assert(b + y =~= y);
    } else {
        let c = a.drop_first();
        let d = b.drop_first();
        assert((a + x).drop_first() =~= c + x);
        assert((b + y).drop_first() =~= d + y);
        assert(a =~= seq![a[0]] + c);
        assert(b =~= seq![b[0]] + d);
        lemma_text_le_continued(c, d, x, y);
    }
}

proof fn lemma_digits_in_order(n: nat, k: nat)
    requires
        n <= k < 10,
    ensures
        text_le(seq![text::digit(n)], seq![text::digit(k)]),
{
    let a = seq![text::digit(n)];
    let b = seq![text::digit(k)];
    assert(text::digit(n) <= text::digit(k));
    assert(a[0] == text::digit(n) && b[0] == text::digit(k));
    assert(text_le(a.drop_first(), b.drop_first()));
}

/// Numbers that are written with one width are in the order of their notations.
pub proof fn lemma_padded_in_order(n: nat, k: nat, width: nat)
    requires
        width >= 1,
        n <= k < text::ten_to(width),
    ensures
        text_le(text::padded(n, width), text::padded(k, width)),
        text::padded(n, width) == text::padded(k, width) <==> n == k,
    decreases width,
{
    text::lemma_padded_reads_back(n, width);
    text::lemma_padded_reads_back(k, width);
    let a = text::padded(n, width);
    let b = text::padded(k, width);
    if width == 1 {
        assert(text::ten_to(0) == 1);
        assert(a =~= seq![text::digit(n)]);
        assert(b =~= seq![text::digit(k)]);
        lemma_digits_in_order(n, k);
    } else {
        let w = (width - 1) as nat;
        let c = text::padded(n / 10, w);
        let d = text::padded(k / 10, w);
        text::lemma_padded_step(n, width);
        text::lemma_padded_step(k, width);
        text::lemma_padded_reads_back(n / 10, w);
        text::lemma_padded_reads_back(k / 10, w);
        lemma_padded_in_order(n / 10, k / 10, w);
        let x = seq![text::digit(n % 10)];
        let y = seq![text::digit(k % 10)];
        assert(a =~= c + x);
        assert(b =~= d + y);
        lemma_text_le_continued(c, d, x, y);
        if n / 10 == k / 10 {
            lemma_digits_in_order(n % 10, k % 10);
        }
    }
}

} // verus!
