//! The sort stage: a stable insertion sort of edited articles by
//! publication date, most recent first, specified exactly.
use vstd::prelude::*;

use crate::date::{date_eq, date_le};
use crate::generation::EditedArticle;

verus! {

/// Where an article is placed among already-sorted articles: after every
/// article whose date is no older, so that equal dates keep input order.
pub open spec fn insert_pos(s: Seq<EditedArticle>, x: EditedArticle) -> int
    decreases s.len(),
{
    if s.len() > 0 && date_le(x.published_date, s[0].published_date) {
        1 + insert_pos(s.drop_first(), x)
    } else {
        0
    }
}

/// One stable descending insertion: `x` goes after every article dated no
/// older than it.
pub open spec fn insert_desc(s: Seq<EditedArticle>, x: EditedArticle) -> Seq<EditedArticle>
    decreases s.len(),
{
    if s.len() > 0 && date_le(x.published_date, s[0].published_date) {
        seq![s[0]] + insert_desc(s.drop_first(), x)
    } else {
        seq![x] + s
    }
}

/// The stable sort by publication date, most recent first: articles are
/// inserted one by one, in input order.
pub open spec fn sort_by_date_desc(s: Seq<EditedArticle>) -> Seq<EditedArticle>
    decreases s.len(),
{
    if s.len() == 0 {
        Seq::empty()
    } else {
        insert_desc(sort_by_date_desc(s.drop_last()), s.last())
    }
}

/// Every article is placed no later than any older-dated one: dates never
/// increase along the sorted sequence.
pub open spec fn sorted_desc(s: Seq<EditedArticle>) -> bool {
    forall|i: int, j: int|
        0 <= i < j < s.len() ==> date_le(#[trigger] s[j].published_date, #[trigger] s[i].published_date)
}

/// The subsequence of articles carrying one given date, in order.
pub open spec fn with_date(s: Seq<EditedArticle>, d: crate::date::PublishedDate) -> Seq<
    EditedArticle,
>
    decreases s.len(),
{
    if s.len() == 0 {
        Seq::empty()
    } else if date_eq(s[0].published_date, d) {
        seq![s[0]] + with_date(s.drop_first(), d)
    } else {
        with_date(s.drop_first(), d)
    }
}

/// An insertion is a split of the old sequence around the new article, at
/// `insert_pos`.
pub proof fn lemma_insert_shape(s: Seq<EditedArticle>, x: EditedArticle)
    ensures
        0 <= insert_pos(s, x) <= s.len(),
        insert_desc(s, x) == s.subrange(0, insert_pos(s, x)) + seq![x] + s.skip(insert_pos(s, x)),
        forall|k: int| 0 <= k < insert_pos(s, x) ==> date_le(x.published_date, s[k].published_date),
        insert_pos(s, x) < s.len() ==> !date_le(
            x.published_date,
            s[insert_pos(s, x)].published_date,
        ),
    decreases s.len(),
{
    let p = insert_pos(s, x);
    if s.len() > 0 && date_le(x.published_date, s[0].published_date) {
        let t = s.drop_first();
        lemma_insert_shape(t, x);
        let q = insert_pos(t, x);
        assert forall|k: int| 0 <= k < p implies date_le(
            x.published_date,
            s[k].published_date,
        ) by {
            if k > 0 {
                assert(t[k - 1] == s[k]);
            }
        }
        if p < s.len() {
            assert(t[p - 1] == s[p]);
        }
        assert(seq![s[0]] + (t.subrange(0, q) + seq![x] + t.skip(q)) =~= s.subrange(0, p)
            + seq![x] + s.skip(p));
    } else {
        assert(seq![x] + s =~= s.subrange(0, 0) + seq![x] + s.skip(0));
    }
}

/// The chronological order is total: of two dates, one is no older than
/// the other.
pub proof fn lemma_date_le_total(a: crate::date::PublishedDate, b: crate::date::PublishedDate)
    ensures
        date_le(a, b) || date_le(b, a),
{
}

/// Inserting into a sorted sequence keeps it sorted.
pub proof fn lemma_insert_sorted(s: Seq<EditedArticle>, x: EditedArticle)
    requires
        sorted_desc(s),
    ensures
        sorted_desc(insert_desc(s, x)),
{
    lemma_insert_shape(s, x);
    let p = insert_pos(s, x);
    let r = insert_desc(s, x);
    assert forall|i: int, j: int| 0 <= i < j < r.len() implies date_le(
        r[j].published_date,
        r[i].published_date,
    ) by {
        let oi: int = if i < p {
            i
        } else {
            i - 1
        };
        let oj: int = if j < p {
            j
        } else {
            j - 1
        };
        if i < p {
            assert(r[i] == s[i]);
        } else if i == p {
            assert(r[i] == x);
        } else {
            assert(r[i] == s[i - 1]);
        }
        if j < p {
            assert(r[j] == s[j]);
        } else if j == p {
            assert(r[j] == x);
        } else {
            assert(r[j] == s[j - 1]);
        }
        if i == p {
            // r[i] is x and j > p, so s[j - 1] is at or past the split
            lemma_date_le_total(x.published_date, s[j - 1].published_date);
            if p < j - 1 {
                assert(date_le(s[j - 1].published_date, s[p].published_date));
            }
        } else if j == p {
            // r[j] is x and i < p, so x goes no earlier than s[i]
            assert(date_le(x.published_date, s[i].published_date));
        } else if i < p && j > p {
            assert(date_le(s[oj].published_date, s[oi].published_date));
        } else {
            assert(date_le(s[oj].published_date, s[oi].published_date));
        }
    }
}

/// The sort leaves the sequence sorted by date, most recent first. With
/// stability below, this pins the stage: an article dated after another
/// stands before it, and equal dates keep their input order.
pub proof fn lemma_sort_sorted(s: Seq<EditedArticle>)
    ensures
        sorted_desc(sort_by_date_desc(s)),
    decreases s.len(),
{
    if s.len() > 0 {
        lemma_sort_sorted(s.drop_last());
        lemma_insert_sorted(sort_by_date_desc(s.drop_last()), s.last());
    }
}

/// Restriction to one date distributes over concatenation.
pub proof fn lemma_with_date_concat(
    a: Seq<EditedArticle>,
    b: Seq<EditedArticle>,
    d: crate::date::PublishedDate,
)
    ensures
        with_date(a + b, d) == with_date(a, d) + with_date(b, d),
    decreases a.len(),
{
    if a.len() == 0 {
        assert(a + b =~= b);
        assert(with_date(a, d) + with_date(b, d) =~= with_date(b, d));
    } else {
        assert((a + b)[0] == a[0]);
        assert((a + b).drop_first() =~= a.drop_first() + b);
        lemma_with_date_concat(a.drop_first(), b, d);
        if date_eq(a[0].published_date, d) {
            assert(seq![a[0]] + (with_date(a.drop_first(), d) + with_date(b, d)) =~= (seq![a[0]]
                + with_date(a.drop_first(), d)) + with_date(b, d));
        }
    }
}

/// A sequence without the date restricts to nothing.
pub proof fn lemma_with_date_empty(s: Seq<EditedArticle>, d: crate::date::PublishedDate)
    requires
        forall|k: int| 0 <= k < s.len() ==> !date_eq(#[trigger] s[k].published_date, d),
    ensures
        with_date(s, d) == Seq::<EditedArticle>::empty(),
    decreases s.len(),
{
    if s.len() > 0 {
        assert forall|k: int| 0 <= k < s.drop_first().len() implies !date_eq(
            #[trigger] s.drop_first()[k].published_date,
            d,
        ) by {
            assert(s.drop_first()[k] == s[k + 1]);
        }
        lemma_with_date_empty(s.drop_first(), d);
    }
}

/// A one-article sequence restricts to itself or to nothing.
pub proof fn lemma_with_date_singleton(x: EditedArticle, d: crate::date::PublishedDate)
    ensures
        with_date(seq![x], d) == if date_eq(x.published_date, d) {
            seq![x]
        } else {
            Seq::<EditedArticle>::empty()
        },
{
    let s = seq![x];
    assert(s.drop_first() =~= Seq::<EditedArticle>::empty());
    assert(with_date(Seq::<EditedArticle>::empty(), d) =~= Seq::<EditedArticle>::empty());
    if date_eq(x.published_date, d) {
        assert(with_date(s, d) =~= seq![x]);
    }
}

/// Inserting into a sorted sequence respects each date class: the new
/// article joins the end of its own class and leaves every other class
/// unchanged.
pub proof fn lemma_insert_with_date(
    s: Seq<EditedArticle>,
    x: EditedArticle,
    d: crate::date::PublishedDate,
)
    requires
        sorted_desc(s),
    ensures
        with_date(insert_desc(s, x), d) == if date_eq(x.published_date, d) {
            with_date(s, d) + seq![x]
        } else {
            with_date(s, d)
        },
{
    lemma_insert_shape(s, x);
    let p = insert_pos(s, x);
    let pre = s.subrange(0, p);
    let suf = s.skip(p);
    lemma_with_date_concat(pre + seq![x], suf, d);
    lemma_with_date_concat(pre, seq![x], d);
    lemma_with_date_concat(pre, suf, d);
    assert(pre + suf =~= s);
    if date_eq(x.published_date, d) {
        // every article at or past the split is strictly older than x,
        // so the class of x's date lies wholly in the prefix
        assert forall|k: int| 0 <= k < suf.len() implies !date_eq(
            #[trigger] suf[k].published_date,
            d,
        ) by {
            assert(suf[k] == s[p + k]);
            if p < s.len() {
                lemma_date_le_total(x.published_date, s[p].published_date);
                if k > 0 {
                    assert(date_le(s[p + k].published_date, s[p].published_date));
                }
            }
        }
        lemma_with_date_empty(suf, d);
        lemma_with_date_singleton(x, d);
        assert(with_date(insert_desc(s, x), d) =~= with_date(s, d) + seq![x]);
    } else {
        lemma_with_date_singleton(x, d);
        assert(with_date(insert_desc(s, x), d) =~= with_date(s, d));
    }
}

/// Stability of the sort: for any one date, the articles carrying it come
/// out in exactly their input order.
pub proof fn lemma_sort_stable(s: Seq<EditedArticle>, d: crate::date::PublishedDate)
    ensures
        with_date(sort_by_date_desc(s), d) == with_date(s, d),
    decreases s.len(),
{
    if s.len() > 0 {
        let t = s.drop_last();
        lemma_sort_stable(t, d);
        lemma_sort_sorted(t);
        lemma_insert_with_date(sort_by_date_desc(t), s.last(), d);
        assert(t + seq![s.last()] =~= s);
        lemma_with_date_concat(t, seq![s.last()], d);
        lemma_with_date_singleton(s.last(), d);
        if !date_eq(s.last().published_date, d) {
            assert(with_date(t, d) + Seq::<EditedArticle>::empty() =~= with_date(t, d));
        }
    }
}

/// Sorts the articles by publication date, most recent first; stable, so
/// articles with equal dates keep their input order.
pub fn sort_articles_by_most_recent_publication(articles: Vec<EditedArticle>) -> (r: Vec<
    EditedArticle,
>)
    ensures
        r@ == sort_by_date_desc(articles@),
{
    let ghost s0 = articles@;
    let mut v = articles;
    let n = v.len();
    if n == 0 {
        proof {
            assert(s0.len() == 0);
        }
        return v;
    }
    let mut i: usize = 1;
    proof {
        assert(v@.subrange(0, 1) =~= seq![s0[0]]);
        assert(s0.subrange(0, 1) =~= seq![s0[0]]);
        assert(sort_by_date_desc(s0.subrange(0, 1)) == insert_desc(
            sort_by_date_desc(s0.subrange(0, 1).drop_last()),
            s0[0],
        ));
        assert(s0.subrange(0, 1).drop_last() =~= Seq::<EditedArticle>::empty());
        assert(v@.skip(1) =~= s0.skip(1));
    }
    while i < n
        invariant
            1 <= i <= n,
            n == v@.len(),
            n == s0.len(),
            v@.subrange(0, i as int) == sort_by_date_desc(s0.subrange(0, i as int)),
            v@.skip(i as int) == s0.skip(i as int),
        decreases n - i,
    {
        let ghost prefix = v@.subrange(0, i as int);
        let ghost x = v@[i as int];
        proof {
            assert(v@.skip(i as int)[0] == v@[i as int]);
            assert(s0.skip(i as int)[0] == s0[i as int]);
            assert(x == s0[i as int]);
        }
        // find where to place v[i] in the sorted prefix: after every
        // article dated no older than it
        let mut j: usize = 0;
        while j < i && v[i].published_date().le(v[j].published_date())
            invariant
                0 <= j <= i < n,
                n == v@.len(),
                v@.subrange(0, i as int) == prefix,
                v@[i as int] == x,
                forall|k: int|
                    0 <= k < j ==> date_le(x.published_date, #[trigger] prefix[k].published_date),
            decreases i - j,
        {
            proof {
                assert(prefix[j as int] == v@[j as int]);
            }
            j = j + 1;
        }
        proof {
            assert(j == i || !date_le(x.published_date, v@[j as int].published_date));
            if j < i {
                assert(prefix[j as int] == v@[j as int]);
            }
            lemma_insert_shape(prefix, x);
            let p = insert_pos(prefix, x);
            // j is exactly the split point of the specification
            if p < j {
                assert(date_le(x.published_date, prefix[p].published_date));
                assert(!date_le(x.published_date, prefix[p].published_date));
            }
            if j < p {
                assert(date_le(x.published_date, prefix[j as int].published_date));
                assert(!date_le(x.published_date, prefix[j as int].published_date));
            }
            assert(p == j);
        }
        let ghost before_remove = v@;
        let moved = v.remove(i);
        let ghost after_remove = v@;
        v.insert(j, moved);
        proof {
            let p = insert_pos(prefix, x) as int;
            assert(before_remove =~= prefix + s0.skip(i as int));
            assert(after_remove =~= prefix + s0.skip(i as int + 1)) by {
                assert(after_remove == before_remove.remove(i as int));
                assert(s0.skip(i as int).drop_first() =~= s0.skip(i as int + 1));
                assert(before_remove.remove(i as int) =~= prefix + s0.skip(i as int).drop_first());
            }
            assert(v@ == after_remove.insert(j as int, x));
            assert(v@ =~= prefix.subrange(0, p) + seq![x] + prefix.skip(p) + s0.skip(i as int + 1));
            assert(v@.subrange(0, i as int + 1) =~= prefix.subrange(0, p) + seq![x] + prefix.skip(
                p,
            ));
            assert(v@.subrange(0, i as int + 1) == insert_desc(prefix, x));
            assert(s0.subrange(0, i as int + 1).drop_last() =~= s0.subrange(0, i as int));
            assert(s0.subrange(0, i as int + 1).last() == x);
            assert(sort_by_date_desc(s0.subrange(0, i as int + 1)) == insert_desc(prefix, x));
            assert(v@.skip(i as int + 1) =~= s0.skip(i as int + 1));
        }
        i = i + 1;
    }
    proof {
        assert(s0.subrange(0, n as int) =~= s0);
        assert(v@.subrange(0, n as int) =~= v@);
    }
    v
}

} // verus!
