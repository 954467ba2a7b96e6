//! Article storage: the capability set a backing store must offer, its
//! sequence model, and the in-memory reference adapter.
use vstd::prelude::*;

use crate::article::{id_eq, Article, ArticleId};

verus! {

/// Whether some stored article carries the given id.
pub open spec fn contains_id(s: Seq<Article>, id: ArticleId) -> bool {
    exists|i: int| 0 <= i < s.len() && id_eq(s[i].id, id)
}

/// No two stored articles carry the same id.
pub open spec fn distinct_ids(s: Seq<Article>) -> bool {
    forall|i: int, j: int| 0 <= i < j < s.len() ==> !id_eq(s[i].id, s[j].id)
}

/// The first stored article with the given id, if any.
pub open spec fn spec_find(s: Seq<Article>, id: ArticleId) -> Option<Article>
    decreases s.len(),
{
    if s.len() == 0 {
        None
    } else if id_eq(s[0].id, id) {
        Some(s[0])
    } else {
        spec_find(s.drop_first(), id)
    }
}

/// What saving does: append the article, unless one with its id is already
/// stored, in which case the store is left as it is.
pub open spec fn spec_save(s: Seq<Article>, a: Article) -> Seq<Article> {
    if contains_id(s, a.id) {
        s
    } else {
        s.push(a)
    }
}

/// What deleting does: remove the first stored article with the given id,
/// or nothing when none carries it.
pub open spec fn spec_delete(s: Seq<Article>, id: ArticleId) -> Seq<Article>
    decreases s.len(),
{
    if s.len() == 0 {
        s
    } else if id_eq(s[0].id, id) {
        s.drop_first()
    } else {
        seq![s[0]] + spec_delete(s.drop_first(), id)
    }
}

/// Capability set a backing store offers to the editorial workflow. The
/// in-memory adapter below is the reference implementation; another backend
/// must keep the same semantics: save never overwrites, delete and lookup
/// of an absent id never fail, iteration order is unspecified.
pub trait ArticleRepository {
    /// Read-only access to the whole collection of articles.
    fn find_all(&self) -> &Vec<Article>;

    /// Mutable access to the whole collection of articles.
    fn find_all_mut(&mut self) -> &mut Vec<Article>;

    /// Returns the article with the given id, or nothing.
    fn find(&self, id: &ArticleId) -> Option<&Article>;

    /// Returns the article with the given id mutably, or nothing.
    fn find_mut(&mut self, id: &ArticleId) -> Option<&mut Article>;

    /// Save a new article; an already-used id leaves the store unchanged.
    fn save(&mut self, article: Article);

    /// Update an existing article: a hook for backends that must flush
    /// in-place mutations explicitly.
    fn update(&mut self, article: &mut Article);

    /// Delete a stored article; an absent id leaves the store unchanged.
    fn delete(&mut self, id: &ArticleId);
}

/// In-memory article repository: the reference adapter.
#[derive(Debug)]
pub struct MemoryArticleRepository {
    articles: Vec<Article>,
}

impl View for MemoryArticleRepository {
    type V = Seq<Article>;

    closed spec fn view(&self) -> Seq<Article> {
        self.articles@
    }
}

impl MemoryArticleRepository {
    /// The store never holds two articles with the same id.
    pub open spec fn wf(&self) -> bool {
        distinct_ids(self@)
    }

    /// Create an empty in-memory article repository.
    pub fn new() -> (r: Self)
        ensures
            r@ =~= Seq::<Article>::empty(),
            r.wf(),
    {
        Self { articles: Vec::new() }
    }

    /// Index of the first stored article with the given id, if any.
    fn index_of(&self, id: &ArticleId) -> (r: Option<usize>)
        ensures
            match r {
                Some(i) => i < self@.len() && id_eq(self@[i as int].id, *id) && forall|k: int|
                    0 <= k < i ==> !id_eq(self@[k].id, *id),
                None => !contains_id(self@, *id),
            },
    {
        let n = self.articles.len();
        let mut i: usize = 0;
        while i < n
            invariant
                i <= n,
                n == self@.len(),
                forall|k: int| 0 <= k < i ==> !id_eq(self@[k].id, *id),
            decreases n - i,
        {
            if self.articles[i].get_id().eq(id) {
                return Some(i);
            }
            i = i + 1;
        }
        None
    }

    pub fn find_all(&self) -> (r: &Vec<Article>)
        ensures
            r@ == self@,
    {
        &self.articles
    }

    pub fn find_all_mut(&mut self) -> (r: &mut Vec<Article>)
        ensures
            r@ == old(self)@,
            final(self)@ == final(r)@,
    {
        &mut self.articles
    }

    pub fn find(&self, id: &ArticleId) -> (r: Option<&Article>)
        ensures
            match r {
                None => spec_find(self@, *id) is None,
                Some(a) => spec_find(self@, *id) == Some(*a),
            },
    {
        proof {
            lemma_find_first_index(self@, *id);
        }
        match self.index_of(id) {
            Some(i) => Some(&self.articles[i]),
            None => {
                proof {
                    lemma_find_absent(self@, *id);
                }
                None
            },
        }
    }

    pub fn find_mut(&mut self, id: &ArticleId) -> (r: Option<&mut Article>)
        ensures
            match r {
                None => spec_find(old(self)@, *id) is None && final(self)@ == old(self)@,
                Some(a) => spec_find(old(self)@, *id) == Some(*a) && exists|i: int|
                    0 <= i < old(self)@.len() && *a == old(self)@[i] && final(self)@ == old(
                        self,
                    )@.update(i, *final(a)),
            },
    {
        proof {
            lemma_find_first_index(self@, *id);
        }
        match self.index_of(id) {
            Some(i) => Some(&mut self.articles[i]),
            None => {
                proof {
                    lemma_find_absent(self@, *id);
                }
                None
            },
        }
    }

    /// Save a new article: inserts only if no article with that id is
    /// already stored; a duplicate id is silently ignored, not an
    /// overwrite and not an error.
    pub fn save(&mut self, article: Article)
        ensures
            final(self)@ == spec_save(old(self)@, article),
            old(self).wf() ==> final(self).wf(),
    {
        let present = self.index_of(&article.id).is_some();
        if !present {
            proof {
                let s = self@;
                assert forall|i: int, j: int|
                    0 <= i < j < s.push(article).len() && distinct_ids(s) implies !id_eq(
                    s.push(article)[i].id,
                    s.push(article)[j].id,
                ) by {
                    if j < s.len() {
                        assert(s.push(article)[i] == s[i] && s.push(article)[j] == s[j]);
                    } else {
                        assert(s.push(article)[j] == article);
                        assert(s.push(article)[i] == s[i]);
                        assert(!id_eq(s[i].id, article.id));
                    }
                }
            }
            self.articles.push(article);
        }
    }

    /// Update an existing article. The in-memory adapter has nothing to
    /// flush: mutation through `find_mut` or `find_all_mut` is already
    /// visible.
    pub fn update(&mut self, article: &mut Article)
        ensures
            final(self)@ == old(self)@,
            *final(article) == *old(article),
    {
    }

    /// Delete the stored article with the given id; an absent id is a
    /// no-op.
    pub fn delete(&mut self, id: &ArticleId)
        ensures
            final(self)@ == spec_delete(old(self)@, *id),
            old(self).wf() ==> final(self).wf(),
    {
        proof {
            lemma_delete_at_first_index(self@, *id);
        }
        match self.index_of(id) {
            Some(i) => {
                proof {
                    let s = self@;
                    let t = s.remove(i as int);
                    assert forall|p: int, q: int|
                        0 <= p < q < t.len() && distinct_ids(s) implies !id_eq(
                        t[p].id,
                        t[q].id,
                    ) by {
                        let p0: int = if p < i { p } else { p + 1 };
                        let q0: int = if q < i { q } else { q + 1 };
                        assert(t[p] == s[p0] && t[q] == s[q0]);
                    }
                }
                self.articles.remove(i);
            },
            None => {
                proof {
                    lemma_delete_absent(self@, *id);
                }
            },
        }
    }
}

impl ArticleRepository for MemoryArticleRepository {
    fn find_all(&self) -> &Vec<Article> {
        MemoryArticleRepository::find_all(self)
    }

    fn find_all_mut(&mut self) -> &mut Vec<Article> {
        MemoryArticleRepository::find_all_mut(self)
    }

    fn find(&self, id: &ArticleId) -> Option<&Article> {
        MemoryArticleRepository::find(self, id)
    }

    fn find_mut(&mut self, id: &ArticleId) -> Option<&mut Article> {
        MemoryArticleRepository::find_mut(self, id)
    }

    fn save(&mut self, article: Article) {
        MemoryArticleRepository::save(self, article)
    }

    fn update(&mut self, article: &mut Article) {
        MemoryArticleRepository::update(self, article)
    }

    fn delete(&mut self, id: &ArticleId) {
        MemoryArticleRepository::delete(self, id)
    }
}

/// An id that no stored article carries is never found.
pub proof fn lemma_find_absent(s: Seq<Article>, id: ArticleId)
    requires
        !contains_id(s, id),
    ensures
        spec_find(s, id) is None,
    decreases s.len(),
{
    if s.len() > 0 {
        assert(!id_eq(s[0].id, id));
        assert forall|i: int| 0 <= i < s.drop_first().len() implies !id_eq(
            s.drop_first()[i].id,
            id,
        ) by {
            assert(s.drop_first()[i] == s[i + 1]);
        }
        lemma_find_absent(s.drop_first(), id);
    }
}

/// When index `i` is the first index whose article carries `id`, the find
/// returns that article.
pub proof fn lemma_find_first_index(s: Seq<Article>, id: ArticleId)
    ensures
        forall|i: int|
            0 <= i < s.len() && id_eq(s[i].id, id) && (forall|k: int|
                0 <= k < i ==> !id_eq(s[k].id, id)) ==> spec_find(s, id) == Some(s[i]),
    decreases s.len(),
{
    if s.len() > 0 {
        lemma_find_first_index(s.drop_first(), id);
        assert forall|i: int|
            0 <= i < s.len() && id_eq(s[i].id, id) && (forall|k: int|
                0 <= k < i ==> !id_eq(s[k].id, id)) implies spec_find(s, id) == Some(s[i]) by {
            if i > 0 {
                assert(!id_eq(s[0].id, id));
                assert(s.drop_first()[i - 1] == s[i]);
                assert forall|k: int| 0 <= k < i - 1 implies !id_eq(
                    s.drop_first()[k].id,
                    id,
                ) by {
                    assert(s.drop_first()[k] == s[k + 1]);
                }
            }
        }
    }
}

/// Deleting an id that no stored article carries leaves the store as it is.
pub proof fn lemma_delete_absent(s: Seq<Article>, id: ArticleId)
    requires
        !contains_id(s, id),
    ensures
        spec_delete(s, id) == s,
    decreases s.len(),
{
    if s.len() > 0 {
        assert(!id_eq(s[0].id, id));
        assert forall|i: int| 0 <= i < s.drop_first().len() implies !id_eq(
            s.drop_first()[i].id,
            id,
        ) by {
            assert(s.drop_first()[i] == s[i + 1]);
        }
        lemma_delete_absent(s.drop_first(), id);
        assert(seq![s[0]] + s.drop_first() =~= s);
    }
}

/// Deleting removes exactly the first article carrying the id.
pub proof fn lemma_delete_at_first_index(s: Seq<Article>, id: ArticleId)
    ensures
        forall|i: int|
            0 <= i < s.len() && id_eq(s[i].id, id) && (forall|k: int|
                0 <= k < i ==> !id_eq(s[k].id, id)) ==> spec_delete(s, id) == s.remove(i),
    decreases s.len(),
{
    if s.len() > 0 {
        lemma_delete_at_first_index(s.drop_first(), id);
        assert forall|i: int|
            0 <= i < s.len() && id_eq(s[i].id, id) && (forall|k: int|
                0 <= k < i ==> !id_eq(s[k].id, id)) implies spec_delete(s, id) == s.remove(i) by {
            if i == 0 {
                assert(s.drop_first() =~= s.remove(0));
            } else {
                assert(!id_eq(s[0].id, id));
                assert(s.drop_first()[i - 1] == s[i]);
                assert forall|k: int| 0 <= k < i - 1 implies !id_eq(
                    s.drop_first()[k].id,
                    id,
                ) by {
                    assert(s.drop_first()[k] == s[k + 1]);
                }
                assert(spec_delete(s.drop_first(), id) == s.drop_first().remove(i - 1));
                assert(seq![s[0]] + s.drop_first().remove(i - 1) =~= s.remove(i));
            }
        }
    }
}

/// Saving twice with the same id keeps the first article: the second save
/// is silently ignored.
pub proof fn lemma_save_same_id_keeps_first(s: Seq<Article>, a: Article, b: Article)
    requires
        id_eq(a.id, b.id),
    ensures
        spec_save(spec_save(s, a), b) == spec_save(s, a),
{
    let s1 = spec_save(s, a);
    if contains_id(s, a.id) {
        assert(contains_id(s1, b.id));
    } else {
        assert(s1 == s.push(a));
        assert(id_eq(s1[s.len() as int].id, b.id));
        assert(contains_id(s1, b.id));
    }
}

/// After saving an article under a fresh id, finding that id returns
/// exactly that article.
pub proof fn lemma_find_after_save(s: Seq<Article>, a: Article)
    requires
        !contains_id(s, a.id),
    ensures
        spec_find(spec_save(s, a), a.id) == Some(a),
    decreases s.len(),
{
    assert(spec_save(s, a) == s.push(a));
    lemma_find_in_push(s, a);
}

proof fn lemma_find_in_push(s: Seq<Article>, a: Article)
    requires
        !contains_id(s, a.id),
    ensures
        spec_find(s.push(a), a.id) == Some(a),
    decreases s.len(),
{
    if s.len() == 0 {
        assert(s.push(a)[0] == a);
        assert(id_eq(a.id, a.id));
    } else {
        assert(s.push(a)[0] == s[0]);
        assert(!id_eq(s[0].id, a.id));
        assert forall|i: int| 0 <= i < s.drop_first().len() implies !id_eq(
            s.drop_first()[i].id,
            a.id,
        ) by {
            assert(s.drop_first()[i] == s[i + 1]);
        }
        lemma_find_in_push(s.drop_first(), a);
        assert(s.push(a).drop_first() =~= s.drop_first().push(a));
    }
}

/// Saving an article and then saving another under the same id leaves
/// exactly the first article stored under it.
pub proof fn lemma_save_save_find(s: Seq<Article>, a: Article, b: Article)
    requires
        id_eq(a.id, b.id),
        !contains_id(s, a.id),
    ensures
        spec_find(spec_save(spec_save(s, a), b), a.id) == Some(a),
{
    lemma_save_same_id_keeps_first(s, a, b);
    lemma_find_after_save(s, a);
}

/// After deleting an id from a well-formed store, finding that id returns
/// nothing.
pub proof fn lemma_find_after_delete(s: Seq<Article>, id: ArticleId)
    requires
        distinct_ids(s),
    ensures
        spec_find(spec_delete(s, id), id) is None,
    decreases s.len(),
{
    if s.len() > 0 {
        let t = s.drop_first();
        assert forall|i: int, j: int| 0 <= i < j < t.len() implies !id_eq(t[i].id, t[j].id) by {
            assert(t[i] == s[i + 1] && t[j] == s[j + 1]);
        }
        if id_eq(s[0].id, id) {
            assert forall|i: int| 0 <= i < t.len() implies !id_eq(t[i].id, id) by {
                assert(t[i] == s[i + 1]);
                assert(!id_eq(s[0].id, s[i + 1].id));
            }
            lemma_find_absent(t, id);
        } else {
            lemma_find_after_delete(t, id);
            let d = spec_delete(t, id);
            assert(spec_delete(s, id) == seq![s[0]] + d);
            assert((seq![s[0]] + d)[0] == s[0]);
            assert((seq![s[0]] + d).drop_first() =~= d);
        }
    }
}

} // verus!
