//! The derived-page stages: grouping the generated articles by
//! sub-category, category and tag, paginating each group, and paginating
//! the home listing. Grouping keys come out in lexicographic order so that
//! repeated builds from the same input are identical.
use vstd::prelude::*;

use crate::generation::{
    events_view, keys_of_generated, lang_code, lemma_events_view_push, spec_keys_dir, ArticleKeys,
    EventView, GenerateWebsiteEvent, GeneratedArticle,
};
use crate::text::{
    dec_string, lemma_lex_asymmetric, lemma_lex_irreflexive, lemma_lex_total, lex_lt, spec_digits,
    str_lex_lt, string_eq,
};
use crate::values::HtmlPagePath;

verus! {

/// How many articles one listing page holds.
pub const ARTICLES_PER_PAGE: usize = 10;

/// Number of pages a group of `n` articles fills: none for an empty group,
/// else one page per started block of `ARTICLES_PER_PAGE`.
pub open spec fn page_count(n: int) -> int {
    n / (ARTICLES_PER_PAGE as int) + if n % (ARTICLES_PER_PAGE as int) == 0 {
        0int
    } else {
        1int
    }
}

/// Which family of listing pages a paginated group belongs to.
#[derive(Clone, Copy, Debug, PartialEq, Eq, Structural)]
pub enum PageKind {
    Category,
    SubCategory,
    Tag,
    Home,
}

/// The path of one listing page: the group's key, then the page number.
pub open spec fn spec_page_path(key: Seq<char>, i: int) -> Seq<Seq<char>> {
    seq![key, spec_digits(i as nat)]
}

/// The event announcing one listing page of the given family.
pub open spec fn page_event_view(kind: PageKind, path: Seq<Seq<char>>) -> EventView {
    match kind {
        PageKind::Category => EventView::CategoryPage(path),
        PageKind::SubCategory => EventView::SubCategoryPage(path),
        PageKind::Tag => EventView::TagPage(path),
        PageKind::Home => EventView::HomePage(path),
    }
}

/// The events of one group: its pages in ascending page order, starting
/// at zero.
pub open spec fn spec_page_events(kind: PageKind, key: Seq<char>, count: int) -> Seq<EventView> {
    Seq::new(page_count(count) as nat, |i: int| page_event_view(kind, spec_page_path(key, i)))
}

/// Whether one article belongs to the group named `key` of the given
/// family; the home listing takes every article.
pub open spec fn key_matches(kind: PageKind, k: ArticleKeys, key: Seq<char>) -> bool {
    match kind {
        PageKind::Category => k.category == key,
        PageKind::SubCategory => k.sub_category == Some(key),
        PageKind::Tag => k.tags.contains(key),
        PageKind::Home => true,
    }
}

/// How many of the articles belong to the group named `key`.
pub open spec fn count_matching(kind: PageKind, ks: Seq<ArticleKeys>, key: Seq<char>) -> int
    decreases ks.len(),
{
    if ks.len() == 0 {
        0
    } else {
        count_matching(kind, ks.drop_last(), key) + if key_matches(kind, ks.last(), key) {
            1int
        } else {
            0int
        }
    }
}

/// Where a new key goes among keys kept sorted: after every key below it.
pub open spec fn key_pos(ks: Seq<Seq<char>>, k: Seq<char>) -> int
    decreases ks.len(),
{
    if ks.len() > 0 && lex_lt(ks[0], k) {
        1 + key_pos(ks.drop_first(), k)
    } else {
        0
    }
}

/// Sorted-unique insertion of a grouping key: keys stay in lexicographic
/// order, and a key already present is not repeated.
pub open spec fn insert_key(ks: Seq<Seq<char>>, k: Seq<char>) -> Seq<Seq<char>>
    decreases ks.len(),
{
    if ks.len() == 0 {
        seq![k]
    } else if k == ks[0] {
        ks
    } else if lex_lt(k, ks[0]) {
        seq![k] + ks
    } else {
        seq![ks[0]] + insert_key(ks.drop_first(), k)
    }
}

/// An insertion either finds the key at its position, or splits the keys
/// there.
pub proof fn lemma_insert_key_shape(ks: Seq<Seq<char>>, k: Seq<char>)
    ensures
        0 <= key_pos(ks, k) <= ks.len(),
        forall|i: int| 0 <= i < key_pos(ks, k) ==> lex_lt(#[trigger] ks[i], k),
        key_pos(ks, k) < ks.len() ==> !lex_lt(ks[key_pos(ks, k)], k),
        insert_key(ks, k) == if key_pos(ks, k) < ks.len() && ks[key_pos(ks, k)] == k {
            ks
        } else {
            ks.subrange(0, key_pos(ks, k)) + seq![k] + ks.skip(key_pos(ks, k))
        },
    decreases ks.len(),
{
    let p = key_pos(ks, k);
    if ks.len() > 0 && lex_lt(ks[0], k) {
        lemma_lex_irreflexive(k);
        lemma_lex_asymmetric(k, ks[0]);
        assert(k != ks[0]);
        assert(!lex_lt(k, ks[0]));
        let t = ks.drop_first();
        lemma_insert_key_shape(t, k);
        let q = key_pos(t, k);
        assert forall|i: int| 0 <= i < p implies lex_lt(#[trigger] ks[i], k) by {
            if i > 0 {
                assert(t[i - 1] == ks[i]);
            }
        }
        if p < ks.len() {
            assert(t[p - 1] == ks[p]);
        }
        if q < t.len() && t[q] == k {
            assert(ks[p] == k);
            assert(seq![ks[0]] + t =~= ks);
        } else {
            assert(seq![ks[0]] + (t.subrange(0, q) + seq![k] + t.skip(q)) =~= ks.subrange(0, p)
                + seq![k] + ks.skip(p));
        }
    } else if ks.len() > 0 && k == ks[0] {
        lemma_lex_irreflexive(k);
    } else {
        if ks.len() > 0 {
            lemma_lex_total(k, ks[0]);
        }
        assert(seq![k] + ks =~= ks.subrange(0, 0) + seq![k] + ks.skip(0));
    }
}

/// Folding a run of tag keys in, left to right.
pub open spec fn insert_tags(ks: Seq<Seq<char>>, tags: Seq<Seq<char>>) -> Seq<Seq<char>>
    decreases tags.len(),
{
    if tags.len() == 0 {
        ks
    } else {
        insert_tags(insert_key(ks, tags[0]), tags.drop_first())
    }
}

/// Folding one more tag at the end is one more insertion.
pub proof fn lemma_insert_tags_snoc(ks: Seq<Seq<char>>, tags: Seq<Seq<char>>, x: Seq<char>)
    ensures
        insert_tags(ks, tags.push(x)) == insert_key(insert_tags(ks, tags), x),
    decreases tags.len(),
{
    if tags.len() == 0 {
        assert(tags.push(x)[0] == x);
        assert(tags.push(x).drop_first() =~= Seq::<Seq<char>>::empty());
        assert(insert_tags(insert_key(ks, x), tags.push(x).drop_first()) == insert_key(ks, x));
    } else {
        assert(tags.push(x)[0] == tags[0]);
        assert(tags.push(x).drop_first() =~= tags.drop_first().push(x));
        lemma_insert_tags_snoc(insert_key(ks, tags[0]), tags.drop_first(), x);
    }
}

/// The grouping keys the given family draws from one article.
pub open spec fn insert_article_keys(kind: PageKind, ks: Seq<Seq<char>>, a: ArticleKeys) -> Seq<
    Seq<char>,
> {
    match kind {
        PageKind::Category => insert_key(ks, a.category),
        PageKind::SubCategory => match a.sub_category {
            None => ks,
            Some(s) => insert_key(ks, s),
        },
        PageKind::Tag => insert_tags(ks, a.tags),
        PageKind::Home => ks,
    }
}

/// All grouping keys of the given family, collected over the articles in
/// order; sorted and without repetition by construction.
pub open spec fn keys_fold(kind: PageKind, ks: Seq<ArticleKeys>) -> Seq<Seq<char>>
    decreases ks.len(),
{
    if ks.len() == 0 {
        Seq::empty()
    } else {
        insert_article_keys(kind, keys_fold(kind, ks.drop_last()), ks.last())
    }
}

/// The pages of each key's group, key by key in the given order.
pub open spec fn keyed_page_events(
    kind: PageKind,
    keys: Seq<Seq<char>>,
    ks: Seq<ArticleKeys>,
) -> Seq<EventView>
    decreases keys.len(),
{
    if keys.len() == 0 {
        Seq::empty()
    } else {
        spec_page_events(kind, keys[0], count_matching(kind, ks, keys[0])) + keyed_page_events(
            kind,
            keys.drop_first(),
            ks,
        )
    }
}

/// One more key at the end contributes its pages at the end.
pub proof fn lemma_keyed_page_events_snoc(
    kind: PageKind,
    keys: Seq<Seq<char>>,
    k: Seq<char>,
    ks: Seq<ArticleKeys>,
)
    ensures
        keyed_page_events(kind, keys.push(k), ks) == keyed_page_events(kind, keys, ks)
            + spec_page_events(kind, k, count_matching(kind, ks, k)),
    decreases keys.len(),
{
    let pages = spec_page_events(kind, k, count_matching(kind, ks, k));
    if keys.len() == 0 {
        assert(keys.push(k)[0] == k);
        assert(keys.push(k).drop_first() =~= Seq::<Seq<char>>::empty());
        assert(keyed_page_events(kind, Seq::<Seq<char>>::empty(), ks) =~= Seq::<
            EventView,
        >::empty());
        assert(keyed_page_events(kind, keys.push(k), ks) =~= pages);
        assert(keyed_page_events(kind, keys, ks) + pages =~= pages);
    } else {
        assert(keys.push(k)[0] == keys[0]);
        assert(keys.push(k).drop_first() =~= keys.drop_first().push(k));
        lemma_keyed_page_events_snoc(kind, keys.drop_first(), k, ks);
        let head = spec_page_events(kind, keys[0], count_matching(kind, ks, keys[0]));
        assert(head + (keyed_page_events(kind, keys.drop_first(), ks) + pages) =~= (head
            + keyed_page_events(kind, keys.drop_first(), ks)) + pages);
    }
}

/// The grouping keys the page stages read of each article, in order.
pub open spec fn gen_keys(gs: Seq<GeneratedArticle>) -> Seq<ArticleKeys> {
    gs.map_values(|g: GeneratedArticle| keys_of_generated(g))
}

/// The event of one listing page of the given family.
fn make_page_event(kind: PageKind, path: HtmlPagePath) -> (e: GenerateWebsiteEvent)
    ensures
        e@ == page_event_view(kind, path@),
{
    match kind {
        PageKind::Category => GenerateWebsiteEvent::CategoryHtmlPageGenerated(path),
        PageKind::SubCategory => GenerateWebsiteEvent::SubCategoryHtmlPageGenerated(path),
        PageKind::Tag => GenerateWebsiteEvent::TagHtmlPageGenerated(path),
        PageKind::Home => GenerateWebsiteEvent::HomeHtmlPageGenerated(path),
    }
}

/// Decides whether one generated article belongs to the group named `key`.
fn article_matches(kind: PageKind, article: &GeneratedArticle, key: &String) -> (r: bool)
    ensures
        r == key_matches(kind, keys_of_generated(*article), key@),
{
    match kind {
        PageKind::Category => string_eq(&article.category.0, key),
        PageKind::SubCategory => match &article.sub_category {
            None => false,
            Some(s) => string_eq(&s.0, key),
        },
        PageKind::Tag => {
            let ghost tags = keys_of_generated(*article).tags;
            let n = article.tags.0.len();
            let mut i: usize = 0;
            while i < n
                invariant
                    kind == PageKind::Tag,
                    i <= n,
                    n == article.tags.0.len(),
                    tags == keys_of_generated(*article).tags,
                    tags.len() == n,
                    forall|j: int| 0 <= j < i ==> tags[j] != key@,
                decreases n - i,
            {
                if string_eq(&article.tags.0[i].0, key) {
                    proof {
                        assert(tags[i as int] == article.tags.0[i as int].0@);
                        assert(tags.contains(key@));
                    }
                    return true;
                }
                proof {
                    assert(tags[i as int] == article.tags.0[i as int].0@);
                }
                i = i + 1;
            }
            proof {
                assert(!tags.contains(key@));
            }
            false
        },
        PageKind::Home => true,
    }
}

/// Counts the articles of the group named `key`.
fn count_group(kind: PageKind, articles: &Vec<GeneratedArticle>, key: &String) -> (c: usize)
    ensures
        c == count_matching(kind, gen_keys(articles@), key@),
{
    let ghost ks = gen_keys(articles@);
    let n = articles.len();
    let mut c: usize = 0;
    let mut i: usize = 0;
    while i < n
        invariant
            i <= n,
            n == articles@.len(),
            ks == gen_keys(articles@),
            ks.len() == n,
            c <= i,
            c == count_matching(kind, ks.subrange(0, i as int), key@),
        decreases n - i,
    {
        proof {
            assert(ks.subrange(0, i as int + 1).drop_last() =~= ks.subrange(0, i as int));
            assert(ks.subrange(0, i as int + 1).last() == ks[i as int]);
            assert(ks[i as int] == keys_of_generated(articles@[i as int]));
        }
        if article_matches(kind, &articles[i], key) {
            c = c + 1;
        }
        i = i + 1;
    }
    proof {
        assert(ks.subrange(0, n as int) =~= ks);
    }
    c
}

/// Inserts a grouping key, keeping the keys sorted and without repetition.
fn insert_key_sorted(keys: &mut Vec<String>, k: String)
    ensures
        final(keys).deep_view() == insert_key(old(keys).deep_view(), k@),
{
    let ghost ks = keys.deep_view();
    proof {
        lemma_insert_key_shape(ks, k@);
    }
    let n = keys.len();
    let mut j: usize = 0;
    while j < n && str_lex_lt(keys[j].as_str(), k.as_str())
        invariant
            j <= n,
            n == keys@.len(),
            ks == keys.deep_view(),
            ks.len() == n,
            forall|i: int| 0 <= i < j ==> lex_lt(#[trigger] ks[i], k@),
        decreases n - j,
    {
        proof {
            assert(ks[j as int] == keys@[j as int]@);
        }
        j = j + 1;
    }
    proof {
        let p = key_pos(ks, k@);
        if j < n {
            assert(ks[j as int] == keys@[j as int]@);
            assert(!lex_lt(ks[j as int], k@));
        }
        if p < j {
            assert(lex_lt(ks[p], k@));
        }
        if (j as int) < p {
            assert(lex_lt(ks[j as int], k@));
        }
        assert(p == j);
    }
    if j < n && string_eq(&keys[j], &k) {
        proof {
            assert(ks[j as int] == keys@[j as int]@);
            assert(final(keys).deep_view() =~= ks);
        }
        return ;
    }
    keys.insert(j, k);
    proof {
        let p = key_pos(ks, k@);
        if p < ks.len() {
            assert(ks[p] == old(keys)@[p]@);
            assert(ks[p] != k@);
        }
        assert(keys.deep_view() =~= ks.subrange(0, p) + seq![k@] + ks.skip(p));
    }
}

/// Collects the grouping keys of the given family over all articles, in
/// lexicographic order, each once.
fn collect_keys(kind: PageKind, articles: &Vec<GeneratedArticle>) -> (r: Vec<String>)
    ensures
        r.deep_view() == keys_fold(kind, gen_keys(articles@)),
{
    let ghost ks = gen_keys(articles@);
    let mut keys: Vec<String> = Vec::new();
    let n = articles.len();
    let mut i: usize = 0;
    proof {
        assert(keys.deep_view() =~= Seq::<Seq<char>>::empty());
        assert(ks.subrange(0, 0) =~= Seq::<ArticleKeys>::empty());
    }
    while i < n
        invariant
            i <= n,
            n == articles@.len(),
            ks == gen_keys(articles@),
            ks.len() == n,
            keys.deep_view() == keys_fold(kind, ks.subrange(0, i as int)),
        decreases n - i,
    {
        proof {
            assert(ks.subrange(0, i as int + 1).drop_last() =~= ks.subrange(0, i as int));
            assert(ks.subrange(0, i as int + 1).last() == ks[i as int]);
            assert(ks[i as int] == keys_of_generated(articles@[i as int]));
        }
        let article = &articles[i];
        match kind {
            PageKind::Category => {
                insert_key_sorted(&mut keys, article.category.0.clone());
            },
            PageKind::SubCategory => {
                match &article.sub_category {
                    None => {},
                    Some(s) => {
                        insert_key_sorted(&mut keys, s.0.clone());
                    },
                }
            },
            PageKind::Tag => {
                let ghost tags = keys_of_generated(*article).tags;
                let ghost acc0 = keys.deep_view();
                let m = article.tags.0.len();
                let mut t: usize = 0;
                proof {
                    assert(tags.subrange(0, 0) =~= Seq::<Seq<char>>::empty());
                }
                while t < m
                    invariant
                        t <= m,
                        m == article.tags.0.len(),
                        article == &articles[i as int],
                        i < n == articles@.len(),
                        tags == keys_of_generated(*article).tags,
                        tags.len() == m,
                        keys.deep_view() == insert_tags(acc0, tags.subrange(0, t as int)),
                    decreases m - t,
                {
                    proof {
                        assert(tags.subrange(0, t as int + 1) =~= tags.subrange(
                            0,
                            t as int,
                        ).push(tags[t as int]));
                        lemma_insert_tags_snoc(acc0, tags.subrange(0, t as int), tags[t as int]);
                        assert(tags[t as int] == article.tags.0[t as int].0@);
                    }
                    insert_key_sorted(&mut keys, article.tags.0[t].0.clone());
                    t = t + 1;
                }
                proof {
                    assert(tags.subrange(0, m as int) =~= tags);
                }
            },
            PageKind::Home => {},
        }
        i = i + 1;
    }
    proof {
        assert(ks.subrange(0, n as int) =~= ks);
    }
    keys
}

/// Appends the page events of one group: one event per page, page numbers
/// ascending from zero, each path the group's key then the page number.
fn push_page_events(
    kind: PageKind,
    key: &String,
    count: usize,
    events: &mut Vec<GenerateWebsiteEvent>,
)
    ensures
        events_view(final(events)@) == events_view(old(events)@) + spec_page_events(
            kind,
            key@,
            count as int,
        ),
{
    let ghost base = events_view(old(events)@);
    let ghost pages_spec = spec_page_events(kind, key@, count as int);
    let pages = count / ARTICLES_PER_PAGE + if count % ARTICLES_PER_PAGE == 0 {
        0
    } else {
        1
    };
    proof {
        assert(pages as int == page_count(count as int));
    }
    let mut p: usize = 0;
    proof {
        assert(base + pages_spec.subrange(0, 0) =~= base);
    }
    while p < pages
        invariant
            p <= pages,
            pages as int == page_count(count as int),
            pages_spec == spec_page_events(kind, key@, count as int),
            pages_spec.len() == pages,
            base == events_view(old(events)@),
            events_view(events@) == base + pages_spec.subrange(0, p as int),
        decreases pages - p,
    {
        let mut segments: Vec<String> = Vec::new();
        segments.push(key.clone());
        segments.push(dec_string(p as u64));
        proof {
            assert(segments.deep_view() =~= spec_page_path(key@, p as int));
        }
        let event = make_page_event(kind, HtmlPagePath::new(segments));
        proof {
            assert(event@ == pages_spec[p as int]);
        }
        let ghost before = events@;
        events.push(event);
        proof {
            lemma_events_view_push(before, event);
            assert((base + pages_spec.subrange(0, p as int)).push(pages_spec[p as int]) =~= base
                + pages_spec.subrange(0, p as int + 1));
        }
        p = p + 1;
    }
    proof {
        assert(pages_spec.subrange(0, pages as int) =~= pages_spec);
    }
}

/// The pages of every group of the given family, groups in key order.
fn generate_keyed_pages(kind: PageKind, articles: &Vec<GeneratedArticle>) -> (r: Vec<
    GenerateWebsiteEvent,
>)
    ensures
        events_view(r@) == keyed_page_events(
            kind,
            keys_fold(kind, gen_keys(articles@)),
            gen_keys(articles@),
        ),
{
    let ghost ks = gen_keys(articles@);
    let keys = collect_keys(kind, articles);
    let ghost all_keys = keys.deep_view();
    let mut events: Vec<GenerateWebsiteEvent> = Vec::new();
    let n = keys.len();
    let mut i: usize = 0;
    proof {
        assert(events_view(events@) =~= Seq::<EventView>::empty());
        assert(all_keys.subrange(0, 0) =~= Seq::<Seq<char>>::empty());
        assert(keyed_page_events(kind, all_keys.subrange(0, 0), ks) =~= Seq::<EventView>::empty());
    }
    while i < n
        invariant
            i <= n,
            n == keys@.len(),
            ks == gen_keys(articles@),
            all_keys == keys.deep_view(),
            all_keys.len() == n,
            events_view(events@) == keyed_page_events(kind, all_keys.subrange(0, i as int), ks),
        decreases n - i,
    {
        proof {
            assert(all_keys[i as int] == keys@[i as int]@);
            assert(all_keys.subrange(0, i as int + 1) =~= all_keys.subrange(0, i as int).push(
                all_keys[i as int],
            ));
            lemma_keyed_page_events_snoc(kind, all_keys.subrange(0, i as int), all_keys[i as int], ks);
        }
        let count = count_group(kind, articles, &keys[i]);
        push_page_events(kind, &keys[i], count, &mut events);
        i = i + 1;
    }
    proof {
        assert(all_keys.subrange(0, n as int) =~= all_keys);
    }
    events
}

/// The events of the article pages themselves, one per article, in the
/// articles' (sorted) order.
pub open spec fn article_events(ks: Seq<ArticleKeys>) -> Seq<EventView> {
    Seq::new(ks.len(), |i: int| EventView::ArticlePage(spec_keys_dir(ks[i])))
}

/// The sub-category listing pages: one paginated group per distinct
/// sub-category, in lexicographic key order.
pub open spec fn sub_category_events(ks: Seq<ArticleKeys>) -> Seq<EventView> {
    keyed_page_events(PageKind::SubCategory, keys_fold(PageKind::SubCategory, ks), ks)
}

/// The category listing pages, per distinct category in lexicographic key
/// order.
pub open spec fn category_events(ks: Seq<ArticleKeys>) -> Seq<EventView> {
    keyed_page_events(PageKind::Category, keys_fold(PageKind::Category, ks), ks)
}

/// The tag listing pages, per distinct tag in lexicographic key order.
pub open spec fn tag_events(ks: Seq<ArticleKeys>) -> Seq<EventView> {
    keyed_page_events(PageKind::Tag, keys_fold(PageKind::Tag, ks), ks)
}

/// The home listing pages, aggregating all articles.
pub open spec fn home_events(ks: Seq<ArticleKeys>) -> Seq<EventView> {
    spec_page_events(PageKind::Home, "home"@, ks.len() as int)
}

/// Every event of one build, in the fixed emission order: article pages
/// first, then sub-category, category and tag listings, then the home
/// listing.
pub open spec fn spec_website_events(ks: Seq<ArticleKeys>) -> Seq<EventView> {
    article_events(ks) + sub_category_events(ks) + category_events(ks) + tag_events(ks)
        + home_events(ks)
}

/// One page event per article, in order.
pub fn generate_article_page_events(articles: &Vec<GeneratedArticle>) -> (r: Vec<
    GenerateWebsiteEvent,
>)
    ensures
        events_view(r@) == article_events(gen_keys(articles@)),
{
    let ghost ks = gen_keys(articles@);
    let mut events: Vec<GenerateWebsiteEvent> = Vec::new();
    let n = articles.len();
    let mut i: usize = 0;
    while i < n
        invariant
            i <= n,
            n == articles@.len(),
            ks == gen_keys(articles@),
            ks.len() == n,
            events_view(events@) == article_events(ks).subrange(0, i as int),
        decreases n - i,
    {
        let article = &articles[i];
        let mut segments: Vec<String> = Vec::new();
        segments.push(lang_code(&article.language).to_owned());
        segments.push(article.category.0.clone());
        if let Some(sub_category) = &article.sub_category {
            segments.push(sub_category.0.clone());
        }
        segments.push(article.title.0.clone());
        proof {
            assert(ks[i as int] == keys_of_generated(articles@[i as int]));
            assert(segments.deep_view() =~= spec_keys_dir(ks[i as int]));
        }
        let event = GenerateWebsiteEvent::ArticlePageGenerated(HtmlPagePath::new(segments));
        proof {
            assert(event@ == article_events(ks)[i as int]);
        }
        let ghost before = events@;
        events.push(event);
        proof {
            lemma_events_view_push(before, event);
            assert(article_events(ks).subrange(0, i as int).push(article_events(ks)[i as int])
                =~= article_events(ks).subrange(0, i as int + 1));
        }
        i = i + 1;
    }
    proof {
        assert(article_events(ks).subrange(0, n as int) =~= article_events(ks));
    }
    events
}

/// The sub-category page events of a build.
pub fn generate_sub_category_html_pages(articles: &Vec<GeneratedArticle>) -> (r: Vec<
    GenerateWebsiteEvent,
>)
    ensures
        events_view(r@) == sub_category_events(gen_keys(articles@)),
{
    generate_keyed_pages(PageKind::SubCategory, articles)
}

/// The category page events of a build.
pub fn generate_category_html_pages(articles: &Vec<GeneratedArticle>) -> (r: Vec<
    GenerateWebsiteEvent,
>)
    ensures
        events_view(r@) == category_events(gen_keys(articles@)),
{
    generate_keyed_pages(PageKind::Category, articles)
}

/// The tag page events of a build.
pub fn generate_tag_html_pages(articles: &Vec<GeneratedArticle>) -> (r: Vec<GenerateWebsiteEvent>)
    ensures
        events_view(r@) == tag_events(gen_keys(articles@)),
{
    generate_keyed_pages(PageKind::Tag, articles)
}

/// The home page events of a build.
pub fn generate_home_html_pages(articles: &Vec<GeneratedArticle>) -> (r: Vec<GenerateWebsiteEvent>)
    ensures
        events_view(r@) == home_events(gen_keys(articles@)),
{
    let mut events: Vec<GenerateWebsiteEvent> = Vec::new();
    let key = "home".to_owned();
    push_page_events(PageKind::Home, &key, articles.len(), &mut events);
    proof {
        assert(gen_keys(articles@).len() == articles@.len());
        assert(events_view(Seq::<GenerateWebsiteEvent>::empty()) =~= Seq::<EventView>::empty());
        assert(Seq::<EventView>::empty() + home_events(gen_keys(articles@)) =~= home_events(
            gen_keys(articles@),
        ));
    }
    events
}

} // verus!
