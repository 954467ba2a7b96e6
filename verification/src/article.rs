//! The article entity and its identity. Equality of articles is equality of
//! their ids: editorial changes to the other fields never break identity.
use vstd::prelude::*;

use crate::slug::{slug_of, slugify_title};
use crate::text::string_eq;
use crate::values::HtmlPagePath;

verus! {

/// Relies on chrono::Utc::now, converted by chrono::DateTime::timestamp to
/// seconds since the Unix epoch: reads the system clock; nothing is assumed
/// of the value it returns.
#[verifier::external_body]
fn now_timestamp() -> i64 {
    chrono::Utc::now().timestamp()
}

/// Composite key of an article: language, category, optional sub-category
/// and the slug derived from the title, fixed when the article is created.
#[derive(Debug)]
pub enum ArticleId {
    LanguageCategoryTitle(String, String, String),
    LanguageCategorySubCategoryTitle(String, String, String, String),
}

/// Ids are equal when they have the same shape and their components read
/// the same.
pub open spec fn id_eq(a: ArticleId, b: ArticleId) -> bool {
    match (a, b) {
        (
            ArticleId::LanguageCategoryTitle(l1, c1, t1),
            ArticleId::LanguageCategoryTitle(l2, c2, t2),
        ) => l1@ == l2@ && c1@ == c2@ && t1@ == t2@,
        (
            ArticleId::LanguageCategorySubCategoryTitle(l1, c1, s1, t1),
            ArticleId::LanguageCategorySubCategoryTitle(l2, c2, s2, t2),
        ) => l1@ == l2@ && c1@ == c2@ && s1@ == s2@ && t1@ == t2@,
        _ => false,
    }
}

impl PartialEq for ArticleId {
    fn eq(&self, other: &Self) -> (r: bool) {
        match (self, other) {
            (
                ArticleId::LanguageCategoryTitle(l1, c1, t1),
                ArticleId::LanguageCategoryTitle(l2, c2, t2),
            ) => string_eq(l1, l2) && string_eq(c1, c2) && string_eq(t1, t2),
            (
                ArticleId::LanguageCategorySubCategoryTitle(l1, c1, s1, t1),
                ArticleId::LanguageCategorySubCategoryTitle(l2, c2, s2, t2),
            ) => string_eq(l1, l2) && string_eq(c1, c2) && string_eq(s1, s2) && string_eq(t1, t2),
            _ => false,
        }
    }
}

impl vstd::std_specs::cmp::PartialEqSpecImpl for ArticleId {
    open spec fn obeys_eq_spec() -> bool {
        true
    }

    open spec fn eq_spec(&self, other: &Self) -> bool {
        id_eq(*self, *other)
    }
}

impl Clone for ArticleId {
    fn clone(&self) -> (r: Self)
        ensures
            r == *self,
    {
        match self {
            ArticleId::LanguageCategoryTitle(l, c, t) => ArticleId::LanguageCategoryTitle(
                l.clone(),
                c.clone(),
                t.clone(),
            ),
            ArticleId::LanguageCategorySubCategoryTitle(
                l,
                c,
                s,
                t,
            ) => ArticleId::LanguageCategorySubCategoryTitle(
                l.clone(),
                c.clone(),
                s.clone(),
                t.clone(),
            ),
        }
    }
}

/// An article under editorial work: its fixed id and its mutable state.
#[derive(Debug)]
pub struct Article {
    /// The composite key, fixed when the article is created; editorial
    /// changes leave it untouched.
    pub id: ArticleId,
    pub language: String,
    pub category: String,
    pub sub_category: Option<String>,
    pub title: String,
    pub author: String,
    /// When the article was created, in seconds since the Unix epoch,
    /// read from the clock at construction.
    pub date: i64,
    pub content: String,
    pub tags: Vec<String>,
}

impl Article {
    /// Returns a new empty article whose id and fields are taken from `id`.
    pub fn from(id: ArticleId) -> (r: Self)
        ensures
            r.id == id,
            match id {
                ArticleId::LanguageCategoryTitle(l, c, t) => r.language == l && r.category == c
                    && r.sub_category is None && r.title == t,
                ArticleId::LanguageCategorySubCategoryTitle(l, c, s, t) => r.language == l
                    && r.category == c && r.sub_category == Some(s) && r.title == t,
            },
            r.author@ =~= Seq::<char>::empty(),
            r.content@ =~= Seq::<char>::empty(),
            r.tags@.len() == 0,
    {
        let id_clone = id.clone();
        let author = String::default();
        let date = now_timestamp();
        let content = String::default();
        let tags: Vec<String> = Vec::new();
        match id {
            ArticleId::LanguageCategoryTitle(language, category, title) => Self {
                id: id_clone,
                language,
                category,
                sub_category: None,
                title,
                author,
                date,
                content,
                tags,
            },
            ArticleId::LanguageCategorySubCategoryTitle(
                language,
                category,
                sub_category,
                title,
            ) => Self {
                id: id_clone,
                language,
                category,
                sub_category: Some(sub_category),
                title,
                author,
                date,
                content,
                tags,
            },
        }
    }

    /// Returns a new empty article without a sub-category; the id's last
    /// component is the slug derived from the title.
    pub fn from_language_category_title(language: String, category: String, title: String) -> (r:
        Self)
        ensures
            r.id matches ArticleId::LanguageCategoryTitle(l, c, s) && l == language && c
                == category && s@ == slug_of(title@),
            r.language == language && r.category == category && r.sub_category is None && r.title
                == title,
            r.author@ =~= Seq::<char>::empty(),
            r.content@ =~= Seq::<char>::empty(),
            r.tags@.len() == 0,
    {
        let slug = slugify_title(title.as_str());
        Self {
            id: ArticleId::LanguageCategoryTitle(language.clone(), category.clone(), slug),
            language,
            category,
            sub_category: None,
            title,
            author: String::default(),
            date: now_timestamp(),
            content: String::default(),
            tags: Vec::new(),
        }
    }

    /// Returns a new empty article with a sub-category; the id's last
    /// component is the slug derived from the title.
    pub fn from_language_category_sub_category_title(
        language: String,
        category: String,
        sub_category: String,
        title: String,
    ) -> (r: Self)
        ensures
            r.id matches ArticleId::LanguageCategorySubCategoryTitle(l, c, sc, s) && l == language
                && c == category && sc == sub_category && s@ == slug_of(title@),
            r.language == language && r.category == category && r.sub_category == Some(
                sub_category,
            ) && r.title == title,
            r.author@ =~= Seq::<char>::empty(),
            r.content@ =~= Seq::<char>::empty(),
            r.tags@.len() == 0,
    {
        let slug = slugify_title(title.as_str());
        Self {
            id: ArticleId::LanguageCategorySubCategoryTitle(
                language.clone(),
                category.clone(),
                sub_category.clone(),
                slug,
            ),
            language,
            category,
            sub_category: Some(sub_category),
            title,
            author: String::default(),
            date: now_timestamp(),
            content: String::default(),
            tags: Vec::new(),
        }
    }

    /// Return the id.
    pub fn get_id(&self) -> (r: &ArticleId)
        ensures
            r == self.id,
    {
        &self.id
    }

    /// Returns the slug of the article's title: a pure function of the
    /// title alone, and idempotent — the slug of a slug is itself.
    pub fn get_slug(&self) -> (r: String)
        ensures
            r@ == slug_of(self.title@),
            slug_of(r@) == r@,
    {
        slugify_title(self.title.as_str())
    }

    /// Returns the article's storage path: language, category, the
    /// sub-category if there is one, then the slug of the title.
    pub fn get_path(&self) -> (r: HtmlPagePath)
        ensures
            r@ == spec_path_segments(
                self.language@,
                self.category@,
                self.sub_category.deep_view(),
                slug_of(self.title@),
            ),
    {
        let mut segments: Vec<String> = Vec::new();
        segments.push(self.language.clone());
        segments.push(self.category.clone());
        if let Some(sub_category) = &self.sub_category {
            segments.push(sub_category.clone());
        }
        segments.push(self.get_slug());
        proof {
            assert(segments.deep_view() =~= spec_path_segments(
                self.language@,
                self.category@,
                self.sub_category.deep_view(),
                slug_of(self.title@),
            ));
        }
        HtmlPagePath::new(segments)
    }
}

impl vstd::std_specs::cmp::PartialEqSpecImpl for Article {
    open spec fn obeys_eq_spec() -> bool {
        true
    }

    open spec fn eq_spec(&self, other: &Self) -> bool {
        id_eq(self.id, other.id)
    }
}

impl PartialEq for Article {
    fn eq(&self, other: &Self) -> (r: bool) {
        self.get_id() == other.get_id()
    }
}

/// The ordered segments of a storage or page path built from a language, a
/// category, an optional sub-category and a slug.
pub open spec fn spec_path_segments(
    language: Seq<char>,
    category: Seq<char>,
    sub_category: Option<Seq<char>>,
    slug: Seq<char>,
) -> Seq<Seq<char>> {
    match sub_category {
        None => seq![language, category, slug],
        Some(s) => seq![language, category, s, slug],
    }
}

/// The slug is a pure function of the title alone: articles whose titles
/// read the same get the same slug, whatever their other fields hold.
pub proof fn lemma_slug_of_title_alone(a: Article, b: Article)
    requires
        a.title@ == b.title@,
    ensures
        slug_of(a.title@) == slug_of(b.title@),
{
}

/// The storage path is referentially stable and changes exactly when the
/// language, the category, the sub-category or the resulting slug changes:
/// two articles have the same path if and only if those four agree.
pub proof fn lemma_path_characterization(a: Article, b: Article)
    ensures
        spec_path_segments(
            a.language@,
            a.category@,
            a.sub_category.deep_view(),
            slug_of(a.title@),
        ) == spec_path_segments(
            b.language@,
            b.category@,
            b.sub_category.deep_view(),
            slug_of(b.title@),
        ) <==> (a.language@ == b.language@ && a.category@ == b.category@
            && a.sub_category.deep_view() == b.sub_category.deep_view() && slug_of(a.title@)
            == slug_of(b.title@)),
{
    let pa = spec_path_segments(
        a.language@,
        a.category@,
        a.sub_category.deep_view(),
        slug_of(a.title@),
    );
    let pb = spec_path_segments(
        b.language@,
        b.category@,
        b.sub_category.deep_view(),
        slug_of(b.title@),
    );
    match (a.sub_category.deep_view(), b.sub_category.deep_view()) {
        (None, None) => {
            assert(pa.len() == 3 && pb.len() == 3);
            if a.language@ == b.language@ && a.category@ == b.category@ && slug_of(a.title@)
                == slug_of(b.title@) {
                assert(pa =~= pb);
            }
            if pa == pb {
                assert(pa[0] == pb[0] && pa[1] == pb[1] && pa[2] == pb[2]);
            }
        },
        (Some(sa), Some(sb)) => {
            assert(pa.len() == 4 && pb.len() == 4);
            if a.language@ == b.language@ && a.category@ == b.category@ && sa == sb && slug_of(
                a.title@,
            ) == slug_of(b.title@) {
                assert(pa =~= pb);
            }
            if pa == pb {
                assert(pa[0] == pb[0] && pa[1] == pb[1] && pa[2] == pb[2] && pa[3] == pb[3]);
            }
        },
        (None, Some(_)) => {
            assert(pa.len() == 3 && pb.len() == 4);
        },
        (Some(_), None) => {
            assert(pa.len() == 4 && pb.len() == 3);
        },
    }
}

} // verus!
