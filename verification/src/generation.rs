//! The website-generation pipeline: types of the edited and generated
//! articles, the event model, and the per-article generation stage.
use vstd::prelude::*;

use crate::article::spec_path_segments;
use crate::pages::{
    generate_article_page_events, generate_category_html_pages, generate_home_html_pages,
    generate_sub_category_html_pages, generate_tag_html_pages, gen_keys, spec_website_events,
};
use crate::sort::{sort_articles_by_most_recent_publication, sort_by_date_desc};
use crate::date::PublishedDate;
use crate::slug::{slug_of, slugify_title};
use crate::values::{
    Author, Category, Content, HtmlPagePath, Image, Language, SubCategory, Tag, Tags, Title,
};

verus! {

/// The path segment standing for a language.
pub open spec fn spec_lang_code(l: Language) -> Seq<char> {
    match l {
        Language::English => "en"@,
        Language::French => "fr"@,
    }
}

/// The language's path segment: "en" or "fr".
pub fn lang_code(l: &Language) -> (r: &'static str)
    ensures
        r@ == spec_lang_code(*l),
{
    match l {
        Language::English => "en",
        Language::French => "fr",
    }
}

/// A publish-ready snapshot of one article, the pipeline's input.
#[derive(Debug)]
pub struct EditedArticle {
    pub language: Language,
    pub category: Category,
    pub sub_category: Option<SubCategory>,
    pub title: Title,
    pub author: Author,
    pub published_date: PublishedDate,
    pub content: Content,
    pub tags: Tags,
    pub images: Vec<Image>,
}

impl EditedArticle {
    pub fn published_date(&self) -> (r: &PublishedDate)
        ensures
            r == self.published_date,
    {
        &self.published_date
    }
}

/// A non-empty ordered collection of edited articles: the only shape of
/// input the pipeline accepts.
#[derive(Debug)]
pub struct ArticlesEdited(Vec<EditedArticle>);

impl View for ArticlesEdited {
    type V = Seq<EditedArticle>;

    closed spec fn view(&self) -> Seq<EditedArticle> {
        self.0@
    }
}

#[verifier::type_invariant]
spec fn articles_edited_nonempty(a: ArticlesEdited) -> bool {
    a@.len() > 0
}

impl ArticlesEdited {
    /// Accepts exactly the non-empty collections.
    pub fn new(articles: Vec<EditedArticle>) -> (r: Option<Self>)
        ensures
            r is Some <==> articles@.len() > 0,
            r matches Some(a) ==> a@ == articles@,
    {
        if !articles.is_empty() {
            Some(ArticlesEdited(articles))
        } else {
            None
        }
    }

    pub fn value(&self) -> (r: &Vec<EditedArticle>)
        ensures
            r@ == self@,
            r@.len() > 0,
    {
        proof {
            use_type_invariant(self);
        }
        &self.0
    }

    /// The articles, surrendered for the pipeline to consume.
    fn into_inner(self) -> (r: Vec<EditedArticle>)
        ensures
            r@ == self@,
            r@.len() > 0,
    {
        proof {
            use_type_invariant(&self);
        }
        let ArticlesEdited(articles) = self;
        articles
    }
}

impl DeepView for Tag {
    type V = Seq<char>;

    open spec fn deep_view(&self) -> Seq<char> {
        self.0@
    }
}

/// A title after slugification.
#[derive(Debug)]
pub struct SlugifiedTitle(pub String);

/// Rendered page text. The engine carries the authored content through
/// unchanged; templating proper is a collaborator outside this crate.
#[derive(Debug)]
pub struct HtmlContent(pub String);

/// One article after the generation stage: slugified title, rendered
/// bytes, and the fields that the grouping stages read.
#[derive(Debug)]
pub struct GeneratedArticle {
    pub language: Language,
    pub category: Category,
    pub sub_category: Option<SubCategory>,
    pub title: SlugifiedTitle,
    pub tags: Tags,
    pub html_content: HtmlContent,
}

/// The capability through which the pipeline asks for a directory. The
/// caller supplies the backend; creating an already-existing directory is
/// expected to report success. Nothing is assumed of the answer: the
/// pipeline's contract covers every one.
pub trait DirectoryCreator {
    /// Ask for the directory at `path`; `true` means it now exists.
    fn create_directory(&mut self, path: &HtmlPagePath) -> bool;
}

/// One produced page artifact, carrying its output path.
#[derive(Debug)]
pub enum GenerateWebsiteEvent {
    ArticlePageGenerated(HtmlPagePath),
    CategoryHtmlPageGenerated(HtmlPagePath),
    HomeHtmlPageGenerated(HtmlPagePath),
    SubCategoryHtmlPageGenerated(HtmlPagePath),
    TagHtmlPageGenerated(HtmlPagePath),
}

/// The mathematical shape of one event: its kind and its path segments.
pub ghost enum EventView {
    ArticlePage(Seq<Seq<char>>),
    CategoryPage(Seq<Seq<char>>),
    HomePage(Seq<Seq<char>>),
    SubCategoryPage(Seq<Seq<char>>),
    TagPage(Seq<Seq<char>>),
}

impl View for GenerateWebsiteEvent {
    type V = EventView;

    open spec fn view(&self) -> EventView {
        match self {
            GenerateWebsiteEvent::ArticlePageGenerated(p) => EventView::ArticlePage(p@),
            GenerateWebsiteEvent::CategoryHtmlPageGenerated(p) => EventView::CategoryPage(p@),
            GenerateWebsiteEvent::HomeHtmlPageGenerated(p) => EventView::HomePage(p@),
            GenerateWebsiteEvent::SubCategoryHtmlPageGenerated(p) => EventView::SubCategoryPage(
                p@,
            ),
            GenerateWebsiteEvent::TagHtmlPageGenerated(p) => EventView::TagPage(p@),
        }
    }
}

/// The views of a sequence of events, in order.
pub open spec fn events_view(s: Seq<GenerateWebsiteEvent>) -> Seq<EventView> {
    s.map_values(|e: GenerateWebsiteEvent| e@)
}

/// Appending one event appends its view.
pub proof fn lemma_events_view_push(s: Seq<GenerateWebsiteEvent>, e: GenerateWebsiteEvent)
    ensures
        events_view(s.push(e)) == events_view(s).push(e@),
{
    assert forall|i: int| 0 <= i < s.len() + 1 implies events_view(s.push(e))[i] == events_view(
        s,
    ).push(e@)[i] by {
        if i < s.len() {
            assert(s.push(e)[i] == s[i]);
        } else {
            assert(s.push(e)[i] == e);
        }
    }
    assert(events_view(s.push(e)) =~= events_view(s).push(e@));
}

/// Concatenating events concatenates their views.
pub proof fn lemma_events_view_concat(a: Seq<GenerateWebsiteEvent>, b: Seq<GenerateWebsiteEvent>)
    ensures
        events_view(a + b) == events_view(a) + events_view(b),
{
    assert forall|i: int| 0 <= i < a.len() + b.len() implies events_view(a + b)[i] == (events_view(
        a,
    ) + events_view(b))[i] by {
        if i < a.len() {
            assert((a + b)[i] == a[i]);
        } else {
            assert((a + b)[i] == b[i - a.len()]);
        }
    }
    assert(events_view(a + b) =~= events_view(a) + events_view(b));
}

/// Why a generation run stopped: the directory of the named path could not
/// be created. Fatal for the run; no events are emitted.
#[derive(Debug)]
pub enum GenerateWebsiteError {
    DirectoryCreationFailed(HtmlPagePath),
}

/// What the grouping and pagination stages read of one article.
pub ghost struct ArticleKeys {
    pub language: Language,
    pub category: Seq<char>,
    pub sub_category: Option<Seq<char>>,
    pub slug: Seq<char>,
    pub tags: Seq<Seq<char>>,
}

/// The sub-category's name, if there is one.
pub open spec fn spec_sub_view(s: Option<SubCategory>) -> Option<Seq<char>> {
    match s {
        None => None,
        Some(x) => Some(x.0@),
    }
}

/// What the page stages read of an edited article; the slug is already
/// derived here.
pub open spec fn keys_of_edited(a: EditedArticle) -> ArticleKeys {
    ArticleKeys {
        language: a.language,
        category: a.category.0@,
        sub_category: spec_sub_view(a.sub_category),
        slug: slug_of(a.title.0@),
        tags: a.tags.0.deep_view(),
    }
}

/// What the page stages read of a generated article.
pub open spec fn keys_of_generated(g: GeneratedArticle) -> ArticleKeys {
    ArticleKeys {
        language: g.language,
        category: g.category.0@,
        sub_category: spec_sub_view(g.sub_category),
        slug: g.title.0@,
        tags: g.tags.0.deep_view(),
    }
}

/// The directory of one article's page: language, category, sub-category
/// if any, slug.
pub open spec fn spec_keys_dir(k: ArticleKeys) -> Seq<Seq<char>> {
    spec_path_segments(spec_lang_code(k.language), k.category, k.sub_category, k.slug)
}

/// The directory of one edited article's page.
pub open spec fn spec_article_dir(a: EditedArticle) -> Seq<Seq<char>> {
    spec_keys_dir(keys_of_edited(a))
}

/// The target directory of one edited article's page.
pub fn get_article_directory(article: &EditedArticle) -> (r: HtmlPagePath)
    ensures
        r@ == spec_article_dir(*article),
{
    let mut segments: Vec<String> = Vec::new();
    segments.push(lang_code(&article.language).to_owned());
    segments.push(article.category.0.clone());
    if let Some(sub_category) = &article.sub_category {
        segments.push(sub_category.0.clone());
    }
    segments.push(slugify_title(article.title.0.as_str()));
    proof {
        assert(segments.deep_view() =~= spec_article_dir(*article));
    }
    HtmlPagePath::new(segments)
}

/// Whether `p` is the page directory of one of the articles in `s`.
pub open spec fn some_article_dir(s: Seq<EditedArticle>, p: Seq<Seq<char>>) -> bool {
    exists|i: int| 0 <= i < s.len() && p == spec_article_dir(#[trigger] s[i])
}

/// How a generated article arises from an edited one: the grouping fields
/// move over unchanged, the title is slugified, and the rendered bytes are
/// the content's bytes.
pub open spec fn gen_matches(g: GeneratedArticle, a: EditedArticle) -> bool {
    g.language == a.language && g.category == a.category && g.sub_category == a.sub_category
        && g.tags == a.tags && g.title.0@ == slug_of(a.title.0@) && g.html_content.0@
        == a.content.0@
}

/// Generates one article: derives the slug and the rendered bytes, and
/// asks for the article's directory exactly once. A refused directory is
/// fatal for the artifact: its path is reported instead.
pub fn generate_article_html_page<D: DirectoryCreator>(
    create_directory: &mut D,
    article: EditedArticle,
) -> (r: Result<GeneratedArticle, HtmlPagePath>)
    ensures
        match r {
            Ok(g) => gen_matches(g, article),
            Err(p) => p@ == spec_article_dir(article),
        },
{
    let article_directory = get_article_directory(&article);
    if create_directory.create_directory(&article_directory) {
        let slug = slugify_title(article.title.0.as_str());
        let html = article.content.0;
        Ok(
            GeneratedArticle {
                language: article.language,
                category: article.category,
                sub_category: article.sub_category,
                title: SlugifiedTitle(slug),
                tags: article.tags,
                html_content: HtmlContent(html),
            },
        )
    } else {
        Err(article_directory)
    }
}

/// The generation stage: each article independently becomes a generated
/// article, in order. The first refused directory aborts the stage and
/// reports that article's path; articles past the failure are not
/// processed.
#[verifier::loop_isolation(false)]
pub fn generate_article_html_pages<D: DirectoryCreator>(
    create_directory: &mut D,
    mut articles: Vec<EditedArticle>,
) -> (r: Result<Vec<GeneratedArticle>, GenerateWebsiteError>)
    ensures
        match r {
            Ok(g) => g@.len() == articles@.len() && forall|i: int|
                0 <= i < g@.len() ==> gen_matches(#[trigger] g@[i], articles@[i]),
            Err(e) => e matches GenerateWebsiteError::DirectoryCreationFailed(p)
                && some_article_dir(articles@, p@),
        },
{
    let ghost input = articles@;
    let mut generated: Vec<GeneratedArticle> = Vec::new();
    let n = articles.len();
    let mut i: usize = 0;
    while i < n
        invariant
            i <= n,
            n == input.len(),
            articles@ == input.skip(i as int),
            generated@.len() == i,
            forall|k: int| 0 <= k < i ==> gen_matches(#[trigger] generated@[k], input[k]),
        decreases n - i,
    {
        proof {
            assert(articles@[0] == input[i as int]);
            assert(articles@.drop_first() =~= input.skip(i as int + 1));
        }
        let article = articles.remove(0);
        proof {
            assert(input.skip(i as int).drop_first() =~= input.skip(i as int + 1));
        }
        match generate_article_html_page(create_directory, article) {
            Ok(g) => {
                generated.push(g);
            },
            Err(p) => {
                proof {
                    assert(p@ == spec_article_dir(input[i as int]));
                    assert(some_article_dir(input, p@));
                }
                return Err(GenerateWebsiteError::DirectoryCreationFailed(p));
            },
        }
        i = i + 1;
    }
    Ok(generated)
}

/// Runs the whole pipeline over a non-empty article set: sort by date,
/// most recent first; generate each article's page, asking for its
/// directory exactly once; then emit one ordered event sequence: article
/// pages in sorted order, then sub-category, category and tag listing
/// pages with keys in lexicographic order, then the home listing. The
/// first refused directory aborts the run with that article's path and no
/// events.
pub fn generate_website<D: DirectoryCreator>(
    create_directory: &mut D,
    articles: ArticlesEdited,
) -> (r: Result<Vec<GenerateWebsiteEvent>, GenerateWebsiteError>)
    ensures
        r matches Ok(events) ==> events_view(events@) == spec_website_events(
            sort_by_date_desc(articles@).map_values(|a: EditedArticle| keys_of_edited(a)),
        ),
        r matches Err(e) ==> e matches GenerateWebsiteError::DirectoryCreationFailed(p)
            && some_article_dir(sort_by_date_desc(articles@), p@),
{
    let input = articles.into_inner();
    let sorted = sort_articles_by_most_recent_publication(input);
    let ghost sorted_view = sorted@;
    let generated = match generate_article_html_pages(create_directory, sorted) {
        Ok(g) => g,
        Err(e) => {
            return Err(e);
        },
    };
    proof {
        assert forall|i: int| 0 <= i < generated@.len() implies gen_keys(generated@)[i]
            == sorted_view.map_values(|a: EditedArticle| keys_of_edited(a))[i] by {
            assert(gen_matches(generated@[i], sorted_view[i]));
            assert(keys_of_generated(generated@[i]) == keys_of_edited(sorted_view[i]));
        }
        assert(gen_keys(generated@) =~= sorted_view.map_values(
            |a: EditedArticle| keys_of_edited(a),
        ));
    }
    let ghost ks = gen_keys(generated@);
    let mut events = generate_article_page_events(&generated);
    let ghost ev1 = events@;
    let mut sub_events = generate_sub_category_html_pages(&generated);
    let ghost ev2 = sub_events@;
    events.append(&mut sub_events);
    proof {
        lemma_events_view_concat(ev1, ev2);
    }
    let ghost ev12 = events@;
    let mut category_pages = generate_category_html_pages(&generated);
    let ghost ev3 = category_pages@;
    events.append(&mut category_pages);
    proof {
        lemma_events_view_concat(ev12, ev3);
    }
    let ghost ev123 = events@;
    let mut tag_pages = generate_tag_html_pages(&generated);
    let ghost ev4 = tag_pages@;
    events.append(&mut tag_pages);
    proof {
        lemma_events_view_concat(ev123, ev4);
    }
    let ghost ev1234 = events@;
    let mut home_pages = generate_home_html_pages(&generated);
    let ghost ev5 = home_pages@;
    events.append(&mut home_pages);
    proof {
        lemma_events_view_concat(ev1234, ev5);
        assert(events_view(events@) == spec_website_events(ks));
    }
    Ok(events)
}

} // verus!
