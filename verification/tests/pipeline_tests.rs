use blog_engine::date::PublishedDate;
use blog_engine::generation::{
    generate_website, ArticlesEdited, DirectoryCreator, EditedArticle, GenerateWebsiteError,
    GenerateWebsiteEvent,
};
use blog_engine::values::{
    Author, Category, Content, Day, HtmlPagePath, Language, Month, SubCategory, Tag, Tags, Title,
    Year,
};

fn date(year: u16, month: Month, day: u8) -> PublishedDate {
    PublishedDate::new(Year::new(year), month, Day::new(day).unwrap()).unwrap()
}

fn article(
    language: Language,
    category: &str,
    sub_category: Option<&str>,
    title: &str,
    published: PublishedDate,
    tags: Vec<&str>,
) -> EditedArticle {
    EditedArticle {
        language,
        category: Category(String::from(category)),
        sub_category: sub_category.map(|s| SubCategory(String::from(s))),
        title: Title(String::from(title)),
        author: Author(String::from("A. Writer")),
        published_date: published,
        content: Content(String::from("body text")),
        tags: Tags(tags.into_iter().map(|t| Tag(String::from(t))).collect()),
        images: vec![],
    }
}

/// A directory-creation capability that records the asked paths and can be
/// told to refuse one call.
struct ScriptedCreator {
    calls: Vec<Vec<String>>,
    refuse_call: Option<usize>,
}

impl ScriptedCreator {
    fn accepting() -> Self {
        Self {
            calls: vec![],
            refuse_call: None,
        }
    }

    fn refusing(call: usize) -> Self {
        Self {
            calls: vec![],
            refuse_call: Some(call),
        }
    }
}

impl DirectoryCreator for ScriptedCreator {
    fn create_directory(&mut self, path: &HtmlPagePath) -> bool {
        let n = self.calls.len();
        self.calls.push(path.segments().clone());
        self.refuse_call != Some(n)
    }
}

fn segs(parts: &[&str]) -> Vec<String> {
    parts.iter().map(|p| String::from(*p)).collect()
}

fn event_segments(event: &GenerateWebsiteEvent) -> &Vec<String> {
    match event {
        GenerateWebsiteEvent::ArticlePageGenerated(p) => p.segments(),
        GenerateWebsiteEvent::CategoryHtmlPageGenerated(p) => p.segments(),
        GenerateWebsiteEvent::HomeHtmlPageGenerated(p) => p.segments(),
        GenerateWebsiteEvent::SubCategoryHtmlPageGenerated(p) => p.segments(),
        GenerateWebsiteEvent::TagHtmlPageGenerated(p) => p.segments(),
    }
}

#[test]
fn articles_edited_rejects_empty_input_only() {
    assert!(ArticlesEdited::new(vec![]).is_none());

    let one = article(
        Language::English,
        "news",
        None,
        "One",
        date(2021, Month::May, 1),
        vec![],
    );
    let set = ArticlesEdited::new(vec![one]);
    assert!(set.is_some());
    assert_eq!(1, set.unwrap().value().len());
}

#[test]
fn two_articles_one_category() {
    // dates 2021-05-01 and 2021-01-10, same category "news", English
    let older = article(
        Language::English,
        "news",
        None,
        "Older Story",
        date(2021, Month::January, 10),
        vec![],
    );
    let newer = article(
        Language::English,
        "news",
        None,
        "Newer Story",
        date(2021, Month::May, 1),
        vec![],
    );
    let set = ArticlesEdited::new(vec![older, newer]).unwrap();

    let mut creator = ScriptedCreator::accepting();
    let events = generate_website(&mut creator, set).unwrap();

    // sorted order is [2021-05-01, 2021-01-10]: article pages first, in
    // that order, then the single category page, then the home page
    assert_eq!(4, events.len());
    assert!(matches!(events[0], GenerateWebsiteEvent::ArticlePageGenerated(_)));
    assert_eq!(&segs(&["en", "news", "newer_story"]), event_segments(&events[0]));
    assert!(matches!(events[1], GenerateWebsiteEvent::ArticlePageGenerated(_)));
    assert_eq!(&segs(&["en", "news", "older_story"]), event_segments(&events[1]));
    assert!(matches!(events[2], GenerateWebsiteEvent::CategoryHtmlPageGenerated(_)));
    assert_eq!(&segs(&["news", "0"]), event_segments(&events[2]));
    assert!(matches!(events[3], GenerateWebsiteEvent::HomeHtmlPageGenerated(_)));
    assert_eq!(&segs(&["home", "0"]), event_segments(&events[3]));

    // the capability was asked once per article, in sorted order
    assert_eq!(2, creator.calls.len());
    assert_eq!(segs(&["en", "news", "newer_story"]), creator.calls[0]);
    assert_eq!(segs(&["en", "news", "older_story"]), creator.calls[1]);
}

#[test]
fn equal_dates_keep_input_order() {
    let first = article(
        Language::English,
        "news",
        None,
        "First Written",
        date(2021, Month::March, 3),
        vec![],
    );
    let second = article(
        Language::English,
        "news",
        None,
        "Second Written",
        date(2021, Month::March, 3),
        vec![],
    );
    let set = ArticlesEdited::new(vec![first, second]).unwrap();

    let mut creator = ScriptedCreator::accepting();
    let events = generate_website(&mut creator, set).unwrap();

    assert_eq!(&segs(&["en", "news", "first_written"]), event_segments(&events[0]));
    assert_eq!(&segs(&["en", "news", "second_written"]), event_segments(&events[1]));
}

#[test]
fn sub_category_article_path() {
    let a = article(
        Language::English,
        "dev",
        Some("rust"),
        "Borrow Checker",
        date(2022, Month::June, 5),
        vec![],
    );
    let set = ArticlesEdited::new(vec![a]).unwrap();

    let mut creator = ScriptedCreator::accepting();
    let events = generate_website(&mut creator, set).unwrap();

    // article page, one sub-category page, one category page, one home page
    assert_eq!(4, events.len());
    assert_eq!(&segs(&["en", "dev", "rust", "borrow_checker"]), event_segments(&events[0]));
    assert!(matches!(events[1], GenerateWebsiteEvent::SubCategoryHtmlPageGenerated(_)));
    assert_eq!(&segs(&["rust", "0"]), event_segments(&events[1]));
    assert!(matches!(events[2], GenerateWebsiteEvent::CategoryHtmlPageGenerated(_)));
    assert_eq!(&segs(&["dev", "0"]), event_segments(&events[2]));
    assert!(matches!(events[3], GenerateWebsiteEvent::HomeHtmlPageGenerated(_)));
}

#[test]
fn refused_directory_aborts_with_that_path() {
    let a = article(
        Language::English,
        "news",
        None,
        "Alpha",
        date(2021, Month::May, 3),
        vec![],
    );
    let b = article(
        Language::English,
        "news",
        None,
        "Beta",
        date(2021, Month::May, 2),
        vec![],
    );
    let c = article(
        Language::English,
        "news",
        None,
        "Gamma",
        date(2021, Month::May, 1),
        vec![],
    );
    let set = ArticlesEdited::new(vec![a, b, c]).unwrap();

    // the second call is refused
    let mut creator = ScriptedCreator::refusing(1);
    let result = generate_website(&mut creator, set);

    match result {
        Err(GenerateWebsiteError::DirectoryCreationFailed(path)) => {
            // the second article in processing (sorted) order is "Beta"
            assert_eq!(&segs(&["en", "news", "beta"]), path.segments());
        }
        Ok(_) => panic!("generation must abort when a directory is refused"),
    }

    // no call was made past the failure point
    assert_eq!(2, creator.calls.len());
}

#[test]
fn tag_pages_come_in_lexicographic_order() {
    let a = article(
        Language::English,
        "news",
        None,
        "Tagged One",
        date(2021, Month::May, 2),
        vec!["zebra", "apple"],
    );
    let b = article(
        Language::English,
        "news",
        None,
        "Tagged Two",
        date(2021, Month::May, 1),
        vec!["apple"],
    );
    let set = ArticlesEdited::new(vec![a, b]).unwrap();

    let mut creator = ScriptedCreator::accepting();
    let events = generate_website(&mut creator, set).unwrap();

    // 2 article pages, 1 category page, 2 tag pages, 1 home page
    assert_eq!(6, events.len());
    assert!(matches!(events[3], GenerateWebsiteEvent::TagHtmlPageGenerated(_)));
    assert_eq!(&segs(&["apple", "0"]), event_segments(&events[3]));
    assert!(matches!(events[4], GenerateWebsiteEvent::TagHtmlPageGenerated(_)));
    assert_eq!(&segs(&["zebra", "0"]), event_segments(&events[4]));
}

#[test]
fn pagination_splits_groups_of_more_than_ten() {
    let mut articles = vec![];
    for i in 0..11 {
        articles.push(article(
            Language::English,
            "news",
            None,
            &format!("Story Number {}", i),
            date(2021, Month::May, (i + 1) as u8),
            vec![],
        ));
    }
    let set = ArticlesEdited::new(articles).unwrap();

    let mut creator = ScriptedCreator::accepting();
    let events = generate_website(&mut creator, set).unwrap();

    // 11 article pages, 2 category pages, 2 home pages
    assert_eq!(15, events.len());
    assert_eq!(&segs(&["news", "0"]), event_segments(&events[11]));
    assert_eq!(&segs(&["news", "1"]), event_segments(&events[12]));
    assert_eq!(&segs(&["home", "0"]), event_segments(&events[13]));
    assert_eq!(&segs(&["home", "1"]), event_segments(&events[14]));
}

#[test]
fn categories_group_across_languages_in_key_order() {
    let a = article(
        Language::French,
        "voyage",
        None,
        "Un Départ",
        date(2021, Month::May, 2),
        vec![],
    );
    let b = article(
        Language::English,
        "cooking",
        None,
        "A Recipe",
        date(2021, Month::May, 1),
        vec![],
    );
    let set = ArticlesEdited::new(vec![a, b]).unwrap();

    let mut creator = ScriptedCreator::accepting();
    let events = generate_website(&mut creator, set).unwrap();

    // 2 article pages, then category pages in lexicographic key order
    assert_eq!(&segs(&["fr", "voyage", "un_depart"]), event_segments(&events[0]));
    assert_eq!(&segs(&["en", "cooking", "a_recipe"]), event_segments(&events[1]));
    assert!(matches!(events[2], GenerateWebsiteEvent::CategoryHtmlPageGenerated(_)));
    assert_eq!(&segs(&["cooking", "0"]), event_segments(&events[2]));
    assert!(matches!(events[3], GenerateWebsiteEvent::CategoryHtmlPageGenerated(_)));
    assert_eq!(&segs(&["voyage", "0"]), event_segments(&events[3]));
}
