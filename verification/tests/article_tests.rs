use blog_engine::article::{Article, ArticleId};

#[test]
fn test_article_get_path() {
    let language = "en";
    let category = "test";
    let title = "title";

    let article = Article::from_language_category_title(
        String::from(language),
        String::from(category),
        String::from(title),
    );

    let article_slug = article.get_slug();

    let expected_id = ArticleId::LanguageCategoryTitle(
        String::from(language),
        String::from(category),
        String::from(&article_slug),
    );

    let expected_path = vec![
        String::from("en"),
        String::from("test"),
        article_slug.clone(),
    ];

    assert_eq!(&expected_id, article.get_id());
    let path = article.get_path();
    assert_eq!(&expected_path, path.segments());
}

#[test]
fn test_article_get_path_with_sub_category() {
    let language = "en";
    let category = "test";
    let sub_category = "sub";
    let title = "title";

    let article = Article::from_language_category_sub_category_title(
        String::from(language),
        String::from(category),
        String::from(sub_category),
        String::from(title),
    );

    let article_slug = article.get_slug();

    let expected_id = ArticleId::LanguageCategorySubCategoryTitle(
        String::from(language),
        String::from(category),
        String::from(sub_category),
        String::from(&article_slug),
    );

    let expected_path = vec![
        String::from("en"),
        String::from("test"),
        String::from("sub"),
        article_slug.clone(),
    ];

    assert_eq!(&expected_id, article.get_id());
    let path = article.get_path();
    assert_eq!(&expected_path, path.segments());
}

#[test]
fn article_test_article_get_path() {
    let language = "en";
    let category = "test";
    let title = "title";

    let article = Article::from(ArticleId::LanguageCategoryTitle(
        String::from(language),
        String::from(category),
        String::from(title),
    ));

    let article_slug = article.get_slug();

    let expected_id = ArticleId::LanguageCategoryTitle(
        String::from(language),
        String::from(category),
        String::from(&article_slug),
    );

    let expected_path = vec![
        String::from(language),
        String::from(category),
        article_slug.clone(),
    ];

    assert_eq!(&expected_id, article.get_id());
    let path = article.get_path();
    assert_eq!(&expected_path, path.segments());
}

#[test]
fn article_test_article_get_path_with_sub_category() {
    let language = "en";
    let category = "test";
    let sub_category = "sub";
    let title = "title";

    let article = Article::from(ArticleId::LanguageCategorySubCategoryTitle(
        String::from(language),
        String::from(category),
        String::from(sub_category),
        String::from(title),
    ));

    let article_slug = article.get_slug();

    let expected_id = ArticleId::LanguageCategorySubCategoryTitle(
        String::from(language),
        String::from(category),
        String::from(sub_category),
        String::from(&article_slug),
    );

    let expected_path = vec![
        String::from(language),
        String::from(category),
        String::from(sub_category),
        article_slug.clone(),
    ];

    assert_eq!(&expected_id, article.get_id());
    let path = article.get_path();
    assert_eq!(&expected_path, path.segments());
}

#[test]
fn slug_is_pure_and_idempotent() {
    // same title, other fields different: same slug
    let a = Article::from_language_category_title(
        String::from("en"),
        String::from("one"),
        String::from("Héllo, World!"),
    );
    let b = Article::from_language_category_title(
        String::from("fr"),
        String::from("two"),
        String::from("Héllo, World!"),
    );
    assert_eq!(a.get_slug(), b.get_slug());

    // slugifying an already-slugified title changes nothing
    let slug = a.get_slug();
    let again = Article::from_language_category_title(
        String::from("en"),
        String::from("one"),
        slug.clone(),
    );
    assert_eq!(slug, again.get_slug());
}

#[test]
fn slugifies_unicode_title() {
    let article = Article::from_language_category_title(
        String::from("en"),
        String::from("news"),
        String::from("Héllo, World!"),
    );
    assert_eq!("hello_world", article.get_slug());
}

#[test]
fn path_with_sub_category_segments() {
    let article = Article::from_language_category_sub_category_title(
        String::from("en"),
        String::from("dev"),
        String::from("rust"),
        String::from("Ownership And Borrowing"),
    );
    let slug = article.get_slug();
    let path = article.get_path();
    assert_eq!(
        &vec![
            String::from("en"),
            String::from("dev"),
            String::from("rust"),
            slug,
        ],
        path.segments()
    );
}

#[test]
fn id_holds_the_title_derived_slug() {
    let article = Article::from_language_category_title(
        String::from("en"),
        String::from("news"),
        String::from("Héllo, World!"),
    );
    let expected_id = ArticleId::LanguageCategoryTitle(
        String::from("en"),
        String::from("news"),
        String::from("hello_world"),
    );
    assert_eq!(&expected_id, article.get_id());

    let with_sub = Article::from_language_category_sub_category_title(
        String::from("en"),
        String::from("dev"),
        String::from("rust"),
        String::from("Héllo, World!"),
    );
    let expected_sub_id = ArticleId::LanguageCategorySubCategoryTitle(
        String::from("en"),
        String::from("dev"),
        String::from("rust"),
        String::from("hello_world"),
    );
    assert_eq!(&expected_sub_id, with_sub.get_id());
}
