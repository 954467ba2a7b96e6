use blog_engine::article::{Article, ArticleId};
use blog_engine::repository::MemoryArticleRepository;

fn titre_id() -> ArticleId {
    ArticleId::LanguageCategoryTitle(
        String::from("fr"),
        String::from("Catégorie"),
        String::from("Titre"),
    )
}

#[test]
fn new_memory_article_repository() {
    let repository = MemoryArticleRepository::new();

    assert!(repository.find_all().is_empty());
}

#[test]
fn save_article() {
    let mut repository = MemoryArticleRepository::new();

    let article = Article::from(titre_id());

    repository.save(article);

    let expected_article = Article::from(titre_id());

    let all = repository.find_all();
    assert_eq!(1, all.len());
    assert_eq!(&expected_article, &all[0]);
}

#[test]
fn find_article() {
    let mut repository = MemoryArticleRepository::new();

    let article = Article::from(titre_id());

    repository.save(article);

    let id = titre_id();

    let article_found = repository.find(&id).unwrap();

    let expected_article = Article::from(titre_id());

    assert_eq!(&expected_article, article_found);
}

#[test]
fn delete_article() {
    let mut repository = MemoryArticleRepository::new();

    let article = Article::from(titre_id());

    repository.save(article);

    let id = titre_id();

    repository.delete(&id);

    assert!(repository.find_all().is_empty());
}

#[test]
fn save_with_duplicate_id_keeps_first_article() {
    let mut repository = MemoryArticleRepository::new();

    let mut first = Article::from(titre_id());
    first.content = String::from("first version");
    repository.save(first);

    let mut second = Article::from(titre_id());
    second.content = String::from("second version");
    repository.save(second);

    let all = repository.find_all();
    assert_eq!(1, all.len());
    assert_eq!("first version", all[0].content);
}

#[test]
fn find_never_saved_id_returns_nothing() {
    let repository = MemoryArticleRepository::new();
    assert!(repository.find(&titre_id()).is_none());
}

#[test]
fn delete_then_find_returns_nothing() {
    let mut repository = MemoryArticleRepository::new();
    repository.save(Article::from(titre_id()));
    repository.delete(&titre_id());
    assert!(repository.find(&titre_id()).is_none());
}

#[test]
fn delete_absent_id_is_a_no_op() {
    let mut repository = MemoryArticleRepository::new();
    repository.save(Article::from(titre_id()));
    repository.delete(&ArticleId::LanguageCategoryTitle(
        String::from("en"),
        String::from("other"),
        String::from("missing"),
    ));
    assert_eq!(1, repository.find_all().len());
}

#[test]
fn find_mut_edits_are_visible() {
    let mut repository = MemoryArticleRepository::new();
    repository.save(Article::from(titre_id()));

    let article = repository.find_mut(&titre_id()).unwrap();
    article.author = String::from("J. Doe");

    assert_eq!("J. Doe", repository.find(&titre_id()).unwrap().author);
}

#[test]
fn equality_is_identity_only() {
    let mut a = Article::from(titre_id());
    a.content = String::from("something");
    let b = Article::from(titre_id());
    assert_eq!(a, b);

    let c = Article::from(ArticleId::LanguageCategoryTitle(
        String::from("fr"),
        String::from("Catégorie"),
        String::from("Autre"),
    ));
    assert_ne!(a, c);
}
