use realworld_core::article::{
    has_next_page, has_next_search_page, page_offset, validate_article,
};

#[test]
fn validate_article_rejects_short_fields_in_order() {
    assert_eq!(
        validate_article("abc".into(), "desc".into(), "long enough".into(), "".into())
            .unwrap_err(),
        "You need to provide a title with at least 4 characters"
    );
    assert_eq!(
        validate_article("title".into(), "abc".into(), "long enough".into(), "".into())
            .unwrap_err(),
        "You need to provide a description with at least 4 characters"
    );
    assert_eq!(
        validate_article("title".into(), "desc".into(), "short".into(), "".into()).unwrap_err(),
        "You need to provide a body with at least 10 characters"
    );
}

#[test]
fn validate_article_splits_and_dedups_tags() {
    let a = validate_article(
        "title".into(),
        "desc".into(),
        "a body that is long enough".into(),
        "  rust web \t rust\ngui ".into(),
    )
    .unwrap();
    assert_eq!(a.title, "title");
    assert_eq!(a.description, "desc");
    assert_eq!(a.body, "a body that is long enough");
    assert_eq!(a.tag_list, vec!["rust", "web", "gui"]);
}

#[test]
fn validate_article_accepts_empty_tag_list() {
    let a = validate_article(
        "title".into(),
        "desc".into(),
        "a body that is long enough".into(),
        "   ".into(),
    )
    .unwrap();
    assert!(a.tag_list.is_empty());
}

#[test]
fn page_offset_multiplies() {
    assert_eq!(page_offset(0, 20), 0);
    assert_eq!(page_offset(2, 20), 40);
}

#[test]
fn short_page_is_the_last_page() {
    assert!(has_next_page(10, 10));
    assert!(!has_next_page(9, 10));
    assert!(!has_next_page(0, 10));
}

#[test]
fn search_paging_compares_against_rows_seen() {
    assert!(has_next_search_page(41, 1, 20));
    assert!(!has_next_search_page(40, 1, 20));
    assert!(has_next_search_page(21, 0, 20));
    assert!(!has_next_search_page(20, 0, 20));
}
