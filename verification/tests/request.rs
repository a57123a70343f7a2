use portfolio_pulse::request::{ActivityQuery, BlogQuery, CommitQuery};

#[test]
fn test_activity_query_defaults() {
    let query = ActivityQuery { days: None };
    assert_eq!(query.days_or_default(), 7);

    let query = ActivityQuery { days: Some(30) };
    assert_eq!(query.days_or_default(), 30);
}

#[test]
fn test_commit_query_defaults() {
    let query = CommitQuery { limit: None };
    assert_eq!(query.limit_or_default(), 10);

    let query = CommitQuery { limit: Some(50) };
    assert_eq!(query.limit_or_default(), 50);
}

#[test]
fn test_blog_query_defaults() {
    let query = BlogQuery { page: None, page_size: None, category: None, search: None };
    assert_eq!(query.page_or_default(), 1);
    assert_eq!(query.page_size_or_default(), 10);

    let query = BlogQuery {
        page: Some(5),
        page_size: Some(20),
        category: Some("技术".to_string()),
        search: Some("Rust".to_string()),
    };
    assert_eq!(query.page_or_default(), 5);
    assert_eq!(query.page_size_or_default(), 20);
}

#[test]
fn a_limit_beyond_the_signed_range_wraps_round() {
    let query = CommitQuery { limit: Some(u32::MAX) };
    assert_eq!(query.limit_or_default(), -1);
    let query = CommitQuery { limit: Some(2_147_483_648) };
    assert_eq!(query.limit_or_default(), i32::MIN);
}
