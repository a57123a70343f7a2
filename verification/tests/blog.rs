use portfolio_pulse::dates::CalendarDate;
use portfolio_pulse::front_matter::HeaderParseError;
use portfolio_pulse::models::blog::{split_tags, tags_from_field, BlogPost, BlogPostResponse};
use portfolio_pulse::repository::{FileContent, LoadError, SourceFile};
use portfolio_pulse::services::blog_markdown::MarkdownBlogService;
use portfolio_pulse::services::traits::BlogService;

fn text_file(name: &str, content: &str) -> SourceFile {
    SourceFile { name: name.to_string(), content: FileContent::Text(content.to_string()) }
}

fn post_doc(title: &str, date: &str) -> String {
    format!("---\ntitle: {}\npubDate: {}\n---\nBody of {}.\n", title, date, title)
}

fn slugs(posts: &[BlogPost]) -> Vec<String> {
    posts.iter().map(|p| p.slug.clone()).collect()
}

fn three_files() -> Vec<SourceFile> {
    vec![
        text_file("a.md", &post_doc("A", "2024-01-10")),
        text_file("b.md", &post_doc("B", "2024-01-15")),
        text_file("c.md", "---\ndescription: no title here\npubDate: 2024-01-20\n---\nText\n"),
    ]
}

#[test]
fn a_malformed_document_is_skipped_and_the_rest_is_listed_newest_first() {
    let service = MarkdownBlogService::new();
    let posts = service.get_published_posts(&three_files(), 1, 10);
    assert_eq!(slugs(&posts), vec!["b", "a"]);
}

#[test]
fn a_malformed_document_asked_for_by_slug_is_an_error() {
    let service = MarkdownBlogService::new();
    let found = Some(FileContent::Text(
        "---\ndescription: no title here\npubDate: 2024-01-20\n---\nText\n".to_string(),
    ));
    match service.get_post_by_slug("c", found) {
        Err(LoadError::Parse(HeaderParseError::MissingField(key))) => assert_eq!(key, "title"),
        other => panic!("unexpected: {:?}", other),
    }
}

#[test]
fn a_slug_without_file_is_not_found_and_no_error() {
    let service = MarkdownBlogService::new();
    assert!(matches!(service.get_post_by_slug("missing", None), Ok(None)));
}

#[test]
fn a_file_that_cannot_be_read_is_skipped_in_a_listing_and_an_error_by_slug() {
    let service = MarkdownBlogService::new();
    let mut files = three_files();
    files.push(SourceFile {
        name: "d.md".to_string(),
        content: FileContent::Unreadable("permission denied".to_string()),
    });
    assert_eq!(slugs(&service.get_published_posts(&files, 1, 10)), vec!["b", "a"]);
    match service.get_post_by_slug("d", Some(FileContent::Unreadable("gone".to_string()))) {
        Err(LoadError::Io { path, cause }) => {
            assert_eq!(path, "d.md");
            assert_eq!(cause, "gone");
        }
        other => panic!("unexpected: {:?}", other),
    }
}

#[test]
fn a_post_is_assembled_from_header_and_body() {
    let service = MarkdownBlogService::new();
    let doc = "---\ntitle: Hello\ndescription: About hello\npubDate: 2024-03-05\ntags:\n  - rust\n  - web\n---\nSome *text*.\n";
    let post = service
        .get_post_by_slug("hello", Some(FileContent::Text(doc.to_string())))
        .unwrap()
        .unwrap();
    let day = CalendarDate::new(2024, 3, 5).unwrap();
    assert_eq!(post.id, "hello");
    assert_eq!(post.slug, "hello");
    assert_eq!(post.title, "Hello");
    assert_eq!(post.content, "<p>Some <em>text</em>.</p>\n");
    assert_eq!(post.excerpt.as_deref(), Some("About hello"));
    assert_eq!(post.cover_image, None);
    assert_eq!(post.category, None);
    assert_eq!(post.tags.as_deref(), Some("rust,web"));
    assert_eq!(post.status, "published");
    assert_eq!(post.view_count, 0);
    assert_eq!(post.is_featured, 0);
    assert_eq!(post.created_at, day);
    assert_eq!(post.updated_at, day);
    assert_eq!(post.published_at, Some(day));
}

#[test]
fn an_empty_description_is_filled_in_from_the_rendered_body() {
    let long = "x".repeat(300);
    let doc = format!("---\ntitle: T\npubDate: 2024-03-05\n---\n{}\n", long);
    let (meta, html) = MarkdownBlogService::parse_markdown(&doc).unwrap();
    assert_eq!(meta.description, "");
    let post = MarkdownBlogService::assemble("t".to_string(), meta, html.clone());
    let excerpt = post.excerpt.unwrap();
    assert_eq!(excerpt.chars().count(), 200);
    assert_eq!(excerpt, html.chars().take(200).collect::<String>());
    assert!(excerpt.starts_with("<p>xxx"));
}

#[test]
fn the_slug_comes_from_the_file_name_and_never_from_the_header() {
    let service = MarkdownBlogService::new();
    let doc = "---\ntitle: Other\nslug: from-header\nid: 7\npubDate: 2024-03-05\n---\nx\n";
    let posts = service.get_published_posts(&vec![text_file("my-post.md", doc)], 1, 10);
    assert_eq!(posts.len(), 1);
    assert_eq!(posts[0].slug, "my-post");
    assert_eq!(posts[0].id, "my-post");
}

#[test]
fn only_content_files_are_looked_at() {
    let service = MarkdownBlogService::new();
    let doc = post_doc("A", "2024-01-10");
    let files = vec![
        text_file("a.txt", &doc),
        text_file("b.markdown", &doc),
        text_file("md", &doc),
        text_file(".md", &doc),
        text_file("c.MD", &doc),
        text_file("d.md", &doc),
        text_file("e.tar.md", &doc),
    ];
    assert_eq!(slugs(&service.get_published_posts(&files, 1, 10)), vec!["d", "e.tar"]);
}

#[test]
fn posts_of_one_day_keep_the_order_of_the_scan() {
    let service = MarkdownBlogService::new();
    let files = vec![
        text_file("one.md", &post_doc("Post one", "2024-02-01")),
        text_file("two.md", &post_doc("Post two", "2024-03-01")),
        text_file("three.md", &post_doc("Post three", "2024-02-01")),
        text_file("four.md", &post_doc("Post four", "2024-03-01")),
        text_file("five.md", &post_doc("Post five", "2024-02-01")),
        text_file("six.md", &post_doc("Post six", "2023-12-31")),
    ];
    assert_eq!(
        slugs(&service.get_published_posts(&files, 1, 10)),
        vec!["two", "four", "one", "three", "five", "six"]
    );
}

fn many_files(count: usize) -> Vec<SourceFile> {
    (0..count)
        .map(|i| {
            let day = 1 + (i * 7) % 28;
            let month = 1 + (i * 5) % 12;
            text_file(
                &format!("post-{}.md", i),
                &post_doc(&format!("Post {}", i), &format!("2024-{:02}-{:02}", month, day)),
            )
        })
        .collect()
}

#[test]
fn dates_never_increase_along_a_listing() {
    let service = MarkdownBlogService::new();
    let posts = service.get_published_posts(&many_files(40), 1, 100);
    assert_eq!(posts.len(), 40);
    for pair in posts.windows(2) {
        assert!(!pair[0].published_at.unwrap().is_before(&pair[1].published_at.unwrap()));
    }
}

#[test]
fn pages_laid_end_to_end_are_the_whole_listing() {
    let service = MarkdownBlogService::new();
    let files = many_files(23);
    let whole = slugs(&service.get_published_posts(&files, 1, 1000));
    assert_eq!(whole.len(), 23);
    for size in [1u32, 2, 5, 7, 23, 24] {
        let mut gathered = Vec::new();
        let mut page = 1u32;
        loop {
            let posts = service.get_published_posts(&files, page, size);
            assert!(posts.len() <= size as usize);
            if posts.is_empty() {
                break;
            }
            gathered.extend(slugs(&posts));
            page += 1;
        }
        assert_eq!(gathered, whole);
        let mut sorted = gathered.clone();
        sorted.sort();
        sorted.dedup();
        assert_eq!(sorted.len(), 23);
    }
}

#[test]
fn a_page_beyond_the_last_is_empty() {
    let service = MarkdownBlogService::new();
    let files = three_files();
    assert_eq!(slugs(&service.get_published_posts(&files, 1, 1)), vec!["b"]);
    assert_eq!(slugs(&service.get_published_posts(&files, 2, 1)), vec!["a"]);
    assert!(service.get_published_posts(&files, 3, 1).is_empty());
    assert!(service.get_published_posts(&files, 2, 10).is_empty());
    assert!(service.get_published_posts(&files, u32::MAX, u32::MAX).is_empty());
    assert!(service.get_published_posts(&files, 1, 0).is_empty());
    assert!(service.get_published_posts(&vec![], 1, 10).is_empty());
}

#[test]
fn featured_posts_are_the_first_of_the_listing() {
    let service = MarkdownBlogService::new();
    let files = many_files(10);
    let whole = slugs(&service.get_published_posts(&files, 1, 100));
    assert_eq!(slugs(&service.get_featured_posts(&files, 3)), whole[..3].to_vec());
    assert_eq!(slugs(&service.get_featured_posts(&files, 50)), whole);
    assert!(service.get_featured_posts(&files, 0).is_empty());
}

#[test]
fn the_service_stands_behind_its_trait() {
    fn first_page(service: &dyn BlogService, files: &Vec<SourceFile>) -> Vec<BlogPost> {
        service.get_published_posts(files, 1, 10)
    }
    let service = MarkdownBlogService::new();
    assert_eq!(slugs(&first_page(&service, &three_files())), vec!["b", "a"]);
    assert_eq!(service.content_dir(), "content/blog");
}

fn header_error(doc: &str) -> HeaderParseError {
    match MarkdownBlogService::parse_markdown(doc) {
        Err(e) => e,
        Ok(_) => panic!("parsed"),
    }
}

#[test]
fn each_fault_of_a_header_has_its_error() {
    assert!(matches!(header_error("title: x\n"), HeaderParseError::MissingHeader));
    assert!(matches!(header_error(""), HeaderParseError::MissingHeader));
    assert!(matches!(header_error(" ---\ntitle: x\n---\n"), HeaderParseError::MissingHeader));
    assert!(matches!(header_error("---\ntitle: x\n"), HeaderParseError::MalformedHeader));
    assert!(matches!(header_error("---\n"), HeaderParseError::MalformedHeader));
    assert!(matches!(header_error("---\ntitle: x\n---"), HeaderParseError::MalformedHeader));
    match header_error("---\ntitle: [unclosed\n---\nbody\n") {
        HeaderParseError::HeaderDecodeError(message) => assert!(!message.is_empty()),
        other => panic!("unexpected: {:?}", other),
    }
    match header_error("---\npubDate: 2024-01-01\n---\n") {
        HeaderParseError::MissingField(key) => assert_eq!(key, "title"),
        other => panic!("unexpected: {:?}", other),
    }
    match header_error("---\ntitle: x\n---\n") {
        HeaderParseError::MissingField(key) => assert_eq!(key, "pubDate"),
        other => panic!("unexpected: {:?}", other),
    }
    match header_error("---\ntitle: x\npubDate: 2024-02-30\n---\n") {
        HeaderParseError::InvalidDate(field, value) => {
            assert_eq!(field, "pubDate");
            assert_eq!(value, "2024-02-30");
        }
        other => panic!("unexpected: {:?}", other),
    }
    match header_error("---\ntitle: x\npubDate: 1 Jan 2024\n---\n") {
        HeaderParseError::InvalidDate(_, value) => assert_eq!(value, "1 Jan 2024"),
        other => panic!("unexpected: {:?}", other),
    }
}

#[test]
fn a_header_block_without_document_has_no_fields() {
    match header_error("---\n---\nbody\n") {
        HeaderParseError::MissingField(key) => assert_eq!(key, "title"),
        other => panic!("unexpected: {:?}", other),
    }
    match header_error("---\n# only a comment\n---\nbody\n") {
        HeaderParseError::MissingField(key) => assert_eq!(key, "title"),
        other => panic!("unexpected: {:?}", other),
    }
}

#[test]
fn a_title_that_is_no_string_is_missing() {
    match header_error("---\ntitle: 2024\npubDate: 2024-01-01\n---\n") {
        HeaderParseError::MissingField(key) => assert_eq!(key, "title"),
        other => panic!("unexpected: {:?}", other),
    }
}

#[test]
fn windows_line_endings_are_normalized() {
    let doc = "---\r\ntitle: Hello\r\npubDate: 2024-03-05\r\n---\r\nLine one\r\nLine two\r\n";
    let (meta, html) = MarkdownBlogService::parse_markdown(doc).unwrap();
    assert_eq!(meta.title, "Hello");
    assert_eq!(meta.published_at, CalendarDate::new(2024, 3, 5).unwrap());
    assert_eq!(html, "<p>Line one\nLine two</p>\n");
}

#[test]
fn absent_tags_are_an_empty_list_in_the_response() {
    let (meta, html) = MarkdownBlogService::parse_markdown(&post_doc("A", "2024-01-10")).unwrap();
    assert_eq!(meta.tags, "");
    let post = MarkdownBlogService::assemble("a".to_string(), meta, html);
    assert_eq!(post.tags.as_deref(), Some(""));
    let response = BlogPostResponse::from(post);
    assert_eq!(response.tags, Vec::<String>::new());

    let doc = "---\ntitle: A\npubDate: 2024-01-10\ntags: []\n---\nx\n";
    let (meta, html) = MarkdownBlogService::parse_markdown(doc).unwrap();
    let response: BlogPostResponse =
        MarkdownBlogService::assemble("a".to_string(), meta, html).into();
    assert!(response.tags.is_empty());
}

#[test]
fn tags_that_are_no_strings_are_passed_over() {
    let doc = "---\ntitle: A\npubDate: 2024-01-10\ntags:\n  - rust\n  - 42\n  - true\n  - web\n---\nx\n";
    let (meta, _) = MarkdownBlogService::parse_markdown(doc).unwrap();
    assert_eq!(meta.tags, "rust,web");
    let doc = "---\ntitle: A\npubDate: 2024-01-10\ntags: rust\n---\nx\n";
    let (meta, _) = MarkdownBlogService::parse_markdown(doc).unwrap();
    assert_eq!(meta.tags, "");
}

fn sample_post(tags: Option<&str>, featured: i8, published: bool) -> BlogPost {
    let day = CalendarDate::new(2024, 1, 15).unwrap();
    BlogPost {
        id: "id".to_string(),
        title: "Title".to_string(),
        slug: "slug".to_string(),
        content: "<p>x</p>".to_string(),
        excerpt: Some("ex".to_string()),
        cover_image: Some("cover.png".to_string()),
        category: Some("tech".to_string()),
        tags: tags.map(|t| t.to_string()),
        status: "draft".to_string(),
        view_count: 12,
        is_featured: featured,
        created_at: CalendarDate::new(2023, 12, 31).unwrap(),
        updated_at: day,
        published_at: if published { Some(day) } else { None },
    }
}

#[test]
fn a_response_reports_the_post() {
    let response = BlogPostResponse::from(sample_post(Some("rust, web ,,  "), 1, true));
    assert_eq!(response.id, "id");
    assert_eq!(response.title, "Title");
    assert_eq!(response.slug, "slug");
    assert_eq!(response.content, "<p>x</p>");
    assert_eq!(response.excerpt.as_deref(), Some("ex"));
    assert_eq!(response.cover_image.as_deref(), Some("cover.png"));
    assert_eq!(response.category.as_deref(), Some("tech"));
    assert_eq!(response.tags, vec!["rust", "web"]);
    assert_eq!(response.status, "draft");
    assert_eq!(response.view_count, 12);
    assert!(response.is_featured);
    assert_eq!(response.created_at, "2023-12-31T00:00:00+00:00");
    assert_eq!(response.updated_at, "2024-01-15T00:00:00+00:00");
    assert_eq!(response.published_at.as_deref(), Some("2024-01-15T00:00:00+00:00"));

    let response = BlogPostResponse::from(sample_post(None, 0, false));
    assert!(response.tags.is_empty());
    assert!(!response.is_featured);
    assert_eq!(response.published_at, None);
    assert!(BlogPostResponse::from(sample_post(None, -1, false)).is_featured);
}

#[test]
fn tags_are_read_from_a_list_with_commas_or_from_json() {
    assert_eq!(split_tags("a,b"), vec!["a", "b"]);
    assert_eq!(split_tags(" a , b b ,\u{3000}c\t"), vec!["a", "b b", "c"]);
    assert_eq!(split_tags(""), Vec::<String>::new());
    assert_eq!(split_tags(",, ,"), Vec::<String>::new());
    assert_eq!(tags_from_field(&None), Vec::<String>::new());
    assert_eq!(tags_from_field(&Some("x,y".to_string())), vec!["x", "y"]);
    assert_eq!(tags_from_field(&Some("[\"x\", \"y, z\"]".to_string())), vec!["x", "y, z"]);
    assert_eq!(tags_from_field(&Some("[]".to_string())), Vec::<String>::new());
    assert_eq!(tags_from_field(&Some("[1, 2]".to_string())), Vec::<String>::new());
    assert_eq!(tags_from_field(&Some("[broken".to_string())), Vec::<String>::new());
    assert_eq!(tags_from_field(&Some(" [\"x\"]".to_string())), vec!["[\"x\"]"]);
}
