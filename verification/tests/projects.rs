use portfolio_pulse::dates::CalendarDate;
use portfolio_pulse::front_matter::HeaderParseError;
use portfolio_pulse::models::project::ProjectResponse;
use portfolio_pulse::repository::{FileContent, LoadError, SourceFile};
use portfolio_pulse::services::project_markdown::MarkdownProjectService;
use portfolio_pulse::services::traits::ProjectService;

fn text_file(name: &str, content: &str) -> SourceFile {
    SourceFile { name: name.to_string(), content: FileContent::Text(content.to_string()) }
}

fn project_doc(name: &str, updated: &str) -> String {
    format!(
        "---\nname: {}\nurl: https://example.com/{}\ncreatedAt: 2023-01-01\nupdatedAt: {}\n---\nAbout {}.\n",
        name, name, updated, name
    )
}

fn ids(projects: &[ProjectResponse]) -> Vec<String> {
    projects.iter().map(|p| p.id.clone()).collect()
}

const FULL: &str = "---\nname: Pulse\ndescription: A portfolio\nurl: https://example.com/pulse\nhomepage: https://pulse.example.com\nlanguage: Rust\nstars: 42\nforks: 7\ntopics:\n  - rust\n  - axum\nstatus: draft\nfeatured: true\ncreatedAt: 2023-05-01\nupdatedAt: 2024-02-29\n---\n# Pulse\n\nHello.\n";

#[test]
fn every_field_of_a_project_header_is_read() {
    let (meta, html) = MarkdownProjectService::parse_markdown(FULL).unwrap();
    assert_eq!(meta.name, "Pulse");
    assert_eq!(meta.description, "A portfolio");
    assert_eq!(meta.url, "https://example.com/pulse");
    assert_eq!(meta.homepage.as_deref(), Some("https://pulse.example.com"));
    assert_eq!(meta.language, "Rust");
    assert_eq!(meta.stars, 42);
    assert_eq!(meta.forks, 7);
    assert_eq!(meta.topics, vec!["rust", "axum"]);
    assert_eq!(meta.status, "draft");
    assert!(meta.featured);
    assert_eq!(meta.created_at, CalendarDate::new(2023, 5, 1).unwrap());
    assert_eq!(meta.updated_at, CalendarDate::new(2024, 2, 29).unwrap());
    assert_eq!(html, "<h1>Pulse</h1>\n<p>Hello.</p>\n");
}

#[test]
fn what_a_project_header_leaves_open_has_its_default() {
    let (meta, _) = MarkdownProjectService::parse_markdown(&project_doc("p", "2024-01-01")).unwrap();
    assert_eq!(meta.description, "");
    assert_eq!(meta.homepage, None);
    assert_eq!(meta.language, "Unknown");
    assert_eq!(meta.stars, 0);
    assert_eq!(meta.forks, 0);
    assert!(meta.topics.is_empty());
    assert_eq!(meta.status, "active");
    assert!(!meta.featured);
}

#[test]
fn a_counter_is_cut_to_32_bits() {
    let doc = "---\nname: p\nurl: u\nstars: 4294967298\nforks: -1\ncreatedAt: 2023-01-01\nupdatedAt: 2023-01-02\n---\n";
    let (meta, _) = MarkdownProjectService::parse_markdown(doc).unwrap();
    assert_eq!(meta.stars, 2);
    assert_eq!(meta.forks, -1);
    let doc = "---\nname: p\nurl: u\nstars: many\nforks: 1.5\ncreatedAt: 2023-01-01\nupdatedAt: 2023-01-02\n---\n";
    let (meta, _) = MarkdownProjectService::parse_markdown(doc).unwrap();
    assert_eq!(meta.stars, 0);
    assert_eq!(meta.forks, 0);
}

fn header_error(doc: &str) -> HeaderParseError {
    match MarkdownProjectService::parse_markdown(doc) {
        Err(e) => e,
        Ok(_) => panic!("parsed"),
    }
}

fn missing(doc: &str) -> String {
    match header_error(doc) {
        HeaderParseError::MissingField(key) => key,
        other => panic!("unexpected: {:?}", other),
    }
}

#[test]
fn required_fields_are_asked_for_in_order() {
    assert_eq!(missing("---\nx: 1\n---\n"), "name");
    assert_eq!(missing("---\nname: p\n---\n"), "url");
    assert_eq!(missing("---\nname: p\nurl: u\nupdatedAt: nonsense\n---\n"), "createdAt");
    assert_eq!(missing("---\nname: p\nurl: u\ncreatedAt: nonsense\n---\n"), "updatedAt");
    match header_error("---\nname: p\nurl: u\ncreatedAt: nonsense\nupdatedAt: worse\n---\n") {
        HeaderParseError::InvalidDate(field, value) => {
            assert_eq!(field, "createdAt");
            assert_eq!(value, "nonsense");
        }
        other => panic!("unexpected: {:?}", other),
    }
    match header_error("---\nname: p\nurl: u\ncreatedAt: 2023-01-01\nupdatedAt: 2023-13-01\n---\n") {
        HeaderParseError::InvalidDate(field, value) => {
            assert_eq!(field, "updatedAt");
            assert_eq!(value, "2023-13-01");
        }
        other => panic!("unexpected: {:?}", other),
    }
    assert!(matches!(header_error("name: p\n"), HeaderParseError::MissingHeader));
    assert!(matches!(header_error("---\nname: p\n"), HeaderParseError::MalformedHeader));
    assert!(matches!(
        header_error("---\nname: \"p\n---\n"),
        HeaderParseError::HeaderDecodeError(_)
    ));
}

#[test]
fn projects_are_listed_by_their_last_update() {
    let service = MarkdownProjectService::new();
    let files = vec![
        text_file("old.md", &project_doc("old", "2022-06-01")),
        text_file("bad.md", "---\nname: bad\n---\n"),
        text_file("new.md", &project_doc("new", "2024-06-01")),
        text_file("notes.txt", &project_doc("notes", "2025-01-01")),
        text_file("mid.md", &project_doc("mid", "2023-06-01")),
        text_file("twin.md", &project_doc("twin", "2023-06-01")),
    ];
    let projects = service.get_all_projects(&files);
    assert_eq!(ids(&projects), vec!["new", "mid", "twin", "old"]);
    assert_eq!(projects[0].updated_at, "2024-06-01T00:00:00+00:00");
    assert_eq!(projects[0].name, "new");
    assert_eq!(projects[0].html_url, "https://example.com/new");
    assert_eq!(projects[0].language, "Unknown");
    assert_eq!(projects[0].description, "<p>About new.</p>\n");
    assert_eq!(ids(&service.get_featured_projects(&files)), vec!["new", "mid", "twin"]);
    let listed = service.list_projects(&files);
    assert_eq!(listed.len(), 4);
    assert_eq!(listed[3].slug, "old");
    assert_eq!(listed[3].body_html, "<p>About old.</p>\n");
    assert_eq!(listed[3].metadata.description, "<p>About old.</p>\n");
}

#[test]
fn fewer_than_three_projects_are_all_featured() {
    let service = MarkdownProjectService::new();
    let files = vec![text_file("only.md", &project_doc("only", "2022-06-01"))];
    assert_eq!(ids(&service.get_featured_projects(&files)), vec!["only"]);
    assert!(service.get_featured_projects(&vec![]).is_empty());
    assert!(service.get_all_projects(&vec![]).is_empty());
}

#[test]
fn a_project_is_found_by_its_slug() {
    let service = MarkdownProjectService::new();
    let project = service
        .get_project_by_slug("pulse", Some(FileContent::Text(FULL.to_string())))
        .unwrap()
        .unwrap();
    assert_eq!(project.id, "pulse");
    assert_eq!(project.name, "Pulse");
    assert_eq!(project.description, "A portfolio");
    assert_eq!(project.html_url, "https://example.com/pulse");
    assert_eq!(project.homepage.as_deref(), Some("https://pulse.example.com"));
    assert_eq!(project.language, "Rust");
    assert_eq!(project.stargazers_count, 42);
    assert_eq!(project.forks_count, 7);
    assert_eq!(project.topics, vec!["rust", "axum"]);
    assert_eq!(project.updated_at, "2024-02-29T00:00:00+00:00");
    assert!(matches!(service.get_project_by_slug("pulse", None), Ok(None)));
    match service.get_project_by_slug("bad", Some(FileContent::Text("---\nname: x\n---\n".into()))) {
        Err(LoadError::Parse(HeaderParseError::MissingField(key))) => assert_eq!(key, "url"),
        other => panic!("unexpected: {:?}", other),
    }
    match service.get_project_by_slug("x", Some(FileContent::Unreadable("denied".into()))) {
        Err(LoadError::Io { path, cause }) => {
            assert_eq!(path, "x.md");
            assert_eq!(cause, "denied");
        }
        other => panic!("unexpected: {:?}", other),
    }
}

#[test]
fn the_project_service_stands_behind_its_trait() {
    fn all(service: &dyn ProjectService, files: &Vec<SourceFile>) -> Vec<ProjectResponse> {
        service.get_all_projects(files)
    }
    let service = MarkdownProjectService::new();
    let files = vec![text_file("only.md", &project_doc("only", "2022-06-01"))];
    assert_eq!(ids(&all(&service, &files)), vec!["only"]);
    assert_eq!(service.content_dir(), "content/projects");
}

#[test]
fn a_date_may_be_written_without_padding() {
    let doc = "---\nname: p\nurl: u\ncreatedAt: 2023-1-5\nupdatedAt: 2023-01-06\n---\n";
    let (meta, _) = MarkdownProjectService::parse_markdown(doc).unwrap();
    assert_eq!(meta.created_at, CalendarDate::new(2023, 1, 5).unwrap());
}
