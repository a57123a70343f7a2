use portfolio_pulse::front_matter::{decode_header, split_document, HeaderParseError};
use portfolio_pulse::header_value::{decode_documents, HeaderValue};
use portfolio_pulse::repository::{FileContent, LoadError, SourceFile};
use portfolio_pulse::services::blog_markdown::MarkdownBlogService;
use portfolio_pulse::services::project_markdown::MarkdownProjectService;

fn parts(doc: &str) -> (String, String) {
    split_document(doc).unwrap()
}

#[test]
fn a_document_splits_at_its_first_two_delimiters() {
    assert_eq!(parts("---\na: 1\n---\nbody\n"), ("a: 1\n".to_string(), "body\n".to_string()));
    assert_eq!(parts("---\n---\n"), (String::new(), String::new()));
    assert_eq!(
        parts("---\na: 1\n---\nbody\n---\nmore\n"),
        ("a: 1\n".to_string(), "body\n---\nmore\n".to_string())
    );
    assert_eq!(parts("---\r\na: 1\r\n---\r\nbody\r\n"), ("a: 1\n".to_string(), "body\n".to_string()));
    assert_eq!(parts("---\n---\n---\n"), (String::new(), "---\n".to_string()));
}

#[test]
fn a_delimiter_counts_wherever_it_stands() {
    // the delimiter is three hyphens and a line break, also at the end of a longer line
    assert_eq!(parts("---\na: b---\nc\n---\nd"), ("a: b".to_string(), "c\n---\nd".to_string()));
    assert_eq!(parts("---\na: 1\n-----\nbody"), ("a: 1\n--".to_string(), "body".to_string()));
}

#[test]
fn a_document_without_delimiters_does_not_split() {
    assert!(matches!(split_document(""), Err(HeaderParseError::MissingHeader)));
    assert!(matches!(split_document("--\n"), Err(HeaderParseError::MissingHeader)));
    assert!(matches!(split_document("\n---\na\n---\n"), Err(HeaderParseError::MissingHeader)));
    assert!(matches!(split_document("---a\n---\n"), Err(HeaderParseError::MissingHeader)));
    assert!(matches!(split_document("---\n"), Err(HeaderParseError::MalformedHeader)));
    assert!(matches!(split_document("---\na: 1\n--\n"), Err(HeaderParseError::MalformedHeader)));
    assert!(matches!(split_document("---\na: 1\n---"), Err(HeaderParseError::MalformedHeader)));
    assert!(matches!(split_document("---\r---\n"), Err(HeaderParseError::MissingHeader)));
    assert!(matches!(split_document("---\na\n---\r"), Err(HeaderParseError::MalformedHeader)));
}

#[test]
fn a_header_block_is_decoded_into_a_tree() {
    let docs = decode_documents("a: text\nb: 12\nc: true\nd: 1.5\ne: ~\nf:\n  - x\n  - 2\ng:\n  h: i\n")
        .unwrap();
    assert_eq!(docs.len(), 1);
    let doc = &docs[0];
    assert!(matches!(doc, HeaderValue::Table(entries) if entries.len() == 7));
    assert!(matches!(doc.get("a"), Some(HeaderValue::Text(t)) if t == "text"));
    assert!(matches!(doc.get("b"), Some(HeaderValue::Integer(12))));
    assert!(matches!(doc.get("c"), Some(HeaderValue::Flag(true))));
    assert!(matches!(doc.get("d"), Some(HeaderValue::Real(r)) if r == "1.5"));
    assert!(matches!(doc.get("e"), Some(HeaderValue::Null)));
    assert!(matches!(doc.get("f"), Some(HeaderValue::List(items)) if items.len() == 2));
    assert!(matches!(doc.get("g"), Some(HeaderValue::Table(entries)) if entries.len() == 1));
    assert!(doc.get("z").is_none());
    assert!(doc.get("g").unwrap().get("h").is_some());
    assert!(doc.get("a").unwrap().get("h").is_none());
}

#[test]
fn fields_are_read_by_type() {
    let doc = decode_header("a: text\nb: 12\nc: true\nf:\n  - x\n  - 2\n  - y\n12: number\n").unwrap();
    assert_eq!(doc.get_string("a").as_deref(), Some("text"));
    assert_eq!(doc.get_string("b"), None);
    assert_eq!(doc.get_string("z"), None);
    assert_eq!(doc.get_string("12"), None);
    assert_eq!(doc.get_int("b"), Some(12));
    assert_eq!(doc.get_int("a"), None);
    assert_eq!(doc.get_bool("c"), Some(true));
    assert_eq!(doc.get_bool("b"), None);
    assert_eq!(doc.get_list_of_string("f"), Some(vec!["x".to_string(), "y".to_string()]));
    assert_eq!(doc.get_list_of_string("a"), None);
    assert_eq!(HeaderValue::Bad.get_string("a"), None);
    assert_eq!(HeaderValue::Integer(3).get_int("a"), None);
}

#[test]
fn scalars_in_quotes_are_strings() {
    let doc = decode_header("a: \"12\"\nb: 'true'\nc: 2024-01-15\n").unwrap();
    assert_eq!(doc.get_string("a").as_deref(), Some("12"));
    assert_eq!(doc.get_string("b").as_deref(), Some("true"));
    assert_eq!(doc.get_string("c").as_deref(), Some("2024-01-15"));
}

#[test]
fn a_block_that_is_no_yaml_is_an_error_with_the_decoder_s_message() {
    for block in ["a: [1, 2", "a: \"open", "a: b: c", "- x\ny: z"] {
        let theirs = match yaml_rust::YamlLoader::load_from_str(block) {
            Err(e) => e.to_string(),
            Ok(docs) => panic!("decoded {:?}", docs),
        };
        assert!(theirs.contains("line"));
        match decode_documents(block) {
            Err(message) => assert_eq!(message, theirs),
            Ok(docs) => panic!("decoded {:?}", docs),
        }
        match decode_header(block) {
            Err(HeaderParseError::HeaderDecodeError(message)) => assert_eq!(message, theirs),
            other => panic!("unexpected: {:?}", other),
        }
    }
    assert!(matches!(decode_header("a: \"open"), Err(HeaderParseError::HeaderDecodeError(_))));
}

#[test]
fn only_the_first_document_of_a_block_counts() {
    assert!(matches!(decode_header(""), Ok(HeaderValue::Bad)));
    let doc = decode_header("a: 1\n...\n---\na: 2\n").unwrap();
    assert_eq!(doc.get_int("a"), Some(1));
    assert_eq!(decode_documents("a: 1\n...\n---\na: 2\n").unwrap().len(), 2);
}

#[test]
fn the_fields_of_a_document_are_those_of_its_header_block_alone() {
    let block = "title: Hello\ndescription: d\npubDate: 2024-03-05\ntags:\n  - a\n";
    let body = "Some text.\n";
    let document = format!("---\n{}---\n{}", block, body);
    let (meta, html) = MarkdownBlogService::parse_markdown(&document).unwrap();
    let alone = MarkdownBlogService::read_header(&decode_header(block).unwrap()).unwrap();
    assert_eq!(meta.title, alone.title);
    assert_eq!(meta.description, alone.description);
    assert_eq!(meta.published_at, alone.published_at);
    assert_eq!(meta.tags, alone.tags);
    assert_eq!(html, portfolio_pulse::markdown::render_body(body));

    let block = "name: p\nurl: u\nstars: 3\ncreatedAt: 2023-01-01\nupdatedAt: 2023-02-01\n";
    let document = format!("---\n{}---\n{}", block, body);
    let (meta, _) = MarkdownProjectService::parse_markdown(&document).unwrap();
    let alone = MarkdownProjectService::read_header(&decode_header(block).unwrap()).unwrap();
    assert_eq!(meta.name, alone.name);
    assert_eq!(meta.url, alone.url);
    assert_eq!(meta.stars, alone.stars);
    assert_eq!(meta.created_at, alone.created_at);
    assert_eq!(meta.updated_at, alone.updated_at);

    let block = "description: no title\n";
    let document = format!("---\n{}---\n{}", block, body);
    let whole = MarkdownBlogService::parse_markdown(&document);
    let alone = MarkdownBlogService::read_header(&decode_header(block).unwrap());
    assert!(matches!(whole, Err(HeaderParseError::MissingField(k)) if k == "title"));
    assert!(matches!(alone, Err(HeaderParseError::MissingField(k)) if k == "title"));
}

#[test]
fn skipped_files_are_named_with_their_errors() {
    let files = vec![
        SourceFile {
            name: "good.md".to_string(),
            content: FileContent::Text("---\ntitle: t\npubDate: 2024-01-01\n---\n".to_string()),
        },
        SourceFile {
            name: "bad.md".to_string(),
            content: FileContent::Text("no header".to_string()),
        },
        SourceFile {
            name: "notes.txt".to_string(),
            content: FileContent::Text("no header".to_string()),
        },
        SourceFile {
            name: "lost.md".to_string(),
            content: FileContent::Unreadable("gone".to_string()),
        },
    ];
    let failures = MarkdownBlogService::load_failures(&files);
    assert_eq!(failures.len(), 2);
    assert_eq!(failures[0].0, "bad.md");
    assert!(matches!(failures[0].1, LoadError::Parse(HeaderParseError::MissingHeader)));
    assert_eq!(failures[1].0, "lost.md");
    assert!(matches!(&failures[1].1, LoadError::Io { path, cause } if path == "lost.md" && cause == "gone"));
    assert_eq!(MarkdownBlogService::load_all(&files).len(), 1);
    let failures = MarkdownProjectService::load_failures(&files);
    assert_eq!(failures.len(), 3);
    assert!(matches!(&failures[0].1, LoadError::Parse(HeaderParseError::MissingField(k)) if k == "name"));
    assert!(MarkdownProjectService::load_all(&files).is_empty());
}
