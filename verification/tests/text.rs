use portfolio_pulse::markdown::{backfill_description, leading_chars, render_body};
use portfolio_pulse::repository::{
    content_file_name, file_extension, file_stem, is_content_file,
};
use portfolio_pulse::text::{
    chars_of, decimal_string, find_from, is_whitespace, join, matches_at, normalized,
    parse_flag, parse_unsigned, same_chars, same_text, split, string_of, string_of_range, trim,
};
use std::path::Path;

fn chars(s: &str) -> Vec<char> {
    s.chars().collect()
}

#[test]
fn text_goes_to_characters_and_back() {
    let text = "héllo, 世界! 🦀";
    assert_eq!(chars_of(text), chars(text));
    assert_eq!(string_of(&chars(text)), text);
    assert_eq!(string_of_range(&chars(text), 7, 9), "世界");
    assert_eq!(string_of_range(&chars(text), 3, 3), "");
    assert!(same_text("世界", "世界"));
    assert!(!same_text("世界", "世"));
    assert!(!same_text("ab", "ac"));
    assert!(same_chars(&chars(""), &chars("")));
}

#[test]
fn line_endings_are_normalized_as_replace_does() {
    for text in ["", "a\r\nb", "\r\n", "\r\r\n\n", "a\rb", "\r", "x\r\n\r\ny\r", "\n\r\n\r"] {
        assert_eq!(string_of(&normalized(&chars(text))), text.replace("\r\n", "\n"));
    }
}

#[test]
fn the_first_match_is_found() {
    let hay = chars("---\na: 1\n---\nbody ---\n");
    let mark = chars("---\n");
    assert!(matches_at(&hay, &mark, 0));
    assert!(!matches_at(&hay, &mark, 1));
    assert!(!matches_at(&hay, &mark, 100));
    assert_eq!(find_from(&hay, &mark, 0), Some(0));
    assert_eq!(find_from(&hay, &mark, 1), Some(9));
    assert_eq!(find_from(&hay, &mark, 4), Some(9));
    assert_eq!(find_from(&hay, &mark, 10), Some(18));
    assert_eq!(find_from(&hay, &mark, 19), None);
    assert_eq!(find_from(&hay, &mark, 500), None);
    assert_eq!(find_from(&chars("ab"), &chars(""), 2), Some(2));
    assert_eq!(find_from(&chars("ab"), &chars(""), 3), None);
}

#[test]
fn whitespace_is_what_the_standard_library_says() {
    let mut n = 0u32;
    while n <= 0x10ffff {
        if let Some(c) = char::from_u32(n) {
            assert_eq!(is_whitespace(c), c.is_whitespace(), "U+{:04X}", n);
        }
        n += 1;
    }
}

#[test]
fn trimming_is_what_the_standard_library_does() {
    for text in [
        "",
        " ",
        "  a  ",
        "\t\na b\r\n",
        "\u{3000}x\u{a0}",
        "\u{2003}\u{2028}y z\u{205f}\u{1680}",
        "abc",
        " \u{200b} ",
        "\u{85}\u{202f}",
    ] {
        assert_eq!(trim(text), text.trim());
    }
}

#[test]
fn splitting_is_what_the_standard_library_does() {
    for text in ["", ",", "a", "a,b", ",a,,b,", "a:b", ",,", "世,界"] {
        let pieces: Vec<String> = split(text, ',').iter().map(string_of).collect();
        let expected: Vec<String> = text.split(',').map(|p| p.to_string()).collect();
        assert_eq!(pieces, expected);
    }
}

#[test]
fn joining_puts_the_separator_between() {
    let parts = |v: &[&str]| v.iter().map(|s| s.to_string()).collect::<Vec<String>>();
    assert_eq!(join(&parts(&[]), ","), "");
    assert_eq!(join(&parts(&["a"]), ","), "a");
    assert_eq!(join(&parts(&["a", "b", "c"]), ", "), "a, b, c");
    assert_eq!(join(&parts(&["", ""]), "-"), "-");
}

#[test]
fn numbers_are_written_in_decimal() {
    for n in [0u64, 1, 9, 10, 11, 99, 100, 8000, 65535, 1234567890, u64::MAX] {
        assert_eq!(decimal_string(n), n.to_string());
    }
}

#[test]
fn numbers_are_read_as_the_standard_library_reads_them() {
    for text in [
        "", "+", "-", "0", "+0", "-0", "007", "8000", "65535", "65536", "+65535", "++1", "1+",
        " 1", "1 ", "12a", "a12", "１２", "4294967295", "4294967296", "18446744073709551615",
        "18446744073709551616", "99999999999999999999999", "0x10", "1_000", "1e3", "٣",
    ] {
        assert_eq!(
            parse_unsigned(text, u16::MAX as u64),
            text.parse::<u16>().ok().map(|v| v as u64),
            "{:?} as u16",
            text
        );
        assert_eq!(
            parse_unsigned(text, u32::MAX as u64),
            text.parse::<u32>().ok().map(|v| v as u64),
            "{:?} as u32",
            text
        );
        assert_eq!(parse_unsigned(text, u64::MAX), text.parse::<u64>().ok(), "{:?} as u64", text);
    }
    assert_eq!(parse_unsigned("5", 4), None);
    assert_eq!(parse_unsigned("4", 4), Some(4));
    assert_eq!(parse_unsigned("0", 0), Some(0));
}

#[test]
fn booleans_are_read_as_the_standard_library_reads_them() {
    for text in ["true", "false", "True", "FALSE", "1", "0", "", " true", "yes", "truee"] {
        assert_eq!(parse_flag(text), text.parse::<bool>().ok(), "{:?}", text);
    }
}

#[test]
fn stems_and_extensions_are_what_the_standard_library_says() {
    for name in [
        "a.md", "a", ".md", ".hidden.md", "a.b.md", "a.", "..", "...", "a..md", "md", "a.MD",
        "post.markdown", "x.md.bak", ".", "", "世界.md", "a b.md", "..md",
    ] {
        let path = Path::new(name);
        let stem = path.file_stem().map(|s| s.to_str().unwrap().to_string());
        let extension = path.extension().map(|s| s.to_str().unwrap().to_string());
        if let Some(stem) = stem {
            assert_eq!(file_stem(name), stem, "stem of {:?}", name);
        }
        if path.file_name().is_some() {
            assert_eq!(file_extension(name), extension, "extension of {:?}", name);
        }
        assert_eq!(is_content_file(name), extension.as_deref() == Some("md"), "{:?}", name);
    }
    assert_eq!(file_stem("hello-world.md"), "hello-world");
    assert_eq!(file_extension("hello-world.md").as_deref(), Some("md"));
    assert_eq!(file_stem(".."), "..");
    assert_eq!(file_extension(".."), None);
}

#[test]
fn a_slug_names_its_file() {
    assert_eq!(content_file_name("hello"), "hello.md");
    assert_eq!(content_file_name("a.b"), "a.b.md");
    assert_eq!(file_stem(&content_file_name("a.b")), "a.b");
    assert!(is_content_file(&content_file_name("x")));
}

#[test]
fn a_description_is_cut_from_the_start() {
    assert_eq!(leading_chars("hello", 3), "hel");
    assert_eq!(leading_chars("hello", 5), "hello");
    assert_eq!(leading_chars("hello", 9), "hello");
    assert_eq!(leading_chars("hello", 0), "");
    assert_eq!(leading_chars("世界你好", 2), "世界");
    assert_eq!(backfill_description("given".to_string(), "<p>x</p>"), "given");
    assert_eq!(backfill_description(String::new(), "<p>x</p>"), "<p>x</p>");
    let long = "é".repeat(250);
    assert_eq!(backfill_description(String::new(), &long), "é".repeat(200));
    assert_eq!(backfill_description(" ".to_string(), &long), " ");
}

fn visible_text(html: &str) -> String {
    let mut out = String::new();
    let mut inside = false;
    for c in html.chars() {
        if c == '<' {
            inside = true;
        } else if c == '>' {
            inside = false;
        } else if !inside {
            out.push(c);
        }
    }
    out
}

#[test]
fn plain_paragraphs_keep_their_text() {
    assert_eq!(render_body("Hello world"), "<p>Hello world</p>\n");
    assert_eq!(render_body(""), "");
    let body = "First paragraph here.\n\nSecond paragraph, with words.\n\nThird.";
    let html = render_body(body);
    assert_eq!(
        html,
        "<p>First paragraph here.</p>\n<p>Second paragraph, with words.</p>\n<p>Third.</p>\n"
    );
    let text: String = visible_text(&html).split_whitespace().collect::<Vec<_>>().join(" ");
    let original: String = body.split_whitespace().collect::<Vec<_>>().join(" ");
    assert_eq!(text, original);
}

#[test]
fn markup_is_rendered_and_the_rest_comes_through() {
    assert_eq!(render_body("# Title"), "<h1>Title</h1>\n");
    assert_eq!(
        render_body("a **b** and `c`"),
        "<p>a <strong>b</strong> and <code>c</code></p>\n"
    );
    assert_eq!(render_body("* one\n* two"), "<ul>\n<li>one</li>\n<li>two</li>\n</ul>\n");
    assert_eq!(render_body("**unclosed"), "<p>**unclosed</p>\n");
    assert_eq!(render_body("1 < 2"), "<p>1 &lt; 2</p>\n");
}
