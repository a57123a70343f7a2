//! The blog: posts out of a directory of documents.
//!
//! A post's document carries `title` and `pubDate` in its header, and
//! `description` and `tags` if its author wished. Its slug is the stem of
//! its file's name.

use crate::dates::{chrono_rfc3339_date, date_before, CalendarDate};
use crate::front_matter::{
    composed, decode_header, decoded_header, delimiter, lemma_composed_splits, split_document,
    split_text, HeaderFault, HeaderParseError,
};
use crate::text::{normalize_newlines, occurs_at};
use crate::header_value::{HeaderTree, HeaderValue};
use crate::listing::{
    is_newest_first, lemma_newest_first_map, lemma_page_bounds, lemma_page_of_map,
    newest_first, page_of, page_start, paginate, sort_newest_first, HasDate,
};
use crate::markdown::{backfill_description, description_or_excerpt, markdown_html, render_body};
use crate::models::blog::{BlogPost, BlogPostView};
use crate::repository::{
    content_file_name, content_name_of, file_stem, is_content_file, is_content_name,
    lemma_slugs_differ, stem_of,
    FileContent, FileContentView, LoadError, LoadFault, SourceFile, SourceFileView,
};
use crate::text::{join, joined};
use crate::services::traits::BlogService;
use vstd::prelude::*;
use vstd::string::StringExecFns;

verus! {

/// What the header of a post's document says.
#[derive(Debug)]
pub struct BlogMetadata {
    pub title: String,
    pub description: String,
    pub published_at: CalendarDate,
    /// The tags, separated by commas.
    pub tags: String,
}

/// The mathematical value of a `BlogMetadata`.
pub struct BlogHeader {
    pub title: Seq<char>,
    pub description: Seq<char>,
    pub published_at: (int, int, int),
    pub tags: Seq<char>,
}

impl DeepView for BlogMetadata {
    type V = BlogHeader;

    open spec fn deep_view(&self) -> BlogHeader {
        BlogHeader {
            title: self.title@,
            description: self.description@,
            published_at: self.published_at@,
            tags: self.tags@,
        }
    }
}

/// The text whose date is read for a `pubDate`: the midnight that starts
/// the day, in UTC.
pub open spec fn midnight_of(day: Seq<char>) -> Seq<char> {
    day + "T00:00:00Z"@
}

/// The header of a post, read out of the decoded header block. `title`
/// and `pubDate` must be there, and `pubDate` must be a date; a
/// description that is absent is empty, and so are tags that are absent.
pub open spec fn post_header_of(doc: HeaderTree) -> Result<BlogHeader, HeaderFault> {
    if doc.text_at("title"@) is None {
        Err(HeaderFault::MissingField("title"@))
    } else if doc.text_at("pubDate"@) is None {
        Err(HeaderFault::MissingField("pubDate"@))
    } else {
        let day = doc.text_at("pubDate"@)->0;
        match chrono_rfc3339_date(midnight_of(day)) {
            None => Err(HeaderFault::InvalidDate("pubDate"@, day)),
            Some(date) => Ok(
                BlogHeader {
                    title: doc.text_at("title"@)->0,
                    description: match doc.text_at("description"@) {
                        Some(d) => d,
                        None => Seq::empty(),
                    },
                    published_at: date,
                    tags: match doc.texts_at("tags"@) {
                        Some(tags) => joined(tags, ","@),
                        None => Seq::empty(),
                    },
                },
            ),
        }
    }
}

/// What parsing a post's document gives: its header and its body as
/// HTML, or the first fault on the way: the split, then the decoding,
/// then the fields.
pub open spec fn parsed_post(content: Seq<char>) -> Result<(BlogHeader, Seq<char>), HeaderFault> {
    match split_text(content) {
        Err(fault) => Err(fault),
        Ok((block, body)) => match decoded_header(block) {
            Err(fault) => Err(fault),
            Ok(doc) => match post_header_of(doc) {
                Err(fault) => Err(fault),
                Ok(header) => Ok((header, markdown_html(body))),
            },
        },
    }
}

/// The post of a slug, a header and a rendered body.
pub open spec fn post_of(slug: Seq<char>, header: BlogHeader, html: Seq<char>) -> BlogPostView {
    BlogPostView {
        id: slug,
        title: header.title,
        slug: slug,
        content: html,
        excerpt: Some(description_or_excerpt(header.description, html)),
        cover_image: None,
        category: None,
        tags: Some(header.tags),
        status: "published"@,
        view_count: 0,
        is_featured: 0,
        created_at: header.published_at,
        updated_at: header.published_at,
        published_at: Some(header.published_at),
    }
}

/// What is read out of a header block taken alone: its fields, or the
/// fault of decoding it or of reading them.
pub open spec fn post_fields_of(block: Seq<char>) -> Result<BlogHeader, HeaderFault> {
    match decoded_header(block) {
        Err(fault) => Err(fault),
        Ok(doc) => post_header_of(doc),
    }
}

/// The fields of a document's header are those of its header block taken
/// alone, and its faults are that block's faults: for every document
/// that, with its line endings normalized, is a delimiter, a header block
/// without delimiter, a delimiter and a body.
pub proof fn lemma_post_fields_from_block(
    content: Seq<char>,
    block: Seq<char>,
    body: Seq<char>,
)
    requires
        normalize_newlines(content) == composed(block, body),
        forall|i: int| !occurs_at(block, delimiter(), i),
    ensures
        match post_fields_of(block) {
            Ok(header) => parsed_post(content) == Ok::<_, HeaderFault>(
                (header, markdown_html(body)),
            ),
            Err(fault) => parsed_post(content) == Err::<(BlogHeader, Seq<char>), _>(fault),
        },
{
    lemma_composed_splits(content, block, body);
}

/// What loading the post of `slug` from a file gives.
pub open spec fn loaded_post(slug: Seq<char>, path: Seq<char>, content: FileContentView) -> Result<
    BlogPostView,
    LoadFault,
> {
    match content {
        FileContentView::Unreadable(cause) => Err(LoadFault::Io { path, cause }),
        FileContentView::Text(text) => match parsed_post(text) {
            Err(fault) => Err(LoadFault::Parse(fault)),
            Ok((header, html)) => Ok(post_of(slug, header, html)),
        },
    }
}

/// What loading a directory entry gives: the post whose slug is the stem
/// of the file's name.
pub open spec fn post_in(file: SourceFileView) -> Result<BlogPostView, LoadFault> {
    loaded_post(stem_of(file.name), file.name, file.content)
}

/// The posts of a scan, in the order of the scan: one for each content
/// file that loads. Other files, and content files that do not load, are
/// passed over.
pub open spec fn loaded_posts(files: Seq<SourceFileView>) -> Seq<BlogPostView>
    decreases files.len(),
{
    if files.len() == 0 {
        Seq::empty()
    } else {
        let before = loaded_posts(files.drop_last());
        let file = files.last();
        if is_content_name(file.name) && post_in(file) is Ok {
            before.push(post_in(file)->Ok_0)
        } else {
            before
        }
    }
}

/// Every post of a scan comes from a content file of the scan, and has
/// the stem of that file's name for its slug.
pub proof fn lemma_loaded_from_file(files: Seq<SourceFileView>, k: int)
    requires
        0 <= k < loaded_posts(files).len(),
    ensures
        exists|i: int|
            0 <= i < files.len() && is_content_name(#[trigger] files[i].name) && loaded_posts(
                files,
            )[k].slug == stem_of(files[i].name),
    decreases files.len(),
{
    if files.len() > 0 {
        let before = loaded_posts(files.drop_last());
        let file = files.last();
        if k < before.len() {
            lemma_loaded_from_file(files.drop_last(), k);
            let i = choose|i: int|
                0 <= i < files.drop_last().len() && is_content_name(
                    #[trigger] files.drop_last()[i].name,
                ) && before[k].slug == stem_of(files.drop_last()[i].name);
            assert(files[i] == files.drop_last()[i]);
        } else {
            assert(is_content_name(files[files.len() - 1].name));
        }
    }
}

/// Within a scan, where no two files have one name, no two posts have one
/// slug.
pub proof fn lemma_slugs_are_unique(files: Seq<SourceFileView>)
    requires
        forall|i: int, j: int|
            0 <= i < j < files.len() ==> #[trigger] files[i].name != #[trigger] files[j].name,
    ensures
        forall|a: int, b: int|
            0 <= a < b < loaded_posts(files).len() ==> #[trigger] loaded_posts(files)[a].slug
                != #[trigger] loaded_posts(files)[b].slug,
    decreases files.len(),
{
    if files.len() > 0 {
        let head = files.drop_last();
        let before = loaded_posts(head);
        let now = loaded_posts(files);
        let file = files.last();
        assert forall|i: int, j: int| 0 <= i < j < head.len() implies #[trigger] head[i].name
            != #[trigger] head[j].name by {
            assert(head[i] == files[i] && head[j] == files[j]);
        }
        lemma_slugs_are_unique(head);
        assert forall|a: int, b: int| 0 <= a < b < now.len() implies #[trigger] now[a].slug
            != #[trigger] now[b].slug by {
            if b < before.len() {
                assert(now[a] == before[a] && now[b] == before[b]);
            } else {
                assert(now[a] == before[a]);
                assert(now[b].slug == stem_of(file.name));
                lemma_loaded_from_file(head, a);
                let i = choose|i: int|
                    0 <= i < head.len() && is_content_name(#[trigger] head[i].name)
                        && before[a].slug == stem_of(head[i].name);
                assert(head[i] == files[i]);
                assert(files[i].name != files[files.len() - 1].name);
                if stem_of(files[i].name) == stem_of(file.name) {
                    lemma_slugs_differ(files[i].name, file.name);
                }
            }
        }
    }
}

/// One bad document takes nothing else with it: a file that is no content
/// file, or that does not load, can stand anywhere in a scan, and what is
/// loaded is the same as without it.
pub proof fn lemma_bad_file_changes_nothing(
    files: Seq<SourceFileView>,
    at: int,
    bad: SourceFileView,
)
    requires
        0 <= at <= files.len(),
        !is_content_name(bad.name) || post_in(bad) is Err,
    ensures
        loaded_posts(files.insert(at, bad)) == loaded_posts(files),
    decreases files.len() - at,
{
    let with = files.insert(at, bad);
    if at == files.len() {
        assert(with.drop_last() == files);
        assert(with.last() == bad);
    } else {
        assert(with.drop_last() == files.drop_last().insert(at, bad));
        assert(with.last() == files.last());
        lemma_bad_file_changes_nothing(files.drop_last(), at, bad);
    }
}

/// The content files of a scan that do not load, each with its fault, in
/// the order of the scan: what a listing passes over, for the log.
pub open spec fn post_failures(files: Seq<SourceFileView>) -> Seq<(Seq<char>, LoadFault)>
    decreases files.len(),
{
    if files.len() == 0 {
        Seq::empty()
    } else {
        let before = post_failures(files.drop_last());
        let file = files.last();
        if is_content_name(file.name) && post_in(file) is Err {
            before.push((file.name, post_in(file)->Err_0))
        } else {
            before
        }
    }
}

/// The listing of a scan: every post that loads, newest first.
pub open spec fn post_listing(files: Seq<SourceFileView>) -> Seq<BlogPostView> {
    newest_first(loaded_posts(files))
}

/// The map from a post to its value.
pub open spec fn post_view() -> spec_fn(BlogPost) -> BlogPostView {
    |post: BlogPost| post.deep_view()
}

/// The value of a vector of posts is the vector of their values.
pub proof fn lemma_posts_view(posts: Seq<BlogPost>)
    ensures
        posts.map_values(post_view()) == Seq::new(posts.len(), |i: int| posts[i].deep_view()),
{
    assert(posts.map_values(post_view()) =~= Seq::new(
        posts.len(),
        |i: int| posts[i].deep_view(),
    ));
}

/// The blog's content repository.
pub struct MarkdownBlogService {
    content_dir: String,
}

impl MarkdownBlogService {
    /// The directory of a service.
    pub closed spec fn dir(&self) -> Seq<char> {
        self.content_dir@
    }

    /// A service on the directory `content/blog`.
    pub fn new() -> (service: Self)
        ensures
            service.dir() == "content/blog"@,
    {
        MarkdownBlogService { content_dir: String::from_str("content/blog") }
    }

    /// The directory that holds the posts' documents.
    pub fn content_dir(&self) -> (dir: &str)
        ensures
            dir@ == self.dir(),
    {
        self.content_dir.as_str()
    }

    /// Reads the fields of a post's header out of the decoded header block.
    pub fn read_header(doc: &HeaderValue) -> (r: Result<BlogMetadata, HeaderParseError>)
        ensures
            match r {
                Ok(meta) => post_header_of(doc.deep_view()) == Ok::<_, HeaderFault>(
                    meta.deep_view(),
                ),
                Err(e) => post_header_of(doc.deep_view()) == Err::<BlogHeader, _>(e.deep_view()),
            },
    {
        let title = match doc.get_string("title") {
            Some(title) => title,
            None => {
                return Err(HeaderParseError::MissingField(String::from_str("title")));
            },
        };
        let description = match doc.get_string("description") {
            Some(description) => description,
            None => String::new(),
        };
        let day = match doc.get_string("pubDate") {
            Some(day) => day,
            None => {
                return Err(HeaderParseError::MissingField(String::from_str("pubDate")));
            },
        };
        let mut moment = day.clone();
        moment.append("T00:00:00Z");
        let published_at = match CalendarDate::parse_from_rfc3339(moment.as_str()) {
            Some(date) => date,
            None => {
                return Err(HeaderParseError::InvalidDate(String::from_str("pubDate"), day));
            },
        };
        let tags = match doc.get_list_of_string("tags") {
            Some(tags) => join(&tags, ","),
            None => String::new(),
        };
        Ok(BlogMetadata { title, description, published_at, tags })
    }

    /// Parses a post's document: splits it, decodes the header block,
    /// reads the header's fields and renders the body.
    pub fn parse_markdown(content: &str) -> (r: Result<(BlogMetadata, String), HeaderParseError>)
        ensures
            match r {
                Ok((meta, html)) => parsed_post(content@) == Ok::<_, HeaderFault>(
                    (meta.deep_view(), html@),
                ),
                Err(e) => parsed_post(content@) == Err::<(BlogHeader, Seq<char>), _>(
                    e.deep_view(),
                ),
            },
    {
        let (block, body) = match split_document(content) {
            Ok(parts) => parts,
            Err(e) => {
                return Err(e);
            },
        };
        let doc = match decode_header(block.as_str()) {
            Ok(doc) => doc,
            Err(e) => {
                return Err(e);
            },
        };
        let meta = match Self::read_header(&doc) {
            Ok(meta) => meta,
            Err(e) => {
                return Err(e);
            },
        };
        let html = render_body(body.as_str());
        Ok((meta, html))
    }

    /// Puts a post together.
    pub fn assemble(slug: String, meta: BlogMetadata, html: String) -> (post: BlogPost)
        ensures
            post.deep_view() == post_of(slug@, meta.deep_view(), html@),
    {
        let excerpt = backfill_description(meta.description, html.as_str());
        BlogPost {
            id: slug.clone(),
            title: meta.title,
            slug,
            content: html,
            excerpt: Some(excerpt),
            cover_image: None,
            category: None,
            tags: Some(meta.tags),
            status: String::from_str("published"),
            view_count: 0,
            is_featured: 0,
            created_at: meta.published_at,
            updated_at: meta.published_at,
            published_at: Some(meta.published_at),
        }
    }

    /// Loads the post of `slug` from what reading its file gave.
    pub fn load_post(slug: &str, path: &str, content: &FileContent) -> (r: Result<
        BlogPost,
        LoadError,
    >)
        ensures
            match r {
                Ok(post) => loaded_post(slug@, path@, content.deep_view()) == Ok::<_, LoadFault>(
                    post.deep_view(),
                ),
                Err(e) => loaded_post(slug@, path@, content.deep_view()) == Err::<
                    BlogPostView,
                    _,
                >(e.deep_view()),
            },
    {
        match content {
            FileContent::Unreadable(cause) => Err(
                LoadError::Io { path: String::from_str(path), cause: cause.clone() },
            ),
            FileContent::Text(text) => match Self::parse_markdown(text.as_str()) {
                Err(e) => Err(LoadError::Parse(e)),
                Ok((meta, html)) => Ok(Self::assemble(String::from_str(slug), meta, html)),
            },
        }
    }

    /// Names the content files of a scan that do not load, each with its
    /// error: what a listing passes over.
    pub fn load_failures(files: &Vec<SourceFile>) -> (failures: Vec<(String, LoadError)>)
        ensures
            failures.deep_view() == post_failures(files.deep_view()),
    {
        let mut failures: Vec<(String, LoadError)> = Vec::new();
        let mut i: usize = 0;
        assert(files.deep_view().take(0) == Seq::<SourceFileView>::empty());
        assert(failures.deep_view() =~= Seq::<(Seq<char>, LoadFault)>::empty());
        while i < files.len()
            invariant
                i <= files.len(),
                failures.deep_view() == post_failures(files.deep_view().take(i as int)),
            decreases files.len() - i,
        {
            let ghost before = failures.deep_view();
            let ghost next = files.deep_view().take(i + 1);
            let file = &files[i];
            proof {
                assert(next.drop_last() == files.deep_view().take(i as int));
                assert(next.last() == file.deep_view());
            }
            if is_content_file(file.name.as_str()) {
                let slug = file_stem(file.name.as_str());
                match Self::load_post(slug.as_str(), file.name.as_str(), &file.content) {
                    Ok(_) => {},
                    Err(e) => {
                        let ghost fault = e.deep_view();
                        failures.push((file.name.clone(), e));
                        assert(failures.deep_view() =~= before.push((file.name@, fault)));
                    },
                }
            }
            i = i + 1;
        }
        assert(files.deep_view().take(files.len() as int) == files.deep_view());
        failures
    }

    /// Loads every post of a scan. A file that is no content file is not
    /// looked at, and one that does not load is left out: one bad
    /// document takes nothing else with it.
    pub fn load_all(files: &Vec<SourceFile>) -> (posts: Vec<BlogPost>)
        ensures
            posts.deep_view() == loaded_posts(files.deep_view()),
    {
        let mut posts: Vec<BlogPost> = Vec::new();
        let mut i: usize = 0;
        assert(files.deep_view().take(0) == Seq::<SourceFileView>::empty());
        assert(posts.deep_view() =~= Seq::<BlogPostView>::empty());
        while i < files.len()
            invariant
                i <= files.len(),
                posts.deep_view() == loaded_posts(files.deep_view().take(i as int)),
            decreases files.len() - i,
        {
            let ghost before = posts.deep_view();
            let ghost next = files.deep_view().take(i + 1);
            let file = &files[i];
            proof {
                assert(next.drop_last() == files.deep_view().take(i as int));
                assert(next.last() == file.deep_view());
            }
            if is_content_file(file.name.as_str()) {
                let slug = file_stem(file.name.as_str());
                match Self::load_post(slug.as_str(), file.name.as_str(), &file.content) {
                    Ok(post) => {
                        posts.push(post);
                        assert(posts.deep_view() =~= before.push(post.deep_view()));
                    },
                    Err(_) => {},
                }
            }
            i = i + 1;
        }
        assert(files.deep_view().take(files.len() as int) == files.deep_view());
        posts
    }

    /// Page `page` of the listing of a scan: every post that loads, newest
    /// first, cut into pages of `page_size`. A page beyond the last one is
    /// empty.
    pub fn get_published_posts(&self, files: &Vec<SourceFile>, page: u32, page_size: u32) -> (out:
        Vec<BlogPost>)
        requires
            page >= 1,
        ensures
            out.deep_view() == page_of(
                post_listing(files.deep_view()),
                page as int,
                page_size as int,
            ),
            out.len() <= page_size,
            is_newest_first(out.deep_view()),
            (page - 1) * page_size >= loaded_posts(files.deep_view()).len() ==> out.len() == 0,
    {
        let posts = Self::load_all(files);
        let ghost loaded = posts@;
        let sorted = sort_newest_first(posts);
        let ghost listing = sorted@;
        let out = paginate(sorted, page, page_size);
        proof {
            let f = post_view();
            lemma_posts_view(loaded);
            lemma_posts_view(listing);
            lemma_posts_view(out@);
            assert(loaded.map_values(f) == loaded_posts(files.deep_view()));
            lemma_newest_first_map(loaded, f);
            lemma_page_of_map(listing, f, page as int, page_size as int);
            assert(out.deep_view() == out@.map_values(f));
            lemma_page_bounds(listing.len() as int, page as int, page_size as int);
            assert forall|i: int, j: int| 0 <= i < j < out.deep_view().len() implies !date_before(
                #[trigger] out.deep_view()[i].date_key(),
                #[trigger] out.deep_view()[j].date_key(),
            ) by {
                let start = page_start(
                    listing.len() as int,
                    page as int,
                    page_size as int,
                );
                assert(out@[i] == listing[start + i]);
                assert(out@[j] == listing[start + j]);
                assert(out.deep_view()[i] == out@[i].deep_view());
                assert(out.deep_view()[j] == out@[j].deep_view());
                assert(!date_before(
                    listing[start + i].date_key(),
                    listing[start + j].date_key(),
                ));
            }
        }
        out
    }

    /// The post of a slug. `found` is what looking for the slug's file
    /// gave: `None` where there is no such file, and then there is no such
    /// post, which is no error. A file that is there and does not load is
    /// an error: who asks for one post is told why it cannot be had.
    pub fn get_post_by_slug(&self, slug: &str, found: Option<FileContent>) -> (r: Result<
        Option<BlogPost>,
        LoadError,
    >)
        ensures
            match found {
                None => r matches Ok(None),
                Some(content) => match loaded_post(
                    slug@,
                    content_name_of(slug@),
                    content.deep_view(),
                ) {
                    Ok(post) => r matches Ok(Some(p)) && p.deep_view() == post,
                    Err(fault) => r matches Err(e) && e.deep_view() == fault,
                },
            },
    {
        match found {
            None => Ok(None),
            Some(content) => {
                let path = content_file_name(slug);
                match Self::load_post(slug, path.as_str(), &content) {
                    Ok(post) => Ok(Some(post)),
                    Err(e) => Err(e),
                }
            },
        }
    }

    /// The featured posts: the first `limit` of the listing. The header's
    /// own flag is not looked at.
    pub fn get_featured_posts(&self, files: &Vec<SourceFile>, limit: u32) -> (out: Vec<BlogPost>)
        ensures
            out.deep_view() == page_of(post_listing(files.deep_view()), 1, limit as int),
            out.len() <= limit,
            is_newest_first(out.deep_view()),
    {
        self.get_published_posts(files, 1, limit)
    }
}

impl BlogService for MarkdownBlogService {
    fn get_published_posts(&self, files: &Vec<SourceFile>, page: u32, page_size: u32) -> (out: Vec<
        BlogPost,
    >)
        ensures
            out.deep_view() == page_of(
                post_listing(files.deep_view()),
                page as int,
                page_size as int,
            ),
    {
        MarkdownBlogService::get_published_posts(self, files, page, page_size)
    }

    fn get_post_by_slug(&self, slug: &str, found: Option<FileContent>) -> (r: Result<
        Option<BlogPost>,
        LoadError,
    >)
        ensures
            match found {
                None => r matches Ok(None),
                Some(content) => match loaded_post(
                    slug@,
                    content_name_of(slug@),
                    content.deep_view(),
                ) {
                    Ok(post) => r matches Ok(Some(p)) && p.deep_view() == post,
                    Err(fault) => r matches Err(e) && e.deep_view() == fault,
                },
            },
    {
        MarkdownBlogService::get_post_by_slug(self, slug, found)
    }

    fn get_featured_posts(&self, files: &Vec<SourceFile>, limit: u32) -> (out: Vec<BlogPost>)
        ensures
            out.deep_view() == page_of(post_listing(files.deep_view()), 1, limit as int),
    {
        MarkdownBlogService::get_featured_posts(self, files, limit)
    }
}

} // verus!
