//! Blog posts: the entity that the content repository loads, and the form
//! in which the API reports it.

use crate::dates::{midnight_text_of, CalendarDate};
use crate::listing::{Dated, HasDate};
use crate::text::{
    chars_of, lemma_chars_deep_view, split, split_on, string_of_range, trim_bounds, trimmed,
};
use vstd::prelude::*;
use vstd::std_specs::convert::FromSpecImpl;

verus! {

/// A blog post.
///
/// A post out of a document carries one date only, so `created_at`,
/// `updated_at` and `published_at` are the same day, and its `view_count`
/// is 0: nothing counts views.
#[derive(Clone, Debug)]
pub struct BlogPost {
    pub id: String,
    pub title: String,
    pub slug: String,
    pub content: String,
    pub excerpt: Option<String>,
    pub cover_image: Option<String>,
    pub category: Option<String>,
    /// The tags, separated by commas.
    pub tags: Option<String>,
    pub status: String,
    pub view_count: i32,
    /// 0 or 1.
    pub is_featured: i8,
    pub created_at: CalendarDate,
    pub updated_at: CalendarDate,
    pub published_at: Option<CalendarDate>,
}

/// The mathematical value of a `BlogPost`.
pub struct BlogPostView {
    pub id: Seq<char>,
    pub title: Seq<char>,
    pub slug: Seq<char>,
    pub content: Seq<char>,
    pub excerpt: Option<Seq<char>>,
    pub cover_image: Option<Seq<char>>,
    pub category: Option<Seq<char>>,
    pub tags: Option<Seq<char>>,
    pub status: Seq<char>,
    pub view_count: i32,
    pub is_featured: i8,
    pub created_at: (int, int, int),
    pub updated_at: (int, int, int),
    pub published_at: Option<(int, int, int)>,
}

impl DeepView for BlogPost {
    type V = BlogPostView;

    open spec fn deep_view(&self) -> BlogPostView {
        BlogPostView {
            id: self.id@,
            title: self.title@,
            slug: self.slug@,
            content: self.content@,
            excerpt: self.excerpt.deep_view(),
            cover_image: self.cover_image.deep_view(),
            category: self.category.deep_view(),
            tags: self.tags.deep_view(),
            status: self.status@,
            view_count: self.view_count,
            is_featured: self.is_featured,
            created_at: self.created_at@,
            updated_at: self.updated_at@,
            published_at: match self.published_at {
                Some(d) => Some(d@),
                None => None,
            },
        }
    }
}

impl HasDate for BlogPostView {
    /// The day of publication, or of creation for a post that is not published.
    open spec fn date_key(&self) -> (int, int, int) {
        match self.published_at {
            Some(d) => d,
            None => self.created_at,
        }
    }
}

impl HasDate for BlogPost {
    open spec fn date_key(&self) -> (int, int, int) {
        self.deep_view().date_key()
    }
}

impl Dated for BlogPost {
    fn date(&self) -> (d: CalendarDate) {
        match self.published_at {
            Some(d) => d,
            None => self.created_at,
        }
    }
}

/// A blog post as the API reports it.
#[derive(Debug)]
pub struct BlogPostResponse {
    pub id: String,
    pub title: String,
    pub slug: String,
    pub content: String,
    pub excerpt: Option<String>,
    pub cover_image: Option<String>,
    pub category: Option<String>,
    pub tags: Vec<String>,
    pub status: String,
    pub view_count: i32,
    pub is_featured: bool,
    pub created_at: String,
    pub updated_at: String,
    pub published_at: Option<String>,
}

/// The mathematical value of a `BlogPostResponse`.
pub struct BlogPostResponseView {
    pub id: Seq<char>,
    pub title: Seq<char>,
    pub slug: Seq<char>,
    pub content: Seq<char>,
    pub excerpt: Option<Seq<char>>,
    pub cover_image: Option<Seq<char>>,
    pub category: Option<Seq<char>>,
    pub tags: Seq<Seq<char>>,
    pub status: Seq<char>,
    pub view_count: i32,
    pub is_featured: bool,
    pub created_at: Seq<char>,
    pub updated_at: Seq<char>,
    pub published_at: Option<Seq<char>>,
}

impl DeepView for BlogPostResponse {
    type V = BlogPostResponseView;

    open spec fn deep_view(&self) -> BlogPostResponseView {
        BlogPostResponseView {
            id: self.id@,
            title: self.title@,
            slug: self.slug@,
            content: self.content@,
            excerpt: self.excerpt.deep_view(),
            cover_image: self.cover_image.deep_view(),
            category: self.category.deep_view(),
            tags: self.tags.deep_view(),
            status: self.status@,
            view_count: self.view_count,
            is_featured: self.is_featured,
            created_at: self.created_at@,
            updated_at: self.updated_at@,
            published_at: self.published_at.deep_view(),
        }
    }
}

/// A category of blog posts, with the number of its posts.
#[derive(Debug)]
pub struct BlogCategory {
    pub name: String,
    pub slug: String,
    pub count: usize,
}

/// `serde_json::Error`, serde_json's report of text that it cannot read.
#[verifier::external_type_specification]
#[verifier::external_body]
pub struct ExJsonError(serde_json::Error);

/// The list of strings that `serde_json::from_str::<Vec<String>>` reads out
/// of `text`, or `None` where it fails.
pub uninterp spec fn json_string_list(text: Seq<char>) -> Option<Seq<Seq<char>>>;

/// Calls `serde_json::from_str::<Vec<String>>`. Claimed: the outcome is a
/// function of the text.
#[verifier::external_body]
fn string_list_from_json(text: &str) -> (r: Result<Vec<String>, serde_json::Error>)
    ensures
        match r {
            Ok(list) => json_string_list(text@) == Some(list.deep_view()),
            Err(_) => json_string_list(text@) is None,
        },
{
    serde_json::from_str::<Vec<String>>(text)
}

/// The pieces, each without the whitespace round it, and the empty ones
/// left out.
pub open spec fn kept_tags(pieces: Seq<Seq<char>>) -> Seq<Seq<char>>
    decreases pieces.len(),
{
    if pieces.len() == 0 {
        Seq::empty()
    } else {
        let before = kept_tags(pieces.drop_last());
        let tag = trimmed(pieces.last());
        if tag.len() == 0 {
            before
        } else {
            before.push(tag)
        }
    }
}

/// The tags of a comma-separated list.
pub open spec fn tags_of_csv(csv: Seq<char>) -> Seq<Seq<char>> {
    kept_tags(split_on(csv, ','))
}

/// The tags that a post's `tags` field stands for. A field that starts
/// with `[` is a JSON list of strings, and one that cannot be read as such
/// holds no tags; any other field is a comma-separated list. No field, no
/// tags.
pub open spec fn tags_of_field(field: Option<Seq<char>>) -> Seq<Seq<char>> {
    match field {
        None => Seq::empty(),
        Some(text) => if text.len() > 0 && text[0] == '[' {
            match json_string_list(text) {
                Some(list) => list,
                None => Seq::empty(),
            }
        } else {
            tags_of_csv(text)
        },
    }
}

/// What the API reports of a post.
pub open spec fn response_of(post: BlogPostView) -> BlogPostResponseView {
    BlogPostResponseView {
        id: post.id,
        title: post.title,
        slug: post.slug,
        content: post.content,
        excerpt: post.excerpt,
        cover_image: post.cover_image,
        category: post.category,
        tags: tags_of_field(post.tags),
        status: post.status,
        view_count: post.view_count,
        is_featured: post.is_featured != 0,
        created_at: midnight_text_of(post.created_at),
        updated_at: midnight_text_of(post.updated_at),
        published_at: match post.published_at {
            Some(d) => Some(midnight_text_of(d)),
            None => None,
        },
    }
}

/// Reads the tags out of a comma-separated list.
pub fn split_tags(csv: &str) -> (out: Vec<String>)
    ensures
        out.deep_view() == tags_of_csv(csv@),
{
    let pieces = split(csv, ',');
    let mut out: Vec<String> = Vec::new();
    let mut i: usize = 0;
    assert(pieces.deep_view().take(0) == Seq::<Seq<char>>::empty());
    assert(out.deep_view() =~= Seq::<Seq<char>>::empty());
    while i < pieces.len()
        invariant
            i <= pieces.len(),
            out.deep_view() == kept_tags(pieces.deep_view().take(i as int)),
        decreases pieces.len() - i,
    {
        let ghost before = out.deep_view();
        let ghost next = pieces.deep_view().take(i + 1);
        let piece = &pieces[i];
        proof {
            lemma_chars_deep_view(*piece);
            assert(next.drop_last() == pieces.deep_view().take(i as int));
            assert(next.last() == piece@);
            assert(piece@.subrange(0, piece.len() as int) == piece@);
        }
        let (from, to) = trim_bounds(piece, 0, piece.len());
        if from < to {
            let tag = string_of_range(piece, from, to);
            out.push(tag);
            assert(out.deep_view() =~= before.push(trimmed(piece@)));
        }
        i = i + 1;
    }
    assert(pieces.deep_view().take(pieces.len() as int) == pieces.deep_view());
    out
}

/// Reads the tags out of a post's `tags` field.
pub fn tags_from_field(field: &Option<String>) -> (out: Vec<String>)
    ensures
        out.deep_view() == tags_of_field(field.deep_view()),
{
    match field {
        None => {
            let out: Vec<String> = Vec::new();
            assert(out.deep_view() =~= Seq::<Seq<char>>::empty());
            out
        },
        Some(text) => {
            let chars = chars_of(text.as_str());
            if chars.len() > 0 && chars[0] == '[' {
                match string_list_from_json(text.as_str()) {
                    Ok(list) => list,
                    Err(_) => {
                        let out: Vec<String> = Vec::new();
                        assert(out.deep_view() =~= Seq::<Seq<char>>::empty());
                        out
                    },
                }
            } else {
                split_tags(text.as_str())
            }
        },
    }
}

impl From<BlogPost> for BlogPostResponse {
    /// Turns a post into what the API reports of it: the tags become a
    /// list, never null; the flag becomes a boolean; each date becomes the
    /// RFC 3339 text of its midnight in UTC.
    fn from(post: BlogPost) -> (r: BlogPostResponse)
        ensures
            r.deep_view() == response_of(post.deep_view()),
    {
        let tags = tags_from_field(&post.tags);
        let published_at = match post.published_at {
            Some(d) => Some(d.to_rfc3339()),
            None => None,
        };
        BlogPostResponse {
            id: post.id,
            title: post.title,
            slug: post.slug,
            content: post.content,
            excerpt: post.excerpt,
            cover_image: post.cover_image,
            category: post.category,
            tags,
            status: post.status,
            view_count: post.view_count,
            is_featured: post.is_featured != 0,
            created_at: post.created_at.to_rfc3339(),
            updated_at: post.updated_at.to_rfc3339(),
            published_at,
        }
    }
}

impl FromSpecImpl<BlogPost> for BlogPostResponse {
    /// A response holds strings that are made anew, and no spec function
    /// can build one: what `from` returns is stated on `from` itself.
    open spec fn obeys_from_spec() -> bool {
        false
    }

    open spec fn from_spec(post: BlogPost) -> BlogPostResponse {
        arbitrary()
    }
}

} // verus!
