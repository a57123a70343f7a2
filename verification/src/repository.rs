//! What a content directory holds, as the repository sees it: files with
//! a name and what reading them gave, and the rules that tie a file's
//! name to an entity's identity.
//!
//! Reading the directory is the caller's part. The repository is handed
//! the files of one scan and works on them; it keeps nothing between calls.

use crate::front_matter::{HeaderFault, HeaderParseError};
use crate::text::{chars_of, string_of_range};
use vstd::prelude::*;
use vstd::string::StringExecFns;

verus! {

/// What reading a file gave.
#[derive(Debug)]
pub enum FileContent {
    /// The file's text.
    Text(String),
    /// The file could not be read. Carries the cause.
    Unreadable(String),
}

/// The mathematical value of a `FileContent`.
pub enum FileContentView {
    Text(Seq<char>),
    Unreadable(Seq<char>),
}

impl DeepView for FileContent {
    type V = FileContentView;

    open spec fn deep_view(&self) -> FileContentView {
        match self {
            FileContent::Text(text) => FileContentView::Text(text@),
            FileContent::Unreadable(cause) => FileContentView::Unreadable(cause@),
        }
    }
}

/// One entry of a content directory.
#[derive(Debug)]
pub struct SourceFile {
    /// The file's name, without the directory.
    pub name: String,
    pub content: FileContent,
}

/// The mathematical value of a `SourceFile`.
pub struct SourceFileView {
    pub name: Seq<char>,
    pub content: FileContentView,
}

impl DeepView for SourceFile {
    type V = SourceFileView;

    open spec fn deep_view(&self) -> SourceFileView {
        SourceFileView { name: self.name@, content: self.content.deep_view() }
    }
}

/// Why a document could not be loaded.
#[derive(Debug)]
pub enum LoadError {
    /// The file could not be read.
    Io { path: String, cause: String },
    /// The file was read, and its header is at fault.
    Parse(HeaderParseError),
}

/// The mathematical value of a `LoadError`.
pub enum LoadFault {
    Io { path: Seq<char>, cause: Seq<char> },
    Parse(HeaderFault),
}

impl DeepView for LoadError {
    type V = LoadFault;

    open spec fn deep_view(&self) -> LoadFault {
        match self {
            LoadError::Io { path, cause } => LoadFault::Io { path: path@, cause: cause@ },
            LoadError::Parse(e) => LoadFault::Parse(e.deep_view()),
        }
    }
}

/// The index of the last dot of a file name.
pub open spec fn last_dot(name: Seq<char>) -> Option<int>
    decreases name.len(),
{
    if name.len() == 0 {
        None
    } else if name.last() == '.' {
        Some(name.len() - 1)
    } else {
        last_dot(name.drop_last())
    }
}

/// Where a file name parts into stem and extension: at its last dot,
/// unless that dot starts the name or the name is `..`.
pub open spec fn split_point(name: Seq<char>) -> Option<int> {
    match last_dot(name) {
        Some(i) => if i > 0 && name != seq!['.', '.'] {
            Some(i)
        } else {
            None
        },
        None => None,
    }
}

/// The extension of a file name: what follows the last dot.
pub open spec fn extension_of(name: Seq<char>) -> Option<Seq<char>> {
    match split_point(name) {
        Some(i) => Some(name.skip(i + 1)),
        None => None,
    }
}

/// The stem of a file name: what comes before the last dot, and the whole
/// name where it has no extension. An entity's slug is the stem of its
/// file's name and nothing else.
pub open spec fn stem_of(name: Seq<char>) -> Seq<char> {
    match split_point(name) {
        Some(i) => name.take(i),
        None => name,
    }
}

/// The extension by which a content file is known.
pub open spec fn content_extension() -> Seq<char> {
    seq!['m', 'd']
}

/// Whether a file of this name is a content file.
pub open spec fn is_content_name(name: Seq<char>) -> bool {
    extension_of(name) == Some(content_extension())
}

/// The name of the file that holds the entity of a slug.
pub open spec fn content_name_of(slug: Seq<char>) -> Seq<char> {
    slug + seq!['.'] + content_extension()
}

/// The last dot is a dot, and no dot follows it.
pub proof fn lemma_last_dot(name: Seq<char>)
    ensures
        match last_dot(name) {
            Some(i) => 0 <= i < name.len() && name[i] == '.' && forall|j: int|
                i < j < name.len() ==> name[j] != '.',
            None => forall|j: int| 0 <= j < name.len() ==> name[j] != '.',
        },
    decreases name.len(),
{
    if name.len() > 0 && name.last() != '.' {
        let head = name.drop_last();
        lemma_last_dot(head);
        assert forall|j: int| 0 <= j < head.len() implies head[j] == name[j] by {}
        match last_dot(head) {
            Some(i) => {
                assert forall|j: int| i < j < name.len() implies name[j] != '.' by {
                    if j < head.len() {
                        assert(head[j] == name[j]);
                    }
                }
            },
            None => {
                assert forall|j: int| 0 <= j < name.len() implies name[j] != '.' by {
                    if j < head.len() {
                        assert(head[j] == name[j]);
                    }
                }
            },
        }
    }
}

/// Finds where a file name parts into stem and extension.
fn find_split_point(chars: &Vec<char>) -> (r: Option<usize>)
    ensures
        match r {
            Some(i) => split_point(chars@) == Some(i as int) && 0 < i < chars.len(),
            None => split_point(chars@) is None,
        },
{
    let mut end: usize = chars.len();
    assert(chars@.take(end as int) == chars@);
    while end > 0 && chars[end - 1] != '.'
        invariant
            end <= chars.len(),
            last_dot(chars@) == last_dot(chars@.take(end as int)),
        decreases end,
    {
        assert(chars@.take(end as int).drop_last() == chars@.take(end - 1));
        end = end - 1;
    }
    if end == 0 {
        return None;
    }
    let at: usize = end - 1;
    assert(chars@.take(end as int).last() == '.');
    let two_dots = chars.len() == 2 && chars[0] == '.' && chars[1] == '.';
    assert(two_dots == (chars@ == seq!['.', '.'])) by {
        if two_dots {
            assert(chars@ =~= seq!['.', '.']);
        }
    }
    if at > 0 && !two_dots {
        Some(at)
    } else {
        None
    }
}

/// The stem of a file name.
pub fn file_stem(name: &str) -> (out: String)
    ensures
        out@ == stem_of(name@),
{
    let chars = chars_of(name);
    match find_split_point(&chars) {
        Some(i) => string_of_range(&chars, 0, i),
        None => {
            assert(chars@.subrange(0, chars.len() as int) == chars@);
            string_of_range(&chars, 0, chars.len())
        },
    }
}

/// The extension of a file name.
pub fn file_extension(name: &str) -> (out: Option<String>)
    ensures
        out.deep_view() == extension_of(name@),
{
    let chars = chars_of(name);
    match find_split_point(&chars) {
        Some(i) => Some(string_of_range(&chars, i + 1, chars.len())),
        None => None,
    }
}

/// Whether a file of this name is a content file.
pub fn is_content_file(name: &str) -> (r: bool)
    ensures
        r == is_content_name(name@),
{
    let chars = chars_of(name);
    match find_split_point(&chars) {
        Some(i) => {
            let r = chars.len() - i == 3 && chars[i + 1] == 'm' && chars[i + 2] == 'd';
            assert(r == (chars@.skip(i + 1) == content_extension())) by {
                if r {
                    assert(chars@.skip(i + 1) =~= content_extension());
                } else if chars.len() - i == 3 {
                    assert(chars@.skip(i + 1)[0] == chars@[i + 1]);
                    assert(chars@.skip(i + 1)[1] == chars@[i + 2]);
                } else {
                    assert(chars@.skip(i + 1).len() != 2);
                }
            }
            r
        },
        None => false,
    }
}

/// The name of the file that holds the entity of a slug.
pub fn content_file_name(slug: &str) -> (out: String)
    ensures
        out@ == content_name_of(slug@),
{
    let mut out = String::from_str(slug);
    out.push('.');
    out.push('m');
    out.push('d');
    assert(out@ =~= content_name_of(slug@));
    out
}

/// A content file's name is its stem and the extension: so two content
/// files of one stem are one file, and within a directory, where names
/// differ, slugs differ.
pub proof fn lemma_stem_names_file(name: Seq<char>)
    requires
        is_content_name(name),
    ensures
        content_name_of(stem_of(name)) == name,
{
    lemma_last_dot(name);
    let i = split_point(name)->0;
    assert(name.skip(i + 1) == content_extension());
    assert(content_name_of(stem_of(name)) =~= name);
}

/// Content files of one stem are one file.
pub proof fn lemma_slugs_differ(a: Seq<char>, b: Seq<char>)
    requires
        is_content_name(a),
        is_content_name(b),
        stem_of(a) == stem_of(b),
    ensures
        a == b,
{
    lemma_stem_names_file(a);
    lemma_stem_names_file(b);
}

/// The file that holds a slug's entity is a content file, and its stem
/// is the slug again, as long as the slug is not empty: identity comes
/// from the file's name and goes back into it.
pub proof fn lemma_content_name_round_trip(slug: Seq<char>)
    requires
        slug.len() > 0,
    ensures
        is_content_name(content_name_of(slug)),
        stem_of(content_name_of(slug)) == slug,
{
    let name = content_name_of(slug);
    let n = slug.len() as int;
    assert(name.len() == n + 3);
    assert(name[n] == '.');
    assert(name[n + 1] == 'm');
    assert(name[n + 2] == 'd');
    assert(name.drop_last().drop_last() == slug + seq!['.']);
    assert(name.drop_last().last() == 'm');
    assert(name.last() == 'd');
    assert((slug + seq!['.']).last() == '.');
    assert(last_dot(slug + seq!['.']) == Some(n));
    assert(last_dot(name.drop_last()) == Some(n));
    assert(last_dot(name) == Some(n));
    assert(name != seq!['.', '.']);
    assert(name.skip(n + 1) =~= content_extension());
    assert(name.take(n) =~= slug);
}

} // verus!
