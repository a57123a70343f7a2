//! Splitting a document into its header block and its body, and decoding
//! the header block.
//!
//! A document starts with a delimiter line, `---`. The header block runs
//! from there to the next `---` that is followed by a line break, and the
//! body is everything after that.

use crate::header_value::{
    decode_documents, lemma_trees_of, yaml_documents, HeaderTree, HeaderValue,
};
use crate::text::{
    chars_of, find_from, first_occurrence, lemma_first_occurrence, lemma_first_occurrence_is,
    lemma_normalize_without_cr, matches_at, normalize_newlines, normalized, occurs_at,
    string_of_range,
};
use vstd::prelude::*;

verus! {

/// Why a document's header could not be read.
#[derive(Debug)]
pub enum HeaderParseError {
    /// The text does not start with a delimiter line.
    MissingHeader,
    /// No second delimiter closes the header block.
    MalformedHeader,
    /// The header block is no well-formed key-value document. Carries the
    /// decoder's message.
    HeaderDecodeError(String),
    /// A required key is absent, or what stands under it is no string.
    MissingField(String),
    /// A date field, and its value that is no calendar date.
    InvalidDate(String, String),
}

/// The mathematical value of a `HeaderParseError`.
pub enum HeaderFault {
    MissingHeader,
    MalformedHeader,
    HeaderDecodeError(Seq<char>),
    MissingField(Seq<char>),
    InvalidDate(Seq<char>, Seq<char>),
}

impl DeepView for HeaderParseError {
    type V = HeaderFault;

    open spec fn deep_view(&self) -> HeaderFault {
        match self {
            HeaderParseError::MissingHeader => HeaderFault::MissingHeader,
            HeaderParseError::MalformedHeader => HeaderFault::MalformedHeader,
            HeaderParseError::HeaderDecodeError(message) => HeaderFault::HeaderDecodeError(
                message@,
            ),
            HeaderParseError::MissingField(key) => HeaderFault::MissingField(key@),
            HeaderParseError::InvalidDate(field, value) => HeaderFault::InvalidDate(
                field@,
                value@,
            ),
        }
    }
}

/// The delimiter: three hyphens and a line feed.
pub open spec fn delimiter() -> Seq<char> {
    seq!['-', '-', '-', '\n']
}

/// Header block and body of a text whose line endings are normalized
/// already: the text must start with a delimiter, and the first delimiter
/// after that one ends the header block.
pub open spec fn sections_of(text: Seq<char>) -> Result<(Seq<char>, Seq<char>), HeaderFault> {
    if !occurs_at(text, delimiter(), 0) {
        Err(HeaderFault::MissingHeader)
    } else {
        match first_occurrence(text, delimiter(), 4) {
            Some(end) => Ok((text.subrange(4, end), text.skip(end + 4))),
            None => Err(HeaderFault::MalformedHeader),
        }
    }
}

/// Header block and body of a document as it was written: line endings are
/// normalized first, then the text is split.
pub open spec fn split_text(content: Seq<char>) -> Result<(Seq<char>, Seq<char>), HeaderFault> {
    sections_of(normalize_newlines(content))
}

/// Splits a document into its header block and its body.
pub fn split_document(content: &str) -> (r: Result<(String, String), HeaderParseError>)
    ensures
        match r {
            Ok((header, body)) => split_text(content@) == Ok::<_, HeaderFault>((header@, body@)),
            Err(e) => split_text(content@) == Err::<(Seq<char>, Seq<char>), _>(e.deep_view()),
        },
{
    let raw = chars_of(content);
    let text = normalized(&raw);
    let mut mark: Vec<char> = Vec::new();
    mark.push('-');
    mark.push('-');
    mark.push('-');
    mark.push('\n');
    assert(mark@ == delimiter());
    if !matches_at(&text, &mark, 0) {
        return Err(HeaderParseError::MissingHeader);
    }
    match find_from(&text, &mark, 4) {
        Some(end) => {
            proof {
                lemma_first_occurrence(text@, mark@, 4);
                assert(occurs_at(text@, mark@, end as int));
                assert(mark@.len() == 4);
                assert(end + 4 <= text.len());
            }
            let header = string_of_range(&text, 4, end);
            let body = string_of_range(&text, end + 4, text.len());
            Ok((header, body))
        },
        None => Err(HeaderParseError::MalformedHeader),
    }
}

/// A document as an author writes it: a delimiter, the header block, a
/// delimiter, the body.
pub open spec fn composed(block: Seq<char>, body: Seq<char>) -> Seq<char> {
    delimiter() + block + delimiter() + body
}

/// The characters of a composed document, place by place.
proof fn lemma_composed_chars(block: Seq<char>, body: Seq<char>)
    ensures
        composed(block, body).len() == 8 + block.len() + body.len(),
        forall|i: int| 0 <= i < 4 ==> #[trigger] composed(block, body)[i] == delimiter()[i],
        forall|i: int|
            4 <= i < 4 + block.len() ==> #[trigger] composed(block, body)[i] == block[i - 4],
        forall|i: int|
            4 + block.len() <= i < 8 + block.len() ==> #[trigger] composed(block, body)[i]
                == delimiter()[i - 4 - block.len()],
        forall|i: int|
            8 + block.len() <= i < 8 + block.len() + body.len() ==> #[trigger] composed(
                block,
                body,
            )[i] == body[i - 8 - block.len()],
{
}

/// No delimiter starts inside the header block of a composed document,
/// where the block alone holds none.
proof fn lemma_no_delimiter_in_block(block: Seq<char>, body: Seq<char>, j: int)
    requires
        forall|i: int| !occurs_at(block, delimiter(), i),
        4 <= j < 4 + block.len(),
    ensures
        !occurs_at(composed(block, body), delimiter(), j),
{
    let text = composed(block, body);
    let mark = delimiter();
    let n = block.len() as int;
    lemma_composed_chars(block, body);
    if occurs_at(text, mark, j) {
        let found = text.subrange(j, j + 4);
        assert(found == mark);
        assert(found[3] == text[j + 3]);
        assert(mark[3] == '\n');
        if j + 4 <= 4 + n {
            assert(block.subrange(j - 4, j) =~= found) by {
                assert forall|k: int| 0 <= k < 4 implies block.subrange(j - 4, j)[k]
                    == found[k] by {
                    assert(found[k] == text[j + k]);
                    assert(text[j + k] == block[j + k - 4]);
                }
            }
            assert(occurs_at(block, mark, j - 4));
            assert(false);
        } else {
            assert(text[j + 3] == mark[j + 3 - 4 - n]);
            assert(mark[0] == '-' && mark[1] == '-' && mark[2] == '-');
            assert(false);
        }
    }
}

/// A text that is put together from a header block and a body parts into
/// that block and that body again, where the block holds no delimiter.
pub proof fn lemma_sections_of_composed(block: Seq<char>, body: Seq<char>)
    requires
        forall|i: int| !occurs_at(block, delimiter(), i),
    ensures
        sections_of(composed(block, body)) == Ok::<_, HeaderFault>((block, body)),
{
    let text = composed(block, body);
    let mark = delimiter();
    let n = block.len() as int;
    lemma_composed_chars(block, body);
    assert(occurs_at(text, mark, 0)) by {
        assert(text.subrange(0, 4) =~= mark);
    }
    assert(occurs_at(text, mark, 4 + n)) by {
        assert(text.subrange(4 + n, 8 + n) =~= mark);
    }
    assert(first_occurrence(text, mark, 4) == Some(4 + n)) by {
        assert forall|j: int| 4 <= j < 4 + n implies !occurs_at(text, mark, j) by {
            lemma_no_delimiter_in_block(block, body, j);
        }
        lemma_first_occurrence_is(text, mark, 4, 4 + n);
    }
    assert(text.subrange(4, 4 + n) =~= block);
    assert(text.skip(4 + n + 4) =~= body);
}

/// A document splits into the header block and the body that it is put
/// together from: whatever its line endings were, if with line endings
/// normalized it is a delimiter, a header block without delimiter, a
/// delimiter and a body, then it splits into that block and that body. So
/// what is read out of the document's header is what is read out of the
/// block taken alone.
pub proof fn lemma_composed_splits(content: Seq<char>, block: Seq<char>, body: Seq<char>)
    requires
        normalize_newlines(content) == composed(block, body),
        forall|i: int| !occurs_at(block, delimiter(), i),
    ensures
        split_text(content) == Ok::<_, HeaderFault>((block, body)),
{
    lemma_sections_of_composed(block, body);
}

/// A document without carriage return is normalized as it stands: put
/// together from a header block without delimiter and a body, it splits
/// into the two.
pub proof fn lemma_plain_document_splits(block: Seq<char>, body: Seq<char>)
    requires
        forall|i: int| !occurs_at(block, delimiter(), i),
        forall|i: int| 0 <= i < block.len() ==> block[i] != '\r',
        forall|i: int| 0 <= i < body.len() ==> body[i] != '\r',
    ensures
        split_text(composed(block, body)) == Ok::<_, HeaderFault>((block, body)),
{
    let text = composed(block, body);
    let mark = delimiter();
    let n = block.len() as int;
    lemma_composed_chars(block, body);
    assert forall|i: int| 0 <= i < text.len() implies text[i] != '\r' by {
        if i < 4 {
            assert(text[i] == mark[i]);
        } else if i < 4 + n {
            assert(text[i] == block[i - 4]);
        } else if i < 8 + n {
            assert(text[i] == mark[i - 4 - n]);
        } else {
            assert(text[i] == body[i - 8 - n]);
        }
    }
    lemma_normalize_without_cr(text);
    lemma_composed_splits(text, block, body);
}

/// The document that the header's fields are read from: the first one, or
/// `Bad`, which has no fields, where the block holds none.
pub open spec fn first_document(docs: Seq<HeaderTree>) -> HeaderTree {
    if docs.len() > 0 {
        docs[0]
    } else {
        HeaderTree::Bad
    }
}

/// What decoding a header block gives: its first document, or the fault.
pub open spec fn decoded_header(block: Seq<char>) -> Result<HeaderTree, HeaderFault> {
    match yaml_documents(block) {
        Ok(docs) => Ok(first_document(docs)),
        Err(message) => Err(HeaderFault::HeaderDecodeError(message)),
    }
}

/// Decodes a header block and hands out its first document.
pub fn decode_header(block: &str) -> (r: Result<HeaderValue, HeaderParseError>)
    ensures
        match r {
            Ok(doc) => decoded_header(block@) == Ok::<_, HeaderFault>(doc.deep_view()),
            Err(e) => decoded_header(block@) == Err::<HeaderTree, _>(e.deep_view()),
        },
{
    match decode_documents(block) {
        Ok(mut docs) => {
            proof {
                lemma_trees_of(docs@);
            }
            if docs.len() > 0 {
                let doc = docs.swap_remove(0);
                Ok(doc)
            } else {
                Ok(HeaderValue::Bad)
            }
        },
        Err(message) => Err(HeaderParseError::HeaderDecodeError(message)),
    }
}

} // verus!
