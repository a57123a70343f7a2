//! Slugs out of titles: lower case, words joined by hyphens, and a number
//! behind where the slug is taken already.

use crate::text::{
    chars_of, decimal, is_space, is_whitespace, join, joined, lowercase_of, push_decimal,
    string_of_range, to_lowercase,
};
use vstd::prelude::*;
use vstd::string::StringExecFns;

verus! {

/// Whether `char::is_alphanumeric` holds of a character: whether Unicode
/// has it as a letter or a number.
pub uninterp spec fn is_alphanumeric(c: char) -> bool;

/// `char::is_alphanumeric` depends on the character alone.
pub assume_specification[ char::is_alphanumeric ](c: char) -> (b: bool)
    ensures
        b == is_alphanumeric(c),
;

/// Whether a character of a title goes into the slug: letters, numbers,
/// whitespace and the hyphen do.
pub open spec fn is_slug_char(c: char) -> bool {
    is_alphanumeric(c) || is_space(c) || c == '-'
}

/// The characters of a text that go into the slug.
pub open spec fn slug_chars(s: Seq<char>) -> Seq<char>
    decreases s.len(),
{
    if s.len() == 0 {
        Seq::empty()
    } else if is_slug_char(s.last()) {
        slug_chars(s.drop_last()).push(s.last())
    } else {
        slug_chars(s.drop_last())
    }
}

/// The words of a text, and the word that is still being read: a word is
/// a run of characters that are no whitespace.
pub open spec fn words_and_rest(s: Seq<char>) -> (Seq<Seq<char>>, Seq<char>)
    decreases s.len(),
{
    if s.len() == 0 {
        (Seq::empty(), Seq::empty())
    } else {
        let (words, rest) = words_and_rest(s.drop_last());
        if !is_space(s.last()) {
            (words, rest.push(s.last()))
        } else if rest.len() > 0 {
            (words.push(rest), Seq::empty())
        } else {
            (words, rest)
        }
    }
}

/// The words of a text.
pub open spec fn words(s: Seq<char>) -> Seq<Seq<char>> {
    let (words, rest) = words_and_rest(s);
    if rest.len() > 0 {
        words.push(rest)
    } else {
        words
    }
}

/// The slug of a title: its lower case, without the characters that no
/// slug holds, its words joined by hyphens.
pub open spec fn slug_of_lowercase(lower: Seq<char>) -> Seq<char> {
    joined(words(slug_chars(lower)), "-"@)
}

/// The slug to try at an attempt: the base slug itself at first, then
/// with the number of the attempt behind a hyphen.
pub open spec fn candidate_of(base: Seq<char>, attempt: nat) -> Seq<char> {
    if attempt == 0 {
        base
    } else {
        base + "-"@ + decimal(attempt)
    }
}

/// Makes the slug of a title that is in lower case already.
pub fn slug_from_lowercase(lower: &str) -> (out: String)
    ensures
        out@ == slug_of_lowercase(lower@),
{
    let chars = chars_of(lower);
    let mut kept: Vec<char> = Vec::new();
    let mut i: usize = 0;
    assert(chars@.take(0) == Seq::<char>::empty());
    while i < chars.len()
        invariant
            i <= chars.len(),
            kept@ == slug_chars(chars@.take(i as int)),
        decreases chars.len() - i,
    {
        let c = chars[i];
        assert(chars@.take(i + 1).drop_last() == chars@.take(i as int));
        assert(chars@.take(i + 1).last() == c);
        if c.is_alphanumeric() || is_whitespace(c) || c == '-' {
            kept.push(c);
        }
        i = i + 1;
    }
    assert(chars@.take(chars.len() as int) == chars@);
    let mut found: Vec<String> = Vec::new();
    let mut start: usize = 0;
    let mut k: usize = 0;
    assert(kept@.take(0) == Seq::<char>::empty());
    assert(found.deep_view() =~= Seq::<Seq<char>>::empty());
    assert(kept@.subrange(0, 0) == Seq::<char>::empty());
    while k < kept.len()
        invariant
            start <= k <= kept.len(),
            words_and_rest(kept@.take(k as int)) == (
                found.deep_view(),
                kept@.subrange(start as int, k as int),
            ),
        decreases kept.len() - k,
    {
        let ghost before = found.deep_view();
        assert(kept@.take(k + 1).drop_last() == kept@.take(k as int));
        assert(kept@.take(k + 1).last() == kept@[k as int]);
        if is_whitespace(kept[k]) {
            if start < k {
                let word = string_of_range(&kept, start, k);
                found.push(word);
                assert(found.deep_view() =~= before.push(kept@.subrange(start as int, k as int)));
            }
            start = k + 1;
            assert(kept@.subrange(start as int, k + 1) == Seq::<char>::empty());
        } else {
            assert(kept@.subrange(start as int, k + 1) == kept@.subrange(
                start as int,
                k as int,
            ).push(kept@[k as int]));
        }
        k = k + 1;
    }
    assert(kept@.take(kept.len() as int) == kept@);
    if start < kept.len() {
        let ghost before = found.deep_view();
        let word = string_of_range(&kept, start, kept.len());
        found.push(word);
        assert(found.deep_view() =~= before.push(kept@.subrange(start as int, kept.len() as int)));
    }
    join(&found, "-")
}

/// Makes the slug of a title.
pub fn base_slug(title: &str) -> (out: String)
    ensures
        out@ == slug_of_lowercase(lowercase_of(title@)),
{
    let lower = to_lowercase(title);
    slug_from_lowercase(lower.as_str())
}

/// The slug to try at an attempt. Who looks for a free slug tries attempt
/// 0, then 1, and so on, until one is free.
pub fn slug_candidate(base: &str, attempt: u64) -> (out: String)
    ensures
        out@ == candidate_of(base@, attempt as nat),
{
    let mut out = String::from_str(base);
    if attempt > 0 {
        out.append("-");
        push_decimal(&mut out, attempt);
    }
    out
}

} // verus!
