//! Who may use the administrator's part of the API.
//!
//! The administrator's name and token are settings. A request shows them
//! in its `Authorization` header, as a bearer token or as basic
//! credentials. Where either setting is empty, nothing is guarded.

use crate::text::{
    chars_of, lemma_chars_deep_view, matches_at, occurs_at, same_chars, same_text, split,
    split_on, string_of_range,
};
use base64::DecodeError;
use std::string::FromUtf8Error;
use vstd::prelude::*;
use vstd::utf8::{decode_utf8, valid_utf8};

verus! {

/// `base64::DecodeError`, the report of text that is no base64.
#[verifier::external_type_specification]
#[verifier::external_body]
pub struct ExDecodeError(DecodeError);

/// `std::string::FromUtf8Error`, the report of bytes that are no UTF-8.
#[verifier::external_type_specification]
#[verifier::external_body]
pub struct ExFromUtf8Error(FromUtf8Error);

/// The bytes that `base64::decode` reads out of `text` with the standard
/// alphabet and padding, or `None` where it fails.
pub uninterp spec fn base64_decoded(text: Seq<char>) -> Option<Seq<u8>>;

/// Calls `base64::decode`. Claimed: the outcome is a function of the text.
#[verifier::external_body]
#[allow(deprecated)]
fn decode_base64(text: &str) -> (r: Result<Vec<u8>, DecodeError>)
    ensures
        match r {
            Ok(bytes) => base64_decoded(text@) == Some(bytes@),
            Err(_) => base64_decoded(text@) is None,
        },
{
    base64::decode(text)
}

/// Calls `String::from_utf8`. Claimed: it succeeds on valid UTF-8 and on
/// nothing else, and the string holds the characters that the bytes encode.
#[verifier::external_body]
fn string_from_utf8(bytes: Vec<u8>) -> (r: Result<String, FromUtf8Error>)
    ensures
        match r {
            Ok(s) => valid_utf8(bytes@) && s@ == decode_utf8(bytes@),
            Err(_) => !valid_utf8(bytes@),
        },
{
    String::from_utf8(bytes)
}

/// What stands in front of a bearer token.
pub open spec fn bearer_prefix() -> Seq<char> {
    "Bearer "@
}

/// What stands in front of basic credentials.
pub open spec fn basic_prefix() -> Seq<char> {
    "Basic "@
}

/// Whether credentials, as they are after decoding, are the
/// administrator's: name, colon, token, and no further colon.
pub open spec fn credentials_match(credentials: Seq<char>, user: Seq<char>, token: Seq<char>)
    -> bool {
    let parts = split_on(credentials, ':');
    parts.len() == 2 && parts[0] == user && parts[1] == token
}

/// Whether a header shows the administrator's token as a bearer token.
pub open spec fn bearer_matches(header: Seq<char>, token: Seq<char>) -> bool {
    occurs_at(header, bearer_prefix(), 0) && header.skip(bearer_prefix().len() as int) == token
}

/// Whether a header shows the administrator's name and token as basic
/// credentials: base64 of UTF-8 text.
pub open spec fn basic_matches(header: Seq<char>, user: Seq<char>, token: Seq<char>) -> bool {
    occurs_at(header, basic_prefix(), 0) && match base64_decoded(
        header.skip(basic_prefix().len() as int),
    ) {
        Some(bytes) => valid_utf8(bytes) && credentials_match(decode_utf8(bytes), user, token),
        None => false,
    }
}

/// Whether a request may pass. Without an administrator's name or token
/// in the settings every request may; otherwise the header must show the
/// token, or name and token.
pub open spec fn may_pass(user: Seq<char>, token: Seq<char>, header: Option<Seq<char>>) -> bool {
    user.len() == 0 || token.len() == 0 || match header {
        Some(h) => bearer_matches(h, token) || basic_matches(h, user, token),
        None => false,
    }
}

/// Whether decoded credentials are the administrator's.
pub fn check_credentials(credentials: &str, user: &str, token: &str) -> (r: bool)
    ensures
        r == credentials_match(credentials@, user@, token@),
{
    let parts = split(credentials, ':');
    if parts.len() != 2 {
        return false;
    }
    let name = chars_of(user);
    let secret = chars_of(token);
    proof {
        lemma_chars_deep_view(parts@[0]);
        lemma_chars_deep_view(parts@[1]);
    }
    same_chars(&parts[0], &name) && same_chars(&parts[1], &secret)
}

/// What follows the first `count` characters.
fn after(chars: &Vec<char>, count: usize) -> (out: String)
    requires
        count <= chars.len(),
    ensures
        out@ == chars@.skip(count as int),
{
    string_of_range(chars, count, chars.len())
}

/// Decides whether a request may pass. `authorization` is the request's
/// `Authorization` header, if it has one that is text.
pub fn is_authorized(admin_user: &str, admin_token: &str, authorization: Option<&str>) -> (r:
    bool)
    ensures
        r == may_pass(admin_user@, admin_token@, authorization.deep_view()),
{
    if admin_user.is_empty() || admin_token.is_empty() {
        return true;
    }
    let header = match authorization {
        Some(text) => chars_of(text),
        None => {
            return false;
        },
    };
    let bearer = chars_of("Bearer ");
    if matches_at(&header, &bearer, 0) {
        let shown = after(&header, bearer.len());
        if same_text(shown.as_str(), admin_token) {
            return true;
        }
    }
    let basic = chars_of("Basic ");
    if matches_at(&header, &basic, 0) {
        let encoded = after(&header, basic.len());
        match decode_base64(encoded.as_str()) {
            Ok(bytes) => match string_from_utf8(bytes) {
                Ok(credentials) => {
                    return check_credentials(credentials.as_str(), admin_user, admin_token);
                },
                Err(_) => {},
            },
            Err(_) => {},
        }
    }
    false
}

/// Whether `username` is the administrator. Nobody is where no
/// administrator is set.
pub fn is_admin_user(username: &str, admin_user: &str) -> (r: bool)
    ensures
        r == (admin_user@.len() > 0 && username@ == admin_user@),
{
    !admin_user.is_empty() && same_text(username, admin_user)
}

} // verus!
