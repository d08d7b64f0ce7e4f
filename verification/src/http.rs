//! The client's side of HTTP: the requests it sends to the account service,
//! and what it reads from the answers of that service and of the asset
//! server.

use crate::login::AuthAction;
use crate::text::{copy_text, push_decimal, spec_decimal, str_eq, utf8_to_string};
use vstd::prelude::*;
use vstd::utf8::{decode_utf8, encode_utf8, valid_utf8};

verus! {

/// The blank line that ends the headers, `\r\n\r\n`.
pub open spec fn header_terminator() -> Seq<u8> {
    seq![13u8, 10u8, 13u8, 10u8]
}

/// Whether the headers end at position `i`.
pub open spec fn ends_headers_at(response: Seq<u8>, i: int) -> bool {
    0 <= i && i + 4 <= response.len() && response.subrange(i, i + 4) == header_terminator()
}

/// The position of the first blank line at or after `from`.
pub open spec fn spec_header_end_from(response: Seq<u8>, from: int) -> Option<int>
    decreases response.len() - from,
{
    if from < 0 || from + 4 > response.len() {
        None
    } else if ends_headers_at(response, from) {
        Some(from)
    } else {
        spec_header_end_from(response, from + 1)
    }
}

pub open spec fn spec_header_end(response: Seq<u8>) -> Option<int> {
    spec_header_end_from(response, 0)
}

/// Finds where the headers of a response end.
pub fn find_header_end(response: &[u8]) -> (r: Option<usize>)
    ensures
        match spec_header_end(response@) {
            Some(i) => r matches Some(k) && k == i,
            None => r is None,
        },
{
    let n = response.len();
    if n < 4 {
        return None;
    }
    let mut i: usize = 0;
    while i <= n - 4
        invariant
            n == response@.len(),
            4 <= n,
            i <= n - 3,
            spec_header_end(response@) == spec_header_end_from(response@, i as int),
        decreases n - i,
    {
        if response[i] == 13 && response[i + 1] == 10 && response[i + 2] == 13 && response[i + 3]
            == 10 {
            assert(response@.subrange(i as int, i + 4) =~= header_terminator());
            return Some(i);
        }
        assert(!ends_headers_at(response@, i as int)) by {
            if ends_headers_at(response@, i as int) {
                assert(response@.subrange(i as int, i + 4)[0] == response@[i as int]);
                assert(response@.subrange(i as int, i + 4)[1] == response@[i + 1]);
                assert(response@.subrange(i as int, i + 4)[2] == response@[i + 2]);
                assert(response@.subrange(i as int, i + 4)[3] == response@[i + 3]);
            }
        }
        i = i + 1;
    }
    None
}

/// The text member `key` of a JSON object: `None` when the body is not JSON,
/// `Some(None)` when the member is missing or not a string.
pub uninterp spec fn json_string_member(body: Seq<u8>, key: Seq<char>) -> Option<Option<Seq<char>>>;

/// Parses a body as JSON with `serde_json::from_slice` into a
/// `serde_json::Value` and reads member `key` with indexing and
/// `Value::as_str`. The contract claims that the outcome is the named function
/// of the body and the key.
#[verifier::external_body]
fn json_member_text(body: &[u8], key: &str) -> (r: Option<Option<String>>)
    ensures
        match r {
            None => json_string_member(body@, key@) is None,
            Some(None) => json_string_member(body@, key@) == Some(None::<Seq<char>>),
            Some(Some(text)) => json_string_member(body@, key@) == Some(Some(text@)),
        },
{
    match serde_json::from_slice::<serde_json::Value>(body) {
        Ok(value) => match value[key].as_str() {
            Some(text) => Some(Some(text.to_owned())),
            None => Some(None),
        },
        Err(_) => None,
    }
}

/// Whether a text begins with a prefix.
pub fn starts_with(text: &str, prefix: &str) -> (r: bool)
    ensures
        r == (prefix@.len() <= text@.len() && text@.subrange(0, prefix@.len() as int) == prefix@),
{
    let n = text.unicode_len();
    let m = prefix.unicode_len();
    if m > n {
        return false;
    }
    str_eq(text.substring_char(0, m), prefix)
}

/// A successful answer: 200 OK or 201 Created.
pub open spec fn spec_is_success(headers: Seq<char>) -> bool {
    ||| (12 <= headers.len() && headers.subrange(0, 12) == "HTTP/1.1 200"@)
    ||| (12 <= headers.len() && headers.subrange(0, 12) == "HTTP/1.1 201"@)
}

/// What the client makes of the service's answer: the session token, or the
/// message to show.
pub open spec fn spec_auth_response(response: Seq<u8>) -> Result<Seq<char>, Seq<char>> {
    match spec_header_end(response) {
        None => Err("invalid authentication response"@),
        Some(h) => {
            let head = response.subrange(0, h);
            let body = response.subrange(h + 4, response.len() as int);
            if !valid_utf8(head) {
                Err("authentication response was not valid UTF-8"@)
            } else {
                match json_string_member(body, "token"@) {
                    None => Err("authentication service returned invalid JSON"@),
                    Some(token) => {
                        if !spec_is_success(decode_utf8(head)) {
                            match json_string_member(body, "error"@) {
                                Some(Some(message)) => Err(message),
                                _ => Err("authentication failed"@),
                            }
                        } else {
                            match token {
                                Some(t) => Ok(t),
                                None => Err(
                                    "authentication response did not include a session token"@,
                                ),
                            }
                        }
                    },
                }
            }
        },
    }
}

pub open spec fn spec_result_view(r: Result<String, String>) -> Result<Seq<char>, Seq<char>> {
    match r {
        Ok(s) => Ok(s@),
        Err(s) => Err(s@),
    }
}

/// Reads the answer of the account service to a login or sign-up request.
pub fn parse_auth_response(response: &[u8]) -> (r: Result<String, String>)
    ensures
        spec_result_view(r) == spec_auth_response(response@),
{
    proof {
        reveal_strlit("HTTP/1.1 200");
        reveal_strlit("HTTP/1.1 201");
    }
    let n = response.len();
    let header_end = match find_header_end(response) {
        Some(h) => h,
        None => {
            return Err(copy_text("invalid authentication response"));
        },
    };
    proof {
        lemma_header_end_in_range(response@, 0);
    }
    let head = &response[0..header_end];
    let body = &response[header_end + 4..n];
    let headers = match utf8_to_string(head) {
        Some(h) => h,
        None => {
            return Err(copy_text("authentication response was not valid UTF-8"));
        },
    };
    let token = match json_member_text(body, "token") {
        Some(token) => token,
        None => {
            return Err(copy_text("authentication service returned invalid JSON"));
        },
    };
    let success = starts_with(headers.as_str(), "HTTP/1.1 200") || starts_with(
        headers.as_str(),
        "HTTP/1.1 201",
    );
    if !success {
        return match json_member_text(body, "error") {
            Some(Some(message)) => Err(message),
            _ => Err(copy_text("authentication failed")),
        };
    }
    match token {
        Some(t) => Ok(t),
        None => Err(copy_text("authentication response did not include a session token")),
    }
}

/// Why an asset response carries no asset.
#[derive(Debug, Clone, PartialEq, Eq)]
pub enum AssetResponseError {
    /// No blank line ends the headers.
    InvalidResponse,
    /// The headers, which end at this position, are not UTF-8.
    HeadersNotUtf8 { header_end: usize },
    /// The status is not 200; the headers are given.
    RequestFailed { headers: String },
}

/// What an asset response comes to, as a mathematical value.
pub enum AssetResponseView {
    Body(Seq<u8>),
    InvalidResponse,
    HeadersNotUtf8(usize),
    RequestFailed(Seq<char>),
}

/// The body of a successful asset response, or why there is none.
pub open spec fn spec_asset_response(response: Seq<u8>) -> AssetResponseView {
    match spec_header_end(response) {
        None => AssetResponseView::InvalidResponse,
        Some(h) => {
            let head = response.subrange(0, h);
            if !valid_utf8(head) {
                AssetResponseView::HeadersNotUtf8(h as usize)
            } else if 12 <= decode_utf8(head).len() && decode_utf8(head).subrange(0, 12)
                == "HTTP/1.1 200"@ {
                AssetResponseView::Body(response.subrange(h + 4, response.len() as int))
            } else {
                AssetResponseView::RequestFailed(decode_utf8(head))
            }
        },
    }
}

pub open spec fn spec_asset_result_view(r: Result<&[u8], AssetResponseError>) -> AssetResponseView {
    match r {
        Ok(body) => AssetResponseView::Body(body@),
        Err(AssetResponseError::InvalidResponse) => AssetResponseView::InvalidResponse,
        Err(AssetResponseError::HeadersNotUtf8 { header_end }) => AssetResponseView::HeadersNotUtf8(
            header_end,
        ),
        Err(AssetResponseError::RequestFailed { headers }) => AssetResponseView::RequestFailed(
            headers@,
        ),
    }
}

/// Splits an asset response: checks the headers and gives the body.
pub fn asset_response_body(response: &[u8]) -> (r: Result<&[u8], AssetResponseError>)
    ensures
        spec_asset_result_view(r) == spec_asset_response(response@),
{
    proof {
        reveal_strlit("HTTP/1.1 200");
    }
    let n = response.len();
    let header_end = match find_header_end(response) {
        Some(h) => h,
        None => {
            return Err(AssetResponseError::InvalidResponse);
        },
    };
    proof {
        lemma_header_end_in_range(response@, 0);
    }
    let headers = match utf8_to_string(&response[0..header_end]) {
        Some(h) => h,
        None => {
            return Err(AssetResponseError::HeadersNotUtf8 { header_end });
        },
    };
    if !starts_with(headers.as_str(), "HTTP/1.1 200") {
        return Err(AssetResponseError::RequestFailed { headers });
    }
    Ok(&response[header_end + 4..n])
}

/// The text that `serde_json` writes for an object of two text members.
pub uninterp spec fn json_object_text(
    first_key: Seq<char>,
    first_value: Seq<char>,
    second_key: Seq<char>,
    second_value: Seq<char>,
) -> Seq<char>;

/// Writes an object of two text members with `serde_json`: a
/// `serde_json::Map` holding two `serde_json::Value::String`, written by
/// `Value::to_string`. The contract claims that the text is the named function
/// of the keys and values.
#[verifier::external_body]
fn json_object(first_key: &str, first_value: &str, second_key: &str, second_value: &str) -> (r:
    String)
    ensures
        r@ == json_object_text(first_key@, first_value@, second_key@, second_value@),
{
    let mut object = serde_json::Map::new();
    object.insert(first_key.to_owned(), serde_json::Value::String(first_value.to_owned()));
    object.insert(second_key.to_owned(), serde_json::Value::String(second_value.to_owned()));
    serde_json::Value::Object(object).to_string()
}

/// The path that a login or sign-up request is sent to.
pub open spec fn spec_auth_path(action: AuthAction) -> Seq<char> {
    match action {
        AuthAction::Login => "/auth/login"@,
        AuthAction::Signup => "/auth/signup"@,
    }
}

/// The body of a login or sign-up request.
pub open spec fn spec_credentials_body(username: Seq<char>, password: Seq<char>) -> Seq<char> {
    json_object_text("username"@, username, "password"@, password)
}

/// A request to the account service that carries a JSON body; its length is
/// counted in UTF-8 bytes.
pub open spec fn spec_auth_request(action: AuthAction, body: Seq<char>) -> Seq<char> {
    "POST "@ + spec_auth_path(action)
        + " HTTP/1.1\r\nHost: frontier-auth\r\nContent-Type: application/json\r\nContent-Length: "@
        + spec_decimal(encode_utf8(body).len()) + "\r\nConnection: close\r\n\r\n"@ + body
}

/// Frames a login or sign-up request around its body.
pub fn auth_request_with_body(action: AuthAction, body: &str) -> (r: String)
    ensures
        r@ == spec_auth_request(action, body@),
{
    let mut r = copy_text("POST ");
    match action {
        AuthAction::Login => r.append("/auth/login"),
        AuthAction::Signup => r.append("/auth/signup"),
    }
    r.append(
        " HTTP/1.1\r\nHost: frontier-auth\r\nContent-Type: application/json\r\nContent-Length: ",
    );
    let length = body.as_bytes().len();
    push_decimal(&mut r, length as u64);
    r.append("\r\nConnection: close\r\n\r\n");
    r.append(body);
    r
}

/// The login or sign-up request for a username and password.
pub fn auth_request(action: AuthAction, username: &str, password: &str) -> (r: String)
    ensures
        r@ == spec_auth_request(action, spec_credentials_body(username@, password@)),
{
    let body = json_object("username", username, "password", password);
    auth_request_with_body(action, body.as_str())
}

proof fn lemma_header_end_in_range(response: Seq<u8>, from: int)
    ensures
        spec_header_end_from(response, from) matches Some(i) ==> from <= i && i + 4
            <= response.len(),
    decreases response.len() - from,
{
    if from >= 0 && from + 4 <= response.len() && !ends_headers_at(response, from) {
        lemma_header_end_in_range(response, from + 1);
    }
}

/// An asset response gives its body only under a status line that begins with
/// `HTTP/1.1 200`: when the UTF-8 headers begin otherwise, the result is a
/// failed request that carries those headers, never a body.
pub proof fn lemma_only_ok_status_gives_body(response: Seq<u8>)
    ensures
        spec_header_end(response) matches Some(h) ==> {
            let head = response.subrange(0, h);
            valid_utf8(head) && !(12 <= decode_utf8(head).len() && decode_utf8(head).subrange(
                0,
                12,
            ) == "HTTP/1.1 200"@) ==> spec_asset_response(response)
                == AssetResponseView::RequestFailed(decode_utf8(head))
        },
        spec_asset_response(response) matches AssetResponseView::Body(body) ==> exists|h: int|
            #![trigger response.subrange(0, h)]
            spec_header_end(response) == Some(h) && valid_utf8(response.subrange(0, h)) && 12
                <= decode_utf8(response.subrange(0, h)).len() && decode_utf8(
                response.subrange(0, h),
            ).subrange(0, 12) == "HTTP/1.1 200"@ && body == response.subrange(
                h + 4,
                response.len() as int,
            ),
{
}

} // verus!
