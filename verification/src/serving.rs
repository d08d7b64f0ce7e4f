//! The asset server's side of HTTP: which request asks for the world asset,
//! and the heads of its answers.

use crate::text::{copy_text, push_decimal, spec_decimal, str_eq};
use vstd::prelude::*;
use vstd::utf8::{decode_utf8, encode_utf8, valid_utf8};

verus! {

/// The only path that the asset server answers.
pub open spec fn world_asset_path() -> Seq<char> {
    "/assets/world.json"@
}

/// The characters with the Unicode `White_Space` property, which
/// `char::is_whitespace` tests for.
pub open spec fn spec_is_whitespace(c: char) -> bool {
    ||| ('\t' <= c && c <= '\r')
    ||| c == ' '
    ||| c == '\u{85}'
    ||| c == '\u{a0}'
    ||| c == '\u{1680}'
    ||| ('\u{2000}' <= c && c <= '\u{200a}')
    ||| c == '\u{2028}'
    ||| c == '\u{2029}'
    ||| c == '\u{202f}'
    ||| c == '\u{205f}'
    ||| c == '\u{3000}'
}

/// The words of a text read so far, and whether the last character read
/// belongs to the last word.
pub open spec fn spec_words_state(s: Seq<char>) -> (Seq<Seq<char>>, bool)
    decreases s.len(),
{
    if s.len() == 0 {
        (Seq::empty(), false)
    } else {
        let (words, in_word) = spec_words_state(s.drop_last());
        let c = s.last();
        if spec_is_whitespace(c) {
            (words, false)
        } else if in_word {
            (words.update(words.len() - 1, words.last().push(c)), true)
        } else {
            (words.push(seq![c]), true)
        }
    }
}

/// The maximal runs of characters that are not white space, in order: what
/// `str::split_whitespace` yields.
pub open spec fn spec_words(s: Seq<char>) -> Seq<Seq<char>> {
    spec_words_state(s).0
}

/// The request target: the second word of the request, or nothing.
pub open spec fn spec_request_target(request: Seq<char>) -> Seq<char> {
    if spec_words(request).len() >= 2 {
        spec_words(request)[1]
    } else {
        Seq::empty()
    }
}

/// Whether a request asks for the world asset.
pub open spec fn spec_requests_world_asset(request: Seq<char>) -> bool {
    spec_request_target(request) == world_asset_path()
}

fn is_whitespace(c: char) -> (r: bool)
    ensures
        r == spec_is_whitespace(c),
{
    ('\t' <= c && c <= '\r') || c == ' ' || c == '\u{85}' || c == '\u{a0}' || c == '\u{1680}' || (
    '\u{2000}' <= c && c <= '\u{200a}') || c == '\u{2028}' || c == '\u{2029}' || c == '\u{202f}'
        || c == '\u{205f}' || c == '\u{3000}'
}

/// The position of the request target in a request, if it has one.
fn request_target_bounds(request: &str) -> (r: Option<(usize, usize)>)
    ensures
        match r {
            Some((start, end)) => start <= end <= request@.len() && spec_words(request@).len()
                >= 2 && spec_words(request@)[1] == request@.subrange(start as int, end as int),
            None => spec_words(request@).len() < 2,
        },
{
    let n = request.unicode_len();
    let mut i: usize = 0;
    let mut count: usize = 0;
    let mut in_word = false;
    let mut start: usize = 0;
    let mut end: usize = 0;
    assert(request@.subrange(0, 0) =~= Seq::<char>::empty());
    while i < n
        invariant
            n == request@.len(),
            i <= n,
            count <= i,
            spec_words_state(request@.subrange(0, i as int)).0.len() == count,
            spec_words_state(request@.subrange(0, i as int)).1 == in_word,
            in_word ==> count >= 1,
            count >= 2 ==> start <= end <= i,
            count >= 2 ==> spec_words_state(request@.subrange(0, i as int)).0[1]
                == request@.subrange(start as int, end as int),
            count == 2 && in_word ==> end == i,
        decreases n - i,
    {
        let c = request.get_char(i);
        let ghost prev = request@.subrange(0, i as int);
        let ghost next = request@.subrange(0, i + 1);
        assert(next.drop_last() =~= prev);
        assert(next.last() == c);
        if is_whitespace(c) {
            in_word = false;
        } else if in_word {
            if count == 2 {
                end = i + 1;
                assert(request@.subrange(start as int, i + 1) =~= request@.subrange(
                    start as int,
                    i as int,
                ).push(c));
            }
        } else {
            in_word = true;
            count = count + 1;
            if count == 2 {
                start = i;
                end = i + 1;
                assert(request@.subrange(i as int, i + 1) =~= seq![c]);
            }
        }
        i = i + 1;
    }
    assert(request@.subrange(0, n as int) =~= request@);
    if count >= 2 {
        Some((start, end))
    } else {
        None
    }
}

/// Whether a request, read as text, asks for the world asset.
pub fn requests_world_asset(request: &str) -> (r: bool)
    ensures
        r == spec_requests_world_asset(request@),
{
    proof {
        reveal_strlit("/assets/world.json");
    }
    match request_target_bounds(request) {
        Some((start, end)) => str_eq(request.substring_char(start, end), "/assets/world.json"),
        None => {
            assert(Seq::<char>::empty().len() == 0);
            false
        },
    }
}

/// What `String::from_utf8_lossy` makes of some bytes.
pub uninterp spec fn utf8_lossy(bytes: Seq<u8>) -> Seq<char>;

/// Reads bytes as text with `String::from_utf8_lossy`, which replaces each
/// invalid sequence by U+FFFD. The contract claims that the text is the named
/// function of the bytes, and that valid UTF-8 is read as what it encodes;
/// what the replacement makes of invalid bytes is left unsaid.
#[verifier::external_body]
fn lossy_text(bytes: &[u8]) -> (r: String)
    ensures
        r@ == utf8_lossy(bytes@),
        valid_utf8(bytes@) ==> r@ == decode_utf8(bytes@),
{
    String::from_utf8_lossy(bytes).into_owned()
}

/// Whether the bytes of a request ask for the world asset.
pub fn is_world_asset_request(request: &[u8]) -> (r: bool)
    ensures
        r == spec_requests_world_asset(utf8_lossy(request@)),
        valid_utf8(request@) ==> r == spec_requests_world_asset(decode_utf8(request@)),
{
    let text = lossy_text(request);
    requests_world_asset(text.as_str())
}

/// The body of the answer to any other request.
pub open spec fn not_found_body() -> Seq<char> {
    "not found"@
}

/// The whole answer to a request for anything but the world asset.
pub open spec fn spec_not_found_response() -> Seq<char> {
    "HTTP/1.1 404 Not Found\r\nContent-Length: "@ + spec_decimal(
        encode_utf8(not_found_body()).len(),
    ) + "\r\nConnection: close\r\n\r\n"@ + not_found_body()
}

/// The head of the answer that carries an asset of `length` bytes.
pub open spec fn spec_asset_response_head(content_type: Seq<char>, length: nat) -> Seq<char> {
    "HTTP/1.1 200 OK\r\nContent-Type: "@ + content_type + "\r\nContent-Length: "@ + spec_decimal(
        length,
    ) + "\r\nConnection: close\r\n\r\n"@
}

/// The answer to a request for anything but the world asset.
pub fn not_found_response() -> (r: String)
    ensures
        r@ == spec_not_found_response(),
{
    let body = "not found";
    proof {
        reveal_strlit("not found");
        assert(vstd::utf8::is_ascii_chars(body@));
        vstd::utf8::is_ascii_chars_encode_utf8(body@);
    }
    let mut r = copy_text("HTTP/1.1 404 Not Found\r\nContent-Length: ");
    push_decimal(&mut r, body.len() as u64);
    r.append("\r\nConnection: close\r\n\r\n");
    r.append(body);
    r
}

/// The head of the answer that carries an asset.
pub fn asset_response_head(content_type: &str, length: usize) -> (r: String)
    ensures
        r@ == spec_asset_response_head(content_type@, length as nat),
{
    let mut r = copy_text("HTTP/1.1 200 OK\r\nContent-Type: ");
    r.append(content_type);
    r.append("\r\nContent-Length: ");
    push_decimal(&mut r, length as u64);
    r.append("\r\nConnection: close\r\n\r\n");
    r
}

} // verus!
