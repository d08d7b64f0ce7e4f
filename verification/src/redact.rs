//! Connection URLs with their credentials masked, for logging.

use crate::text::{
    copy_text, find, join3, last_index_of, spec_find, spec_last_index_of,
};
use vstd::prelude::*;

verus! {

/// The characters `://`.
pub open spec fn scheme_separator() -> Seq<char> {
    seq![':', '/', '/']
}

/// `scheme://***@host...`: the scheme, then everything after the last `@`.
pub open spec fn spec_masked(url: Seq<char>, scheme_end: int, at: int) -> Seq<char> {
    url.subrange(0, scheme_end) + "://***@"@ + url.subrange(at + 1, url.len() as int)
}

/// The masked form of a database URL: without an `@` or a `://` nothing of
/// it is shown.
pub open spec fn spec_redact_database_url(url: Seq<char>) -> Seq<char> {
    match spec_last_index_of(url, '@') {
        None => "configured"@,
        Some(at) => match spec_find(url, scheme_separator()) {
            None => "configured"@,
            Some(scheme_end) => spec_masked(url, scheme_end, at),
        },
    }
}

/// The masked form of a Redis URL: one without an `@` carries no
/// credentials and is shown as it is.
pub open spec fn spec_redact_redis_url(url: Seq<char>) -> Seq<char> {
    match spec_last_index_of(url, '@') {
        None => url,
        Some(at) => match spec_find(url, scheme_separator()) {
            None => "configured"@,
            Some(scheme_end) => spec_masked(url, scheme_end, at),
        },
    }
}

fn masked(url: &str, scheme_end: usize, at: usize) -> (r: String)
    requires
        scheme_end <= url@.len(),
        at < url@.len(),
    ensures
        r@ == spec_masked(url@, scheme_end as int, at as int),
{
    let n = url.unicode_len();
    let scheme = url.substring_char(0, scheme_end);
    let host = url.substring_char(at + 1, n);
    join3(scheme, "://***@", host)
}

fn scheme_end(url: &str) -> (r: Option<usize>)
    ensures
        match spec_find(url@, scheme_separator()) {
            Some(i) => r matches Some(k) && k == i,
            None => r is None,
        },
{
    proof {
        reveal_strlit("://");
    }
    assert("://"@ =~= scheme_separator());
    find(url, "://")
}

pub fn redact_database_url(database_url: &str) -> (r: String)
    ensures
        r@ == spec_redact_database_url(database_url@),
{
    let at = match last_index_of(database_url, '@') {
        Some(at) => at,
        None => {
            return copy_text("configured");
        },
    };
    let end = match scheme_end(database_url) {
        Some(end) => end,
        None => {
            return copy_text("configured");
        },
    };
    proof {
        lemma_last_index_in_range(database_url@, '@');
        crate::text::lemma_find_in_range(database_url@, scheme_separator(), 0);
    }
    masked(database_url, end, at)
}

pub fn redact_redis_url(redis_url: &str) -> (r: String)
    ensures
        r@ == spec_redact_redis_url(redis_url@),
{
    let at = match last_index_of(redis_url, '@') {
        Some(at) => at,
        None => {
            return copy_text(redis_url);
        },
    };
    let end = match scheme_end(redis_url) {
        Some(end) => end,
        None => {
            return copy_text("configured");
        },
    };
    proof {
        lemma_last_index_in_range(redis_url@, '@');
        crate::text::lemma_find_in_range(redis_url@, scheme_separator(), 0);
    }
    masked(redis_url, end, at)
}

proof fn lemma_last_index_in_range(s: Seq<char>, c: char)
    ensures
        spec_last_index_of(s, c) matches Some(i) ==> 0 <= i < s.len() && s[i] == c,
    decreases s.len(),
{
    if s.len() > 0 && s.last() != c {
        lemma_last_index_in_range(s.drop_last(), c);
    }
}

/// A masked URL never shows what stood between the scheme separator and the
/// last `@`: every `@` it shows is the one of the mask, or comes after it.
pub proof fn lemma_mask_hides_credentials(url: Seq<char>, scheme_end: int, at: int, i: int)
    requires
        spec_last_index_of(url, '@') == Some(at),
        0 <= scheme_end <= url.len(),
        0 <= i < url.len() - (at + 1),
    ensures
        spec_masked(url, scheme_end, at)[scheme_end + 7 + i] != '@',
        spec_masked(url, scheme_end, at)[scheme_end + 6] == '@',
{
    lemma_last_index_in_range(url, '@');
    lemma_no_later_occurrence(url, '@', at, at + 1 + i);
    reveal_strlit("://***@");
}

proof fn lemma_no_later_occurrence(s: Seq<char>, c: char, at: int, j: int)
    requires
        spec_last_index_of(s, c) == Some(at),
        at < j < s.len(),
    ensures
        s[j] != c,
    decreases s.len(),
{
    assert(s.len() > 0);
    lemma_last_index_in_range(s, c);
    if s.last() == c {
        assert(spec_last_index_of(s, c) == Some(s.len() - 1));
        assert(at == s.len() - 1);
        assert(false);
    } else if j < s.len() - 1 {
        assert(spec_last_index_of(s.drop_last(), c) == Some(at));
        lemma_no_later_occurrence(s.drop_last(), c, at, j);
        assert(s.drop_last()[j] == s[j]);
    } else {
        assert(s[j] == s.last());
    }
}

} // verus!
