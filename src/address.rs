use vstd::prelude::*;

use crate::stringify::opt_text;

verus! {

/// The longest text, in characters, of a base URL and a reference together
/// that this library hands to the URL parser.
///
/// The host parser maps each host label through IDNA and then punycode-
/// encodes it; that encoder counts in a `u32` without an overflow check and
/// panics, under overflow checks, on a label of a few thousand characters.
/// IDNA mapping can make a label many times longer than its text, and
/// percent-decoding can turn ASCII into other characters. So this library
/// resolves only texts that are ASCII without `%`, where no label is longer
/// than its text, and shorter than this bound. It refuses other addresses
/// and paths rather than risk the panic.
pub const MAX_URL_CHARS: usize = 2048;

/// Whether a character may stand in a text that this library resolves.
pub open spec fn plain_url_char(c: char) -> bool {
    (c as u32) < 0x80 && c != '%'
}

/// Whether every character of `t` may stand in a resolved text.
pub open spec fn plain_url_text(t: Seq<char>) -> bool {
    forall|i: int| 0 <= i < t.len() ==> plain_url_char(#[trigger] t[i])
}

/// Whether a base and a reference can be resolved: both plain, and short
/// enough together.
pub open spec fn url_texts_fit(base: Seq<char>, reference: Seq<char>) -> bool {
    &&& base.len() + reference.len() < MAX_URL_CHARS
    &&& plain_url_text(base)
    &&& plain_url_text(reference)
}

/// The text of the URL that `reference` names relative to `base`, where both
/// parse.
pub uninterp spec fn url_join(base: Seq<char>, reference: Seq<char>) -> Option<Seq<char>>;

/// Relies on `reqwest::Url` (the `url` crate's `Url::parse` and `Url::join`):
/// resolving a reference against a base URL depends on the two texts alone,
/// and fails only where one of them does not parse. Texts that are too long
/// or not plain ASCII are left out (see `MAX_URL_CHARS`).
#[verifier::external_body]
fn join_url(base: &str, reference: &str) -> (r: Option<String>)
    requires
        url_texts_fit(base@, reference@),
    ensures
        opt_text(r) == url_join(base@, reference@),
{
    match reqwest::Url::parse(base) {
        Ok(url) => match url.join(reference) {
            Ok(joined) => Some(joined.into_string()),
            Err(_) => None,
        },
        Err(_) => None,
    }
}

/// The URL of the API request for a secret path: `v1/` resolved against the
/// server address, then the path resolved against that; `None` where a step
/// fails or its texts cannot be resolved (see `MAX_URL_CHARS`).
pub open spec fn request_url_of(address: Seq<char>, path: Seq<char>) -> Option<Seq<char>> {
    if !url_texts_fit(address, "v1/"@) {
        None
    } else {
        match url_join(address, "v1/"@) {
            Some(base) => if url_texts_fit(base, path) {
                url_join(base, path)
            } else {
                None
            },
            None => None,
        }
    }
}

/// Whether every character of `t` may stand in a resolved text.
fn is_plain_url_text(t: &str) -> (r: bool)
    ensures
        r == plain_url_text(t@),
{
    let mut plain = true;
    for c in it: t.chars()
        invariant
            it.seq() == t@,
            plain == plain_url_text(t@.subrange(0, it.index() as int)),
    {
        let ghost done = t@.subrange(0, it.index() as int);
        let ghost next = t@.subrange(0, it.index() + 1);
        assert(next =~= done.push(c));
        let ok = (c as u32) < 0x80 && c != '%';
        proof {
            if plain && ok {
                assert forall|i: int| 0 <= i < next.len() implies plain_url_char(#[trigger] next[i]) by {
                    if i < done.len() {
                        assert(next[i] == done[i]);
                    }
                }
            } else if !ok {
                assert(!plain_url_char(next[done.len() as int]));
            } else {
                let i = choose|i: int| 0 <= i < done.len() && !plain_url_char(#[trigger] done[i]);
                assert(next[i] == done[i]);
            }
        }
        plain = plain && ok;
    }
    assert(t@.subrange(0, t@.len() as int) =~= t@);
    plain
}

/// Whether `base` and `reference` can be resolved.
fn texts_fit(base: &str, reference: &str) -> (r: bool)
    ensures
        r == url_texts_fit(base@, reference@),
{
    let b = base.unicode_len();
    let n = reference.unicode_len();
    b < MAX_URL_CHARS && n < MAX_URL_CHARS - b && is_plain_url_text(base) && is_plain_url_text(
        reference,
    )
}

/// The URL of the API request for `path` on the server at `address`; `None`
/// where no such URL can be formed.
pub fn request_url(address: &str, path: &str) -> (r: Option<String>)
    ensures
        opt_text(r) == request_url_of(address@, path@),
{
    let prefix = "v1/";
    if !texts_fit(address, prefix) {
        return None;
    }
    match join_url(address, prefix) {
        Some(base) => if texts_fit(base.as_str(), path) {
            join_url(base.as_str(), path)
        } else {
            None
        },
        None => None,
    }
}

} // verus!
