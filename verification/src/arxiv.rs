//! Pieces of the arXiv search helper: the entry data model, the
//! query URL, and the identifier taken off an entry's URL.  The HTTP
//! traffic and the XML decoding around them stay outside.

use vstd::prelude::*;

use crate::text::to_chars;

verus! {

/// One child element of a feed entry.
#[derive(Debug, Clone)]
pub enum ArxivEntryChild {
    Id(String),
    Title(String),
    Summary(String),
    Author(ArxivAuthor),
    Link(ArxivLink),
    Published(String),
    Updated(String),
    Other,
}

/// One search result.
#[derive(Debug, Clone)]
pub struct ArxivEntry {
    pub id: String,
    pub title: String,
    pub summary: String,
    pub authors: Vec<ArxivAuthor>,
    pub links: Vec<ArxivLink>,
    pub published: String,
}

/// One author of an entry.
#[derive(Debug, Clone)]
pub struct ArxivAuthor {
    pub name: String,
}

/// One link of an entry.
#[derive(Debug, Clone)]
pub struct ArxivLink {
    pub href: String,
    pub rel: String,
}

/// A byte that percent-encoding keeps as it is: an ASCII
/// alphanumeric or one of `-`, `.`, `_`, `~`.
pub open spec fn is_url_unreserved(b: u8) -> bool {
    ||| 48 <= b <= 57  // 0-9
    ||| 65 <= b <= 90  // A-Z
    ||| 97 <= b <= 122  // a-z
    ||| b == 45  // -
    ||| b == 46  // .
    ||| b == 95  // _
    ||| b == 126  // ~
}

/// The uppercase hexadecimal digit for a value below sixteen.
pub open spec fn hex_digit_char(d: u8) -> char {
    if d < 10 {
        crate::digits::digit_of(d as nat)
    } else if d == 10 {
        'A'
    } else if d == 11 {
        'B'
    } else if d == 12 {
        'C'
    } else if d == 13 {
        'D'
    } else if d == 14 {
        'E'
    } else {
        'F'
    }
}

/// One byte, percent-encoded: unreserved bytes stand as themselves,
/// every other byte as `%` and its two hex digits.
pub open spec fn encoded_byte(b: u8) -> Seq<char> {
    if is_url_unreserved(b) {
        seq![b as char]
    } else {
        seq!['%', hex_digit_char(b / 16), hex_digit_char(b % 16)]
    }
}

/// A byte sequence, percent-encoded byte for byte, left to right.
pub open spec fn encoded_bytes(bs: Seq<u8>) -> Seq<char>
    decreases bs.len(),
{
    if bs.len() == 0 {
        Seq::empty()
    } else {
        encoded_byte(bs[0]) + encoded_bytes(bs.skip(1))
    }
}

/// Percent-encoding of a text: its UTF-8 bytes, each unreserved byte
/// kept, every other one as `%` and two uppercase hex digits.
pub open spec fn url_encoded(s: Seq<char>) -> Seq<char> {
    encoded_bytes(vstd::utf8::encode_utf8(s))
}

/// Relies on `urlencoding::encode`: it percent-encodes the UTF-8
/// bytes one by one, keeping `0-9A-Za-z-._~` and writing every other
/// byte as `%` and two uppercase hex digits.
#[verifier::external_body]
fn encode_query(q: &str) -> (r: String)
    ensures
        r@ == url_encoded(q@),
{
    urlencoding::encode(q).into_owned()
}

/// The search URL for a query, with the query percent-encoded into
/// it.
pub fn search_url(query: &str) -> (r: String)
    ensures
        r@ == "https://export.arxiv.org/api/query?search_query=all:"@ + url_encoded(query@)
            + "&max_results=15"@,
{
    let mut url = String::from_str("https://export.arxiv.org/api/query?search_query=all:");
    url.append(encode_query(query).as_str());
    url.append("&max_results=15");
    url
}

/// The URL of an entry's BibTeX record.  A versioned identifier such
/// as `2101.00001v1` works there as well as the bare one.
pub fn bibtex_url(id: &str) -> (r: String)
    ensures
        r@ == "https://arxiv.org/bibtex/"@ + id@,
{
    let mut url = String::from_str("https://arxiv.org/bibtex/");
    url.append(id);
    url
}

/// What stands after the last `/` of `t`: everything, when there is
/// none.
pub open spec fn tail_after_last_slash(t: Seq<char>) -> Seq<char>
    decreases t.len(),
{
    if t.len() == 0 {
        Seq::empty()
    } else if t[t.len() - 1] == '/' {
        Seq::empty()
    } else {
        tail_after_last_slash(t.drop_last()).push(t[t.len() - 1])
    }
}

/// A suffix free of `/` that begins right after a `/` (or at the
/// start) is exactly the tail after the last slash.
proof fn lemma_tail_after_last_slash(t: Seq<char>, i: int)
    requires
        0 <= i <= t.len(),
        i == 0 || t[i - 1] == '/',
        forall|j: int| i <= j < t.len() ==> t[j] != '/',
    ensures
        tail_after_last_slash(t) == t.skip(i),
    decreases t.len(),
{
    if t.len() == 0 {
        assert(tail_after_last_slash(t) =~= t.skip(i));
    } else if t[t.len() - 1] == '/' {
        assert(i == t.len());
        assert(tail_after_last_slash(t) =~= t.skip(i));
    } else {
        assert(i < t.len());
        lemma_tail_after_last_slash(t.drop_last(), i);
        assert(t.drop_last().skip(i).push(t[t.len() - 1]) =~= t.skip(i));
    }
}

/// The identifier at the end of an entry URL: what stands after the
/// last `/`, or the whole text when it has none.
pub fn extract_id(arxiv_url: &str) -> (r: String)
    ensures
        r@ == tail_after_last_slash(arxiv_url@),
{
    let tc = to_chars(arxiv_url);
    let n: usize = tc.len();
    let mut i: usize = n;
    while i > 0
        invariant
            i <= n,
            n == arxiv_url@.len(),
            tc@ == arxiv_url@,
            forall|j: int| i <= j < n ==> arxiv_url@[j] != '/',
        decreases i,
    {
        if tc[i - 1] == '/' {
            let r = arxiv_url.substring_char(i, n);
            proof {
                lemma_tail_after_last_slash(arxiv_url@, i as int);
            }
            return String::from_str(r);
        }
        i = i - 1;
    }
    proof {
        lemma_tail_after_last_slash(arxiv_url@, 0);
        assert(arxiv_url@.skip(0) =~= arxiv_url@);
    }
    String::from_str(arxiv_url)
}

} // verus!
