//! URL construction: percent-encoding of the query, the site-restricted
//! search URL, the per-link answer-page URL, and the link-prefix test used
//! when filtering harvested links.

use vstd::prelude::*;
use vstd::string::StrSliceExecFns;
use vstd::string::StringExecFns;

verus! {

/// Relies on std's `String::push`: appends the given `char` to the end of
/// the string.
pub assume_specification[ String::push ](s: &mut String, c: char)
    ensures
        final(s)@ == old(s)@.push(c),
;

/// Characters kept verbatim by percent-encoding: ASCII letters, digits,
/// `-`, `.`, `_` and `~` (the RFC 3986 unreserved set).
pub open spec fn spec_unreserved(c: char) -> bool {
    let u = c as u32;
    (0x41 <= u && u <= 0x5A) || (0x61 <= u && u <= 0x7A) || (0x30 <= u && u <= 0x39) || u == 0x2D
        || u == 0x2E || u == 0x5F || u == 0x7E
}

/// The uppercase hexadecimal digit for a value below 16.
pub open spec fn spec_hex_digit(n: u8) -> char
    recommends
        n < 16,
{
    if n < 10 {
        ((0x30 + n) as u8) as char
    } else {
        ((0x37 + n) as u8) as char
    }
}

/// The three-character escape `%XY` of one byte.
pub open spec fn spec_escape_byte(b: u8) -> Seq<char> {
    seq!['%', spec_hex_digit(b / 16), spec_hex_digit(b % 16)]
}

/// The escapes of a byte sequence, concatenated in order.
pub open spec fn spec_escape_bytes(bs: Seq<u8>) -> Seq<char>
    decreases bs.len(),
{
    if bs.len() == 0 {
        Seq::empty()
    } else {
        spec_escape_byte(bs[0]) + spec_escape_bytes(bs.drop_first())
    }
}

/// The percent-encoding of one character: itself when unreserved, else the
/// escapes of its UTF-8 bytes.
pub open spec fn spec_encode_char(c: char) -> Seq<char> {
    if spec_unreserved(c) {
        seq![c]
    } else {
        spec_escape_bytes(vstd::utf8::encode_scalar(c as u32))
    }
}

/// The percent-encoding of a character sequence.
pub open spec fn spec_percent_encode(s: Seq<char>) -> Seq<char>
    decreases s.len(),
{
    if s.len() == 0 {
        Seq::empty()
    } else {
        spec_encode_char(s[0]) + spec_percent_encode(s.drop_first())
    }
}

proof fn lemma_escape_bytes_push(bs: Seq<u8>, b: u8)
    ensures
        spec_escape_bytes(bs.push(b)) =~= spec_escape_bytes(bs) + spec_escape_byte(b),
    decreases bs.len(),
{
    let p = bs.push(b);
    if bs.len() == 0 {
        assert(p.drop_first() =~= Seq::<u8>::empty());
        assert(p[0] == b);
        assert(spec_escape_bytes(p) == spec_escape_byte(b) + spec_escape_bytes(Seq::<u8>::empty()));
    } else {
        assert(p.drop_first() =~= bs.drop_first().push(b));
        assert(p[0] == bs[0]);
        lemma_escape_bytes_push(bs.drop_first(), b);
        assert(spec_escape_bytes(p) == spec_escape_byte(bs[0]) + spec_escape_bytes(
            bs.drop_first().push(b),
        ));
    }
}

proof fn lemma_percent_encode_push(s: Seq<char>, c: char)
    ensures
        spec_percent_encode(s.push(c)) =~= spec_percent_encode(s) + spec_encode_char(c),
    decreases s.len(),
{
    let p = s.push(c);
    if s.len() == 0 {
        assert(p.drop_first() =~= Seq::<char>::empty());
        assert(p[0] == c);
        assert(spec_percent_encode(p) == spec_encode_char(c) + spec_percent_encode(
            Seq::<char>::empty(),
        ));
    } else {
        assert(p.drop_first() =~= s.drop_first().push(c));
        assert(p[0] == s[0]);
        lemma_percent_encode_push(s.drop_first(), c);
        assert(spec_percent_encode(p) == spec_encode_char(s[0]) + spec_percent_encode(
            s.drop_first().push(c),
        ));
    }
}

/// The uppercase hexadecimal digit for a value below 16.
fn hex_digit(n: u8) -> (c: char)
    requires
        n < 16,
    ensures
        c == spec_hex_digit(n),
{
    if n < 10 {
        (0x30 + n) as char
    } else {
        (0x37 + n) as char
    }
}

/// The UTF-8 bytes of one Unicode scalar value.
fn encode_scalar_bytes(u: u32) -> (v: Vec<u8>)
    requires
        vstd::utf8::is_scalar(u),
    ensures
        v@ == vstd::utf8::encode_scalar(u),
{
    let mut v: Vec<u8> = Vec::new();
    if u < 0x80 {
        v.push((u & 0x7F) as u8);
        assert(v@ =~= vstd::utf8::encode_scalar(u));
    } else if u < 0x800 {
        v.push(0xC0 | (((u >> 6) & 0x1F) as u8));
        v.push(0x80 | ((u & 0x3F) as u8));
        assert(v@ =~= vstd::utf8::encode_scalar(u));
    } else if u < 0x10000 {
        v.push(0xE0 | (((u >> 12) & 0x0F) as u8));
        v.push(0x80 | (((u >> 6) & 0x3F) as u8));
        v.push(0x80 | ((u & 0x3F) as u8));
        assert(v@ =~= vstd::utf8::encode_scalar(u));
    } else {
        v.push(0xF0 | (((u >> 18) & 0x7) as u8));
        v.push(0x80 | (((u >> 12) & 0x3F) as u8));
        v.push(0x80 | (((u >> 6) & 0x3F) as u8));
        v.push(0x80 | ((u & 0x3F) as u8));
        assert(v@ =~= vstd::utf8::encode_scalar(u));
    }
    v
}

/// Percent-encodes a string: unreserved characters are kept, every other
/// character becomes the `%XY` escapes of its UTF-8 bytes.
pub fn percent_encode(s: &str) -> (r: String)
    ensures
        r@ == spec_percent_encode(s@),
{
    let n = s.unicode_len();
    let mut out = String::new();
    let mut i: usize = 0;
    while i < n
        invariant
            n == s@.len(),
            i <= n,
            out@ == spec_percent_encode(s@.take(i as int)),
        decreases n - i,
    {
        let c = s.get_char(i);
        if is_unreserved(c) {
            out.push(c);
        } else {
            let u = c as u32;
            let bytes = encode_scalar_bytes(u);
            let m = bytes.len();
            let mut j: usize = 0;
            while j < m
                invariant
                    m == bytes@.len(),
                    j <= m,
                    out@ == spec_percent_encode(s@.take(i as int)) + spec_escape_bytes(
                        bytes@.take(j as int),
                    ),
                decreases m - j,
            {
                let b = bytes[j];
                out.push('%');
                out.push(hex_digit(b / 16));
                out.push(hex_digit(b % 16));
                proof {
                    lemma_escape_bytes_push(bytes@.take(j as int), b);
                    assert(bytes@.take(j + 1) =~= bytes@.take(j as int).push(b));
                    assert(out@ =~= spec_percent_encode(s@.take(i as int)) + spec_escape_bytes(
                        bytes@.take(j + 1),
                    ));
                }
                j += 1;
            }
            proof {
                assert(bytes@.take(m as int) =~= bytes@);
            }
        }
        proof {
            lemma_percent_encode_push(s@.take(i as int), s@[i as int]);
            assert(s@.take(i + 1) =~= s@.take(i as int).push(s@[i as int]));
        }
        i += 1;
    }
    proof {
        assert(s@.take(n as int) =~= s@);
    }
    out
}

/// Whether a character is kept verbatim by percent-encoding.
fn is_unreserved(c: char) -> (r: bool)
    ensures
        r == spec_unreserved(c),
{
    let u = c as u32;
    (0x41 <= u && u <= 0x5A) || (0x61 <= u && u <= 0x7A) || (0x30 <= u && u <= 0x39) || u == 0x2D
        || u == 0x2E || u == 0x5F || u == 0x7E
}

/// The fixed front of every search URL.
pub open spec fn spec_search_prefix() -> Seq<char> {
    "https://www.google.com/search?q="@
}

/// The site restriction prepended to every query before encoding.
pub open spec fn spec_site_filter() -> Seq<char> {
    "site:stackoverflow.com "@
}

/// The search URL for a query: the fixed prefix followed by the
/// percent-encoding of the site restriction and the query.
pub open spec fn spec_search_url(query: Seq<char>) -> Seq<char> {
    spec_search_prefix() + spec_percent_encode(spec_site_filter() + query)
}

/// Builds the site-restricted, percent-encoded search URL for a query.
pub fn search_url(query: &str) -> (u: String)
    ensures
        u@ == spec_search_url(query@),
{
    let mut q: String = "site:stackoverflow.com ".to_owned();
    q.append(query);
    let enc = percent_encode(q.as_str());
    let mut u: String = "https://www.google.com/search?q=".to_owned();
    u.append(enc.as_str());
    u
}

/// The query parameter that asks the answer page to sort answers by votes.
pub open spec fn spec_votes_suffix() -> Seq<char> {
    "?answerstab=votes"@
}

/// The page URL fetched for one harvested link.
pub open spec fn spec_answer_url(link: Seq<char>) -> Seq<char> {
    link + spec_votes_suffix()
}

/// Builds the answer-page URL for a link: the link with the sort-by-votes
/// query parameter appended.
pub fn answer_url(link: &str) -> (u: String)
    ensures
        u@ == spec_answer_url(link@),
{
    let mut u: String = link.to_owned();
    u.append("?answerstab=votes");
    u
}

/// Whether `p` is a prefix of `s`.
pub open spec fn spec_starts_with(s: Seq<char>, p: Seq<char>) -> bool {
    p.len() <= s.len() && s.take(p.len() as int) == p
}

/// Whether the string `s` starts with the prefix `p`.
pub fn starts_with_prefix(s: &str, p: &str) -> (r: bool)
    ensures
        r == spec_starts_with(s@, p@),
{
    let pn = p.unicode_len();
    let sn = s.unicode_len();
    if pn > sn {
        return false;
    }
    let mut i: usize = 0;
    while i < pn
        invariant
            i <= pn,
            pn == p@.len(),
            sn == s@.len(),
            pn <= sn,
            forall|j: int| 0 <= j < i ==> s@[j] == p@[j],
        decreases pn - i,
    {
        if s.get_char(i) != p.get_char(i) {
            proof {
                assert(s@.take(pn as int)[i as int] != p@[i as int]);
            }
            return false;
        }
        i += 1;
    }
    proof {
        assert(s@.take(pn as int) =~= p@);
    }
    true
}

} // verus!
