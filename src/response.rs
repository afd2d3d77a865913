use vstd::prelude::*;
use crate::text::{
    has_prefix, index_of, trim, all_digits, digits_value, chars_of, starts_with, find_char,
    starts_with_at, trim_bounds, parse_digits, lemma_index_of_bound,
};

verus! {

/// Why a raw response could not be read.
#[derive(Clone, Copy, PartialEq, Eq, Debug)]
pub enum ParseError {
    /// No `\r\n\r\n` ends the header block.
    MissingSeparator,
    /// The header block is not UTF-8 text.
    InvalidEncoding,
    /// No usable `Content-Length` header.
    MissingContentLength,
}

/// The text that a byte sequence decodes to as UTF-8, if it is valid UTF-8.
pub uninterp spec fn utf8_decoded(b: Seq<u8>) -> Option<Seq<char>>;

/// Relies on `std::str::from_utf8`: the bytes decoded as UTF-8, or an error when they
/// are not valid UTF-8.
#[verifier::external_body]
fn decode_utf8(b: &[u8]) -> (r: Option<&str>)
    ensures
        match r {
            Some(s) => utf8_decoded(b@) == Some(s@),
            None => utf8_decoded(b@) is None,
        },
{
    std::str::from_utf8(b).ok()
}

/// The four bytes `\r\n\r\n` start at `i`.
pub open spec fn separator_at(raw: Seq<u8>, i: int) -> bool {
    0 <= i && i + 4 <= raw.len() && raw[i] == 13u8 && raw[i + 1] == 10u8 && raw[i + 2] == 13u8
        && raw[i + 3] == 10u8
}

/// `i` is where the first `\r\n\r\n` starts.
pub open spec fn first_separator(raw: Seq<u8>, i: int) -> bool {
    separator_at(raw, i) && forall|j: int| 0 <= j < i ==> !separator_at(raw, j)
}

/// A raw response split into its header text and its body.
pub open spec fn parsed(raw: Seq<u8>) -> Result<(Seq<char>, Seq<u8>), ParseError> {
    if exists|i: int| first_separator(raw, i) {
        let i = choose|i: int| first_separator(raw, i);
        match utf8_decoded(raw.take(i)) {
            Some(h) => Ok((h, raw.skip(i + 4))),
            None => Err(ParseError::InvalidEncoding),
        }
    } else {
        Err(ParseError::MissingSeparator)
    }
}

/// Whether the header text opens with `<version> <code>`.
pub open spec fn status_is(headers: Seq<char>, version: Seq<char>, code: Seq<char>) -> bool {
    has_prefix(headers, version + " "@ + code)
}

/// The text of the first header line that starts with `Content-Length:`, from after that
/// name up to the next `:` or the end of the line; lines are split at `\n`.
pub open spec fn content_length_field(h: Seq<char>) -> Option<Seq<char>>
    decreases h.len(),
{
    let n = index_of(h, '\n');
    let line = h.take(n as int);
    if has_prefix(line, "Content-Length:"@) {
        let rest = line.skip(15);
        Some(rest.take(index_of(rest, ':') as int))
    } else if n < h.len() {
        content_length_field(h.skip(n as int + 1))
    } else {
        None
    }
}

/// The resource size that the header text announces.
pub open spec fn content_length(h: Seq<char>) -> Option<nat> {
    match content_length_field(h) {
        Some(f) => {
            let t = if trim(f).len() > 0 && trim(f)[0] == '+' { trim(f).drop_first() } else { trim(f) };
            if all_digits(t) && digits_value(t) <= usize::MAX {
                Some(digits_value(t))
            } else {
                None
            }
        },
        None => None,
    }
}

/// Position of the first `\r\n\r\n` in `raw`.
fn find_separator(raw: &[u8]) -> (r: Option<usize>)
    ensures
        match r {
            Some(i) => first_separator(raw@, i as int),
            None => forall|i: int| !first_separator(raw@, i),
        },
{
    let n = raw.len();
    if n < 4 {
        return None;
    }
    let mut i: usize = 0;
    while i <= n - 4
        invariant
            n == raw@.len(),
            n >= 4,
            forall|j: int| 0 <= j < i ==> !separator_at(raw@, j),
        decreases n - i,
    {
        if raw[i] == 13u8 && raw[i + 1] == 10u8 && raw[i + 2] == 13u8 && raw[i + 3] == 10u8 {
            return Some(i);
        }
        i = i + 1;
    }
    assert forall|k: int| !first_separator(raw@, k) by {
        if first_separator(raw@, k) {
            assert(k < i || k + 4 > n);
        }
    }
    None
}

/// Splits a raw response at the first `\r\n\r\n` into header text and body bytes.
pub fn parse_response(raw: &[u8]) -> (r: Result<(&str, &[u8]), ParseError>)
    ensures
        match r {
            Ok((h, b)) => parsed(raw@) == Ok::<(Seq<char>, Seq<u8>), ParseError>((h@, b@)),
            Err(e) => parsed(raw@) == Err::<(Seq<char>, Seq<u8>), ParseError>(e),
        },
{
    match find_separator(raw) {
        None => Err(ParseError::MissingSeparator),
        Some(i) => {
            proof {
                let c = choose|c: int| first_separator(raw@, c);
                if c < i {
                } else if c > i {
                }
                assert(c == i);
            }
            assert(separator_at(raw@, i as int));
            let head = vstd::slice::slice_subrange(raw, 0, i);
            assert(head@ =~= raw@.take(i as int));
            match decode_utf8(head) {
                None => Err(ParseError::InvalidEncoding),
                Some(h) => {
                    let n = raw.len();
                    let body = vstd::slice::slice_subrange(raw, i + 4, n);
                    assert(body@ =~= raw@.skip(i + 4));
                    Ok((h, body))
                },
            }
        },
    }
}

/// Whether the header text opens with `<version> <code>`.
pub fn status_matches(headers: &str, version: &str, code: &str) -> (r: bool)
    ensures
        r == status_is(headers@, version@, code@),
{
    let mut expected = String::from_str(version);
    expected.append(" ");
    expected.append(code);
    starts_with(headers, expected.as_str())
}

/// Reads the size announced by the first `Content-Length:` header line.
pub fn parse_content_length(headers: &str) -> (r: Option<usize>)
    ensures
        match r {
            Some(n) => content_length(headers@) == Some(n as nat),
            None => content_length(headers@) is None,
        },
{
    let c = chars_of(headers);
    let len = c.len();
    let mut pos: usize = 0;
    assert(c@.skip(0) =~= c@);
    loop
        invariant
            c@ == headers@,
            len == c@.len(),
            pos <= len,
            content_length_field(headers@) == content_length_field(c@.skip(pos as int)),
        decreases len - pos,
    {
        let ghost h = c@.skip(pos as int);
        let e = find_char(&c, pos, len, '\n');
        assert(c@.subrange(pos as int, len as int) =~= h);
        proof {
            lemma_index_of_bound(h, '\n');
        }
        assert(h.take(e - pos) =~= c@.subrange(pos as int, e as int));
        if starts_with_at(&c, pos, e, "Content-Length:") {
            proof {
                reveal_strlit("Content-Length:");
            }
            let s = pos + 15;
            let ghost rest = h.take(e - pos).skip(15);
            assert(rest =~= c@.subrange(s as int, e as int));
            let f = find_char(&c, s, e, ':');
            assert(rest.take(f - s) =~= c@.subrange(s as int, f as int));
            let (a, b) = trim_bounds(&c, s, f);
            let mut a2 = a;
            if a < b && c[a] == '+' {
                a2 = a + 1;
                assert(c@.subrange(a2 as int, b as int) =~= c@.subrange(a as int, b as int).drop_first());
            }
            return match parse_digits(&c, a2, b, usize::MAX as u64) {
                Some(v) => Some(v as usize),
                None => None,
            };
        }
        if e == len {
            return None;
        }
        assert(h.skip(e - pos + 1) =~= c@.skip(e as int + 1));
        pos = e + 1;
    }
}

} // verus!
