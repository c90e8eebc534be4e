//! Blob identifiers and the locator scheme that embeds them.
//!
//! A blob identifier is twelve bytes, written as 24 hexadecimal digits
//! (lower case when written, either case when read). A locator has the
//! shape `/api/v1/photos/{id}`.

use vstd::prelude::*;
use vstd::string::StrSliceExecFns;
use vstd::string::StringExecFns;

verus! {

/// Relies on `String::push`: appends one character.
pub assume_specification[ String::push ](s: &mut String, ch: char)
    ensures
        final(s)@ == old(s)@.push(ch),
;

/// Number of bytes in a blob identifier.
pub const BLOB_ID_BYTES: usize = 12;

/// Identifier that the blob store assigns to a stored blob.
#[derive(Clone, Debug, PartialEq, Eq)]
pub struct BlobId {
    pub bytes: Vec<u8>,
}

/// The lower-case hexadecimal digit for `d < 16`.
pub open spec fn hex_digit(d: u8) -> char {
    if d < 10 {
        (d + 48) as char
    } else {
        (d + 87) as char
    }
}

/// Two lower-case hexadecimal digits per byte, most significant first.
pub open spec fn hex_of(b: Seq<u8>) -> Seq<char>
    decreases b.len(),
{
    if b.len() == 0 {
        Seq::empty()
    } else {
        hex_of(b.drop_last()) + seq![hex_digit(b.last() / 16), hex_digit(b.last() % 16)]
    }
}

/// The value of a hexadecimal digit of either case.
pub open spec fn hex_value(c: char) -> Option<u8> {
    if '0' <= c && c <= '9' {
        Some((c as u32 - 48) as u8)
    } else if 'a' <= c && c <= 'f' {
        Some((c as u32 - 87) as u8)
    } else if 'A' <= c && c <= 'F' {
        Some((c as u32 - 55) as u8)
    } else {
        None
    }
}

/// The bytes written by a string of hexadecimal digit pairs.
pub open spec fn decode_hex(t: Seq<char>) -> Option<Seq<u8>>
    decreases t.len(),
{
    if t.len() == 0 {
        Some(Seq::empty())
    } else if t.len() == 1 {
        None
    } else {
        match (decode_hex(t.subrange(0, t.len() - 2)), hex_value(t[t.len() - 2]), hex_value(
            t[t.len() - 1],
        )) {
            (Some(rest), Some(hi), Some(lo)) => Some(rest.push((hi * 16 + lo) as u8)),
            _ => None,
        }
    }
}

/// The blob identifier written by `t`, if `t` is exactly 24 hexadecimal digits.
pub open spec fn parse_blob_id_spec(t: Seq<char>) -> Option<Seq<u8>> {
    if t.len() == 2 * BLOB_ID_BYTES {
        decode_hex(t)
    } else {
        None
    }
}

/// The locator of the blob with identifier bytes `b`.
pub open spec fn locator_of(b: Seq<u8>) -> Seq<char> {
    "/api/v1/photos/"@ + hex_of(b)
}

/// Position of the last `/` in `t`, or -1.
pub open spec fn last_slash(t: Seq<char>) -> int
    decreases t.len(),
{
    if t.len() == 0 {
        -1
    } else if t.last() == '/' {
        t.len() - 1
    } else {
        last_slash(t.drop_last())
    }
}

/// The path segment that follows the segment `photos` when it is the last
/// segment of a path with at least three separators.
pub open spec fn locator_segment(t: Seq<char>) -> Option<Seq<char>> {
    let j = last_slash(t);
    if j >= 7 && t.subrange(j - 7, j) == "/photos"@ && last_slash(t.subrange(0, j - 7)) >= 0 {
        Some(t.subrange(j + 1, t.len() as int))
    } else {
        None
    }
}

/// The blob identifier that a locator refers to.
pub open spec fn locator_blob_id_spec(t: Seq<char>) -> Option<Seq<u8>> {
    match locator_segment(t) {
        Some(seg) => parse_blob_id_spec(seg),
        None => None,
    }
}

proof fn lemma_hex_digit_value(d: u8)
    requires
        d < 16,
    ensures
        hex_value(hex_digit(d)) == Some(d),
        hex_digit(d) != '/',
{
}

proof fn lemma_decode_hex_of(b: Seq<u8>)
    ensures
        decode_hex(hex_of(b)) == Some(b),
        hex_of(b).len() == 2 * b.len(),
        forall|i: int| 0 <= i < hex_of(b).len() ==> hex_of(b)[i] != '/',
    decreases b.len(),
{
    if b.len() > 0 {
        let d = b.drop_last();
        lemma_decode_hex_of(d);
        let h = hex_of(b);
        let x = b.last();
        lemma_hex_digit_value(x / 16);
        lemma_hex_digit_value(x % 16);
        assert(h.subrange(0, h.len() - 2) =~= hex_of(d));
        assert(((x / 16) * 16 + x % 16) as u8 == x);
        assert(d.push(x) =~= b);
        assert forall|i: int| 0 <= i < h.len() implies h[i] != '/' by {
            if i < h.len() - 2 {
                assert(h[i] == hex_of(d)[i]);
            }
        }
    }
}

proof fn lemma_decode_none_extends(t: Seq<char>, m: int)
    requires
        0 <= m <= t.len(),
        m % 2 == 0,
        t.len() % 2 == 0,
        decode_hex(t.subrange(0, m)) is None,
    ensures
        decode_hex(t) is None,
    decreases t.len() - m,
{
    if m < t.len() {
        let u = t.subrange(0, m + 2);
        assert(u.subrange(0, m) =~= t.subrange(0, m));
        lemma_decode_none_extends(t, m + 2);
    } else {
        assert(t.subrange(0, m) =~= t);
    }
}

proof fn lemma_last_slash(t: Seq<char>)
    ensures
        -1 <= last_slash(t) < t.len(),
        last_slash(t) >= 0 ==> t[last_slash(t)] == '/',
        forall|i: int| last_slash(t) < i < t.len() ==> t[i] != '/',
    decreases t.len(),
{
    if t.len() > 0 {
        let d = t.drop_last();
        lemma_last_slash(d);
        assert forall|i: int| last_slash(t) < i < t.len() implies t[i] != '/' by {
            if i < t.len() - 1 {
                assert(d[i] == t[i]);
            }
        }
    }
}

proof fn lemma_last_slash_append(a: Seq<char>, b: Seq<char>)
    requires
        forall|i: int| 0 <= i < b.len() ==> b[i] != '/',
    ensures
        last_slash(a + b) == last_slash(a),
    decreases b.len(),
{
    if b.len() > 0 {
        assert((a + b).drop_last() =~= a + b.drop_last());
        lemma_last_slash_append(a, b.drop_last());
    } else {
        assert(a + b =~= a);
    }
}

/// Locators built for a blob refer back to it: the identifier text parses
/// to the same bytes, and the locator's segment after `photos` is that text.
pub proof fn lemma_locator_round_trip(b: Seq<u8>)
    requires
        b.len() == BLOB_ID_BYTES,
    ensures
        parse_blob_id_spec(hex_of(b)) == Some(b),
        locator_segment(locator_of(b)) == Some(hex_of(b)),
        locator_blob_id_spec(locator_of(b)) == Some(b),
{
    lemma_decode_hex_of(b);
    let p = "/api/v1/photos/"@;
    let t = locator_of(b);
    reveal_strlit("/api/v1/photos/");
    reveal_strlit("/photos");
    assert(p.len() == 15);
    lemma_last_slash_append(p, hex_of(b));
    assert(p.last() == '/');
    assert(last_slash(p) == 14);
    assert(t.subrange(7, 14) =~= "/photos"@);
    assert(t.subrange(0, 7) =~= p.subrange(0, 7));
    assert(p.subrange(0, 7)[4] == '/');
    lemma_last_slash(p.subrange(0, 7));
    assert(t.subrange(15, t.len() as int) =~= hex_of(b));
}

/// Writes bytes as lower-case hexadecimal digits, two per byte.
pub fn hex_string(bytes: &[u8]) -> (r: String)
    ensures
        r@ == hex_of(bytes@),
{
    let mut out = String::new();
    let n = bytes.len();
    let mut i: usize = 0;
    while i < n
        invariant
            n == bytes@.len(),
            0 <= i <= n,
            out@ == hex_of(bytes@.subrange(0, i as int)),
        decreases n - i,
    {
        let x = bytes[i];
        let hi = x / 16;
        let lo = x % 16;
        let hc: char = if hi < 10 {
            (hi + 48) as char
        } else {
            (hi + 87) as char
        };
        let lc: char = if lo < 10 {
            (lo + 48) as char
        } else {
            (lo + 87) as char
        };
        out.push(hc);
        out.push(lc);
        proof {
            let s = bytes@.subrange(0, i as int + 1);
            assert(s.drop_last() =~= bytes@.subrange(0, i as int));
            assert(s.last() == x);
        }
        i = i + 1;
    }
    assert(bytes@.subrange(0, n as int) =~= bytes@);
    out
}

/// Writes the identifier as lower-case hexadecimal digits.
pub fn blob_id_hex(id: &BlobId) -> (r: String)
    ensures
        r@ == hex_of(id.bytes@),
{
    hex_string(id.bytes.as_slice())
}

fn hex_value_of(c: char) -> (r: Option<u8>)
    ensures
        r == hex_value(c),
{
    if '0' <= c && c <= '9' {
        Some((c as u32 - 48) as u8)
    } else if 'a' <= c && c <= 'f' {
        Some((c as u32 - 87) as u8)
    } else if 'A' <= c && c <= 'F' {
        Some((c as u32 - 55) as u8)
    } else {
        None
    }
}

/// Reads a blob identifier from exactly 24 hexadecimal digits of either case.
pub fn parse_blob_id(text: &str) -> (r: Option<BlobId>)
    ensures
        match r {
            Some(id) => parse_blob_id_spec(text@) == Some(id.bytes@),
            None => parse_blob_id_spec(text@) is None,
        },
{
    let len = text.unicode_len();
    if len != 2 * BLOB_ID_BYTES {
        return None;
    }
    let mut out: Vec<u8> = Vec::new();
    let mut i: usize = 0;
    while i < BLOB_ID_BYTES
        invariant
            len == text@.len(),
            len == 2 * BLOB_ID_BYTES,
            0 <= i <= BLOB_ID_BYTES,
            decode_hex(text@.subrange(0, 2 * i as int)) == Some(out@),
        decreases BLOB_ID_BYTES - i,
    {
        let hi = hex_value_of(text.get_char(2 * i));
        let lo = hex_value_of(text.get_char(2 * i + 1));
        let ghost u = text@.subrange(0, 2 * i as int + 2);
        proof {
            assert(u.subrange(0, u.len() - 2) =~= text@.subrange(0, 2 * i as int));
            assert(u[u.len() - 2] == text@[2 * i as int]);
            assert(u[u.len() - 1] == text@[2 * i as int + 1]);
        }
        match (hi, lo) {
            (Some(h), Some(l)) => {
                out.push(h * 16 + l);
            },
            _ => {
                proof {
                    lemma_decode_none_extends(text@, 2 * i as int + 2);
                }
                return None;
            },
        }
        i = i + 1;
    }
    assert(text@.subrange(0, 2 * BLOB_ID_BYTES as int) =~= text@);
    Some(BlobId { bytes: out })
}

/// Whether `pat` occurs in `t` at character position `start`.
fn occurs_at(t: &str, start: usize, pat: &str) -> (r: bool)
    ensures
        r == (start + pat@.len() <= t@.len() && t@.subrange(
            start as int,
            start + pat@.len(),
        ) == pat@),
{
    let n = t.unicode_len();
    let m = pat.unicode_len();
    if start > n || m > n - start {
        return false;
    }
    let mut k: usize = 0;
    while k < m
        invariant
            n == t@.len(),
            m == pat@.len(),
            start + m <= n,
            0 <= k <= m,
            forall|j: int| 0 <= j < k ==> t@[start + j] == pat@[j],
        decreases m - k,
    {
        if t.get_char(start + k) != pat.get_char(k) {
            assert(t@.subrange(start as int, start + m)[k as int] != pat@[k as int]);
            return false;
        }
        k = k + 1;
    }
    assert(t@.subrange(start as int, start + m) =~= pat@);
    true
}

/// Position of the last `/` among the first `end` characters of `t`.
fn last_slash_before(t: &str, end: usize) -> (r: Option<usize>)
    requires
        end <= t@.len(),
    ensures
        match r {
            Some(j) => last_slash(t@.subrange(0, end as int)) == j as int,
            None => last_slash(t@.subrange(0, end as int)) == -1,
        },
{
    let mut k: usize = end;
    while k > 0
        invariant
            end <= t@.len(),
            0 <= k <= end,
            last_slash(t@.subrange(0, end as int)) == last_slash(t@.subrange(0, k as int)),
        decreases k,
    {
        let ghost u = t@.subrange(0, k as int);
        assert(u.drop_last() =~= t@.subrange(0, k as int - 1));
        if t.get_char(k - 1) == '/' {
            return Some(k - 1);
        }
        k = k - 1;
    }
    None
}

/// The path segment that follows a `photos` segment at the end of a
/// locator with at least three separators.
pub fn locator_segment_of(locator: &str) -> (r: Option<&str>)
    ensures
        match r {
            Some(seg) => locator_segment(locator@) == Some(seg@),
            None => locator_segment(locator@) is None,
        },
{
    let n = locator.unicode_len();
    match last_slash_before(locator, n) {
        Some(j) => {
            assert(locator@.subrange(0, n as int) =~= locator@);
            proof {
                lemma_last_slash(locator@);
            }
            if j >= 7 && occurs_at(locator, j - 7, "/photos") {
                proof {
                    reveal_strlit("/photos");
                }
                match last_slash_before(locator, j - 7) {
                    Some(_) => Some(locator.substring_char(j + 1, n)),
                    None => None,
                }
            } else {
                proof {
                    reveal_strlit("/photos");
                }
                None
            }
        },
        None => {
            assert(locator@.subrange(0, n as int) =~= locator@);
            None
        },
    }
}

/// The blob identifier that a locator refers to, if it is well formed.
pub fn locator_blob_id(locator: &str) -> (r: Option<BlobId>)
    ensures
        match r {
            Some(id) => locator_blob_id_spec(locator@) == Some(id.bytes@),
            None => locator_blob_id_spec(locator@) is None,
        },
{
    match locator_segment_of(locator) {
        Some(seg) => parse_blob_id(seg),
        None => None,
    }
}

/// The locator of a blob: `/api/v1/photos/` followed by its identifier text.
pub fn blob_locator(id: &BlobId) -> (r: String)
    ensures
        r@ == locator_of(id.bytes@),
{
    let mut out = String::from_str("/api/v1/photos/");
    let hex = blob_id_hex(id);
    out.append(hex.as_str());
    out
}

} // verus!
