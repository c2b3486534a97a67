//! Repair of request paths whose last segment some clients send without
//! percent-encoding.
use vstd::prelude::*;

use crate::text::{append_str, chars_of, rfind_char, slice_chars, string_from_chars};

verus! {

/// A character that may stand unencoded in a path segment: ASCII letters
/// and digits, `-`, `.`, `_`, `~`, and `%` of an existing escape.
pub open spec fn segment_safe(c: char) -> bool {
    ('0' <= c && c <= '9') || ('A' <= c && c <= 'Z') || ('a' <= c && c <= 'z') || c == '-' || c == '.'
        || c == '_' || c == '~' || c == '%'
}

/// A byte kept as it is by RFC 3986 percent-encoding: an ASCII letter or
/// digit, `-`, `.`, `_` or `~`.
pub open spec fn unreserved(b: u8) -> bool {
    (48 <= b && b <= 57) || (65 <= b && b <= 90) || (97 <= b && b <= 122) || b == 45 || b == 46
        || b == 95 || b == 126
}

/// An upper-case hexadecimal digit.
pub open spec fn upper_hex(d: nat) -> char {
    if d < 10 {
        ((d + 48) as u8) as char
    } else {
        ((d + 55) as u8) as char
    }
}

/// A byte written as `%` and two upper-case hexadecimal digits.
pub open spec fn byte_escape(b: u8) -> Seq<char> {
    seq!['%', upper_hex((b / 16) as nat), upper_hex((b % 16) as nat)]
}

/// Trusted: calls `percent_encoding::percent_encode_byte`; claims the
/// escape is `%` followed by the byte in two upper-case hexadecimal digits,
/// as the crate's table holds.
#[verifier::external_body]
fn escape_byte(b: u8) -> (r: &'static str)
    ensures
        r@ == byte_escape(b),
{
    percent_encoding::percent_encode_byte(b)
}

/// What percent-decoding a path segment gives: each `%` followed by two
/// hexadecimal digits stands for that byte, and the bytes are read as UTF-8,
/// with U+FFFD in place of each invalid sequence.
pub uninterp spec fn percent_decoded(s: Seq<char>) -> Seq<char>;

/// Trusted: calls `percent_encoding::percent_decode_str` and the result's
/// `decode_utf8_lossy`; claims the result is the named decoding of the
/// argument, and that a segment without `%` comes back unchanged (its bytes
/// pass through and are the UTF-8 of the same text).
#[verifier::external_body]
pub(crate) fn decode_path_segment(s: &str) -> (r: String)
    ensures
        r@ == percent_decoded(s@),
        !s@.contains('%') ==> r@ == s@,
{
    percent_encoding::percent_decode_str(s).decode_utf8_lossy().into_owned()
}

/// Bytes percent-encoded as RFC 3986 asks: unreserved bytes as their
/// characters, every other byte escaped.
pub open spec fn rfc3986_encoded(bytes: Seq<u8>) -> Seq<char>
    decreases bytes.len(),
{
    if bytes.len() == 0 {
        Seq::empty()
    } else {
        rfc3986_encoded(bytes.drop_last()) + if unreserved(bytes.last()) {
            seq![bytes.last() as char]
        } else {
            byte_escape(bytes.last())
        }
    }
}

/// RFC 3986 encoding writes no `/`: the byte of `/` is escaped.
pub proof fn lemma_encoded_has_no_slash(bytes: Seq<u8>)
    ensures
        forall|i: int| 0 <= i < rfc3986_encoded(bytes).len() ==> rfc3986_encoded(bytes)[i] != '/',
    decreases bytes.len(),
{
    if bytes.len() > 0 {
        lemma_encoded_has_no_slash(bytes.drop_last());
        let b = bytes.last();
        let head = rfc3986_encoded(bytes.drop_last());
        let piece = if unreserved(b) {
            seq![b as char]
        } else {
            byte_escape(b)
        };
        assert(rfc3986_encoded(bytes) == head + piece);
        assert forall|i: int| 0 <= i < piece.len() implies piece[i] != '/' by {
            if !unreserved(b) {
                let hi = (b / 16) as nat;
                let lo = (b % 16) as nat;
                assert(hi < 16 && lo < 16);
                lemma_upper_hex_not_slash(hi);
                lemma_upper_hex_not_slash(lo);
            }
        }
    }
}

/// No hexadecimal digit is `/`.
proof fn lemma_upper_hex_not_slash(d: nat)
    requires
        d < 16,
    ensures
        upper_hex(d) != '/',
{
    if d < 10 {
        assert(((d + 48) as u8) as char == (d + 48) as char);
    } else {
        assert(((d + 55) as u8) as char == (d + 55) as char);
    }
}

/// The RFC 3986 encoding of some bytes begins with `_` exactly when the
/// bytes begin with the byte of `_`, and is empty only when they are.
pub proof fn lemma_encoded_first(bytes: Seq<u8>)
    requires
        bytes.len() > 0,
    ensures
        rfc3986_encoded(bytes).len() > 0,
        rfc3986_encoded(bytes)[0] == '_' <==> bytes[0] == 95,
    decreases bytes.len(),
{
    let b = bytes.last();
    let head = rfc3986_encoded(bytes.drop_last());
    let piece = if unreserved(b) {
        seq![b as char]
    } else {
        byte_escape(b)
    };
    assert(rfc3986_encoded(bytes) == head + piece);
    if bytes.len() == 1 {
        assert(head.len() == 0);
        assert((head + piece)[0] == piece[0]);
        if unreserved(b) {
            assert((b as char) == '_' <==> b == 95);
        }
    } else {
        lemma_encoded_first(bytes.drop_last());
        assert((head + piece)[0] == head[0]);
    }
}

/// Leading bytes of UTF-8 encodings: only the one-byte encoding of `_` is
/// the byte of `_`.
proof fn lemma_leading_bytes(c: u32)
    by (bit_vector)
    ensures
        c <= 0x7F ==> (((c & 0x7F) as u8 == 95) <==> c == 95),
        (0xC0 | ((c >> 6) & 0x1F) as u8) != 95,
        (0xE0 | ((c >> 12) & 0x0F) as u8) != 95,
        (0xF0 | ((c >> 18) & 0x7) as u8) != 95,
{
}

/// The UTF-8 encoding of a text begins with the byte of `_` exactly when
/// the text begins with `_`, and is empty only when the text is.
pub proof fn lemma_utf8_first(t: Seq<char>)
    requires
        t.len() > 0,
    ensures
        vstd::utf8::encode_utf8(t).len() > 0,
        vstd::utf8::encode_utf8(t)[0] == 95 <==> t[0] == '_',
{
    let c = t[0] as u32;
    let first = vstd::utf8::encode_scalar(c);
    assert(vstd::utf8::encode_utf8(t) == first + vstd::utf8::encode_utf8(t.drop_first()));
    lemma_leading_bytes(c);
    assert(first.len() > 0);
    assert((first + vstd::utf8::encode_utf8(t.drop_first()))[0] == first[0]);
    assert(('_' as u32) == 95);
    vstd::utf8::char_u32_cast(t[0], c);
    vstd::utf8::char_u32_cast('_', 95);
    assert(t[0] == '_' <==> c == 95);
}

/// Percent-encodes the UTF-8 bytes of a text as RFC 3986 asks.
pub fn encode_rfc3986(s: String) -> (r: Vec<char>)
    ensures
        r@ == rfc3986_encoded(vstd::utf8::encode_utf8(s@)),
{
    let bytes = crate::async_pool::string_bytes(s);
    let mut out: Vec<char> = Vec::new();
    let mut i: usize = 0;
    while i < bytes.len()
        invariant
            i <= bytes@.len(),
            out@ == rfc3986_encoded(bytes@.take(i as int)),
        decreases bytes.len() - i,
    {
        assert(bytes@.take(i + 1).drop_last() =~= bytes@.take(i as int));
        let b = bytes[i];
        if (48 <= b && b <= 57) || (65 <= b && b <= 90) || (97 <= b && b <= 122) || b == 45 || b == 46
            || b == 95 || b == 126 {
            out.push(b as char);
            assert(out@ =~= rfc3986_encoded(bytes@.take(i + 1)));
        } else {
            append_str(&mut out, escape_byte(b));
            assert(out@ =~= rfc3986_encoded(bytes@.take(i + 1)));
        }
        i = i + 1;
    }
    assert(bytes@.take(i as int) =~= bytes@);
    out
}

/// The position of the last `/` of a path, if any.
pub open spec fn last_slash(path: Seq<char>) -> Option<int> {
    if exists|i: int| 0 <= i < path.len() && path[i] == '/' {
        Some(choose|i: int| 0 <= i < path.len() && path[i] == '/' && forall|j: int| i < j < path.len() ==> path[j] != '/')
    } else {
        None
    }
}

/// The path with its last segment (the text after the last `/`, or all of
/// it) percent-encoded when that segment holds a character that may not
/// stand unencoded; otherwise the path as it is.
pub open spec fn fixed_path(path: Seq<char>) -> Seq<char> {
    if segment_ok(last_segment(path)) {
        path
    } else {
        through_last_slash(path) + rfc3986_encoded(vstd::utf8::encode_utf8(last_segment(path)))
    }
}

/// The last segment of a path: the text after its last `/`, or all of it.
pub open spec fn last_segment(path: Seq<char>) -> Seq<char> {
    match last_slash(path) {
        Some(i) => path.subrange(i + 1, path.len() as int),
        None => path,
    }
}

/// The path up to and including its last `/`; empty without one.
pub open spec fn through_last_slash(path: Seq<char>) -> Seq<char> {
    match last_slash(path) {
        Some(i) => path.subrange(0, i + 1),
        None => Seq::empty(),
    }
}

/// Every character of the segment may stand unencoded.
pub open spec fn segment_ok(s: Seq<char>) -> bool {
    forall|k: int| 0 <= k < s.len() ==> segment_safe(#[trigger] s[k])
}

/// Percent-encodes the last segment of a path when a client sent it
/// unencoded.
pub fn fix_percent_encoding(path: &str) -> (r: String)
    ensures
        r@ == fixed_path(path@),
{
    let cs = chars_of(path);
    let n = cs.len();
    let cut = rfind_char(cs.as_slice(), '/');
    proof {
        match cut {
            Some(i) => {
                let w = choose|k: int|
                    0 <= k < cs@.len() && cs@[k] == '/' && forall|j: int| k < j < cs@.len() ==> cs@[j] != '/';
                assert(exists|k: int| 0 <= k < cs@.len() && cs@[k] == '/');
                if w < i {
                    assert(cs@[i as int] != '/');
                } else if w > i {
                    assert(cs@[w] != '/');
                }
                assert(w == i);
                assert(last_slash(cs@) == Some(i as int));
            },
            None => {
                assert(last_slash(cs@) is None);
            },
        }
    }
    let start = match cut {
        Some(i) => i + 1,
        None => 0,
    };
    let name = slice_chars(cs.as_slice(), start, n);
    let mut safe = true;
    let mut k: usize = 0;
    while k < name.len()
        invariant
            k <= name@.len(),
            safe == forall|j: int| 0 <= j < k ==> segment_safe(#[trigger] name@[j]),
        decreases name.len() - k,
    {
        let c = name[k];
        let ok = ('0' <= c && c <= '9') || ('A' <= c && c <= 'Z') || ('a' <= c && c <= 'z') || c == '-'
            || c == '.' || c == '_' || c == '~' || c == '%';
        if !ok {
            safe = false;
        }
        k = k + 1;
    }
    assert(name@ =~= last_segment(path@));
    if safe {
        assert(segment_ok(name@));
        return String::from_str(path);
    }
    let name_text = string_from_chars(name.as_slice());
    let encoded = encode_rfc3986(name_text);
    match cut {
        Some(i) => {
            let parent = slice_chars(cs.as_slice(), 0, i + 1);
            let mut t: Vec<char> = parent;
            crate::text::append_chars(&mut t, encoded.as_slice());
            proof {
                let nm = path@.subrange(i + 1, path@.len() as int);
                assert(name@ =~= nm);
                assert(!(forall|j: int| 0 <= j < nm.len() ==> segment_safe(nm[j])));
                assert(t@ =~= path@.subrange(0, i + 1) + rfc3986_encoded(vstd::utf8::encode_utf8(nm)));
                assert(last_slash(path@) == Some(i as int));
                assert(last_segment(path@) == nm);
                assert(!segment_ok(nm));
            }
            string_from_chars(t.as_slice())
        },
        None => {
            assert(name@ =~= path@);
            assert(last_segment(path@) == path@);
            assert(!segment_ok(path@));
            assert(through_last_slash(path@) + encoded@ =~= encoded@);
            string_from_chars(encoded.as_slice())
        },
    }
}


/// The last segment of a path: the text after its last `/`, or all of it.
pub fn last_segment_of(path: &str) -> (r: String)
    ensures
        r@ == last_segment(path@),
{
    let cs = chars_of(path);
    let n = cs.len();
    let cut = rfind_char(cs.as_slice(), '/');
    proof {
        match cut {
            Some(i) => {
                let w = choose|k: int|
                    0 <= k < cs@.len() && cs@[k] == '/' && forall|j: int| k < j < cs@.len() ==> cs@[j] != '/';
                assert(exists|k: int| 0 <= k < cs@.len() && cs@[k] == '/');
                if w < i {
                    assert(cs@[i as int] != '/');
                } else if w > i {
                    assert(cs@[w] != '/');
                }
                assert(last_slash(cs@) == Some(i as int));
            },
            None => {
                assert(last_slash(cs@) is None);
            },
        }
    }
    let start = match cut {
        Some(i) => i + 1,
        None => 0,
    };
    let name = slice_chars(cs.as_slice(), start, n);
    proof {
        match cut {
            Some(i) => {},
            None => {
                assert(name@ =~= path@);
            },
        }
    }
    string_from_chars(name.as_slice())
}


/// Every character of an RFC 3986 encoding may stand unencoded in a path
/// segment: unreserved characters, `%` and upper-case hexadecimal digits.
proof fn lemma_encoded_segment_ok(bytes: Seq<u8>)
    ensures
        segment_ok(rfc3986_encoded(bytes)),
    decreases bytes.len(),
{
    if bytes.len() > 0 {
        lemma_encoded_segment_ok(bytes.drop_last());
        let b = bytes.last();
        let head = rfc3986_encoded(bytes.drop_last());
        let piece = if unreserved(b) {
            seq![b as char]
        } else {
            byte_escape(b)
        };
        let all = rfc3986_encoded(bytes);
        assert(all == head + piece);
        assert forall|k: int| 0 <= k < all.len() implies segment_safe(#[trigger] all[k]) by {
            if k >= head.len() {
                let j = k - head.len();
                assert(all[k] == piece[j]);
                if unreserved(b) {
                    assert((b as char) as u32 == b as u32);
                } else {
                    let hi = (b / 16) as nat;
                    let lo = (b % 16) as nat;
                    if j == 1 {
                        lemma_upper_hex_safe(hi);
                    } else if j == 2 {
                        lemma_upper_hex_safe(lo);
                    }
                }
            } else {
                assert(all[k] == head[k]);
            }
        }
    }
}

/// Every hexadecimal digit may stand unencoded.
proof fn lemma_upper_hex_safe(d: nat)
    requires
        d < 16,
    ensures
        segment_safe(upper_hex(d)),
{
    if d < 10 {
        assert(((d + 48) as u8) as char == (d + 48) as char);
    } else {
        assert(((d + 55) as u8) as char == (d + 55) as char);
    }
}

/// The last `/` of a path is at `i` when `i` holds one and none follows.
proof fn lemma_last_slash_at(path: Seq<char>, i: int)
    requires
        0 <= i < path.len(),
        path[i] == '/',
        forall|j: int| i < j < path.len() ==> path[j] != '/',
    ensures
        last_slash(path) == Some(i),
{
    let w = choose|k: int| 0 <= k < path.len() && path[k] == '/' && forall|j: int| k < j < path.len() ==> path[j] != '/';
    assert(0 <= w < path.len() && path[w] == '/' && forall|j: int| w < j < path.len() ==> path[j] != '/');
    if w < i {
        assert(path[i] != '/');
    } else if w > i {
        assert(path[w] != '/');
    }
}

/// A path made of a prefix that is empty or ends in `/` and a segment
/// without `/` whose characters may all stand unencoded has that prefix and
/// segment, and needs no repair.
proof fn lemma_clean_path(pre: Seq<char>, e: Seq<char>)
    requires
        pre.len() == 0 || pre.last() == '/',
        forall|k: int| 0 <= k < e.len() ==> e[k] != '/',
        segment_ok(e),
    ensures
        last_segment(pre + e) == e,
        through_last_slash(pre + e) == pre,
        fixed_path(pre + e) == pre + e,
{
    let q = pre + e;
    if pre.len() == 0 {
        assert(q =~= e);
        assert(!(exists|k: int| 0 <= k < q.len() && q[k] == '/'));
    } else {
        let i = pre.len() - 1;
        assert(q[i] == '/');
        assert forall|j: int| i < j < q.len() implies q[j] != '/' by {
            assert(q[j] == e[j - pre.len()]);
        }
        lemma_last_slash_at(q, i);
        assert(q.subrange(i + 1, q.len() as int) =~= e);
        assert(q.subrange(0, i + 1) =~= pre);
    }
}

/// A path that holds a `/` has a last one.
proof fn lemma_last_slash_exists(path: Seq<char>)
    requires
        exists|k: int| 0 <= k < path.len() && path[k] == '/',
    ensures
        exists|i: int| 0 <= i < path.len() && path[i] == '/' && forall|j: int| i < j < path.len() ==> path[j] != '/',
    decreases path.len(),
{
    let n = path.len() as int;
    if path[n - 1] == '/' {
        assert(0 <= n - 1 < n && path[n - 1] == '/' && forall|j: int| n - 1 < j < n ==> path[j] != '/');
    } else {
        let t = path.drop_last();
        let k = choose|k: int| 0 <= k < path.len() && path[k] == '/';
        assert(t[k] == '/');
        lemma_last_slash_exists(t);
        let i = choose|i: int| 0 <= i < t.len() && t[i] == '/' && forall|j: int| i < j < t.len() ==> t[j] != '/';
        assert(path[i] == '/');
        assert forall|j: int| i < j < path.len() implies path[j] != '/' by {
            if j < t.len() {
                assert(path[j] == t[j]);
            }
        }
    }
}

/// The part of a path up to its last `/` is empty or ends in `/`.
proof fn lemma_prefix_ends_in_slash(path: Seq<char>)
    ensures
        through_last_slash(path).len() == 0 || through_last_slash(path).last() == '/',
{
    if exists|k: int| 0 <= k < path.len() && path[k] == '/' {
        lemma_last_slash_exists(path);
        let i = last_slash(path)->0;
        assert(0 <= i < path.len() && path[i] == '/');
        assert(through_last_slash(path).last() == path[i]);
    }
}

/// Repairing a path keeps it up to and including its last `/`, and
/// repairing it again changes nothing.
pub proof fn lemma_fix_idempotent(path: Seq<char>)
    ensures
        through_last_slash(fixed_path(path)) == through_last_slash(path),
        fixed_path(fixed_path(path)) == fixed_path(path),
{
    if !segment_ok(last_segment(path)) {
        let bytes = vstd::utf8::encode_utf8(last_segment(path));
        let pre = through_last_slash(path);
        let e = rfc3986_encoded(bytes);
        assert(fixed_path(path) == pre + e);
        lemma_encoded_has_no_slash(bytes);
        lemma_encoded_segment_ok(bytes);
        lemma_prefix_ends_in_slash(path);
        lemma_clean_path(pre, e);
    }
}


/// A path is its part up to its last `/` followed by its last segment.
proof fn lemma_path_parts(path: Seq<char>)
    ensures
        path == through_last_slash(path) + last_segment(path),
{
    match last_slash(path) {
        Some(i) => {
            lemma_last_slash_exists(path);
            assert(path =~= path.subrange(0, i + 1) + path.subrange(i + 1, path.len() as int));
        },
        None => {
            assert(path =~= Seq::<char>::empty() + path);
        },
    }
}

/// Repairing changes a path exactly when its last segment holds a character
/// that may not stand unencoded.
pub proof fn lemma_fix_changes_only_unsafe(path: Seq<char>)
    ensures
        fixed_path(path) == path <==> segment_ok(last_segment(path)),
{
    if !segment_ok(last_segment(path)) {
        let bytes = vstd::utf8::encode_utf8(last_segment(path));
        let pre = through_last_slash(path);
        let e = rfc3986_encoded(bytes);
        lemma_encoded_segment_ok(bytes);
        lemma_path_parts(path);
        if fixed_path(path) == path {
            assert(pre + e == pre + last_segment(path));
            assert(e =~= (pre + e).subrange(pre.len() as int, (pre + e).len() as int));
            assert(last_segment(path) =~= (pre + last_segment(path)).subrange(
                pre.len() as int,
                (pre + last_segment(path)).len() as int,
            ));
            assert(e == last_segment(path));
        }
    }
}
} // verus!
