//! URNs that name WebDAV locks and sync-collection tokens, such as
//! `urn:a3mailer:davlock:3039` and `urn:a3mailer:davsync:10932:2a`.
use vstd::prelude::*;

use crate::text::{
    all_digits, append_chars, append_str, chars_of, digit_value, find_char, first_index, has_char,
    has_prefix, hex, hex_chars, lemma_numeral_digits, parse_unsigned, parse_unsigned_chars,
    slice_chars, starts_with, string_from_chars,
};

verus! {

/// A lock token or a sync token.
#[derive(Debug, Clone, Copy, PartialEq, Eq, Structural)]
pub enum Urn {
    Lock(u64),
    Sync { id: u64, seq: u32 },
}

/// The prefix shared by all tokens.
pub open spec fn urn_prefix() -> Seq<char> {
    "urn:a3mailer:"@
}

/// The prefix of sync tokens.
pub open spec fn sync_prefix() -> Seq<char> {
    "urn:a3mailer:davsync:"@
}

/// The text of a token: the lock id in lower-case hexadecimal, or the sync
/// id followed, when the sequence number is not zero, by `:` and the
/// sequence number in hexadecimal.
pub open spec fn urn_text(u: Urn) -> Seq<char> {
    match u {
        Urn::Lock(id) => "urn:a3mailer:davlock:"@ + hex(id as nat),
        Urn::Sync { id, seq } => if seq == 0 {
            sync_prefix() + hex(id as nat)
        } else {
            sync_prefix() + hex(id as nat) + seq![':'] + hex(seq as nat)
        },
    }
}

/// How the token text after `urn:a3mailer:davsync:` is read: a hexadecimal
/// id, optionally followed by `:` and a hexadecimal sequence number.
pub open spec fn parse_sync_part(id: Seq<char>) -> Option<Urn> {
    match first_index(id, ':') {
        Some(j) => match (
            parse_unsigned(id.take(j), 16, u64::MAX as nat),
            parse_unsigned(id.skip(j + 1), 16, u32::MAX as nat),
        ) {
            (Some(a), Some(b)) => Some(Urn::Sync { id: a as u64, seq: b as u32 }),
            _ => None,
        },
        None => match parse_unsigned(id, 16, u64::MAX as nat) {
            Some(a) => Some(Urn::Sync { id: a as u64, seq: 0 }),
            None => None,
        },
    }
}

/// How a token is read: after `urn:a3mailer:`, a kind (`davlock` or
/// `davsync`) up to the first `:`, then the kind's numbers.
pub open spec fn parse_urn(s: Seq<char>) -> Option<Urn> {
    if !starts_with(s, urn_prefix()) {
        None
    } else {
        let rest = s.skip(urn_prefix().len() as int);
        match first_index(rest, ':') {
            None => None,
            Some(i) => parse_kind(rest.take(i), rest.skip(i + 1)),
        }
    }
}

/// How the numbers of a token of the given kind are read.
pub open spec fn parse_kind(kind: Seq<char>, id: Seq<char>) -> Option<Urn> {
    if kind == "davlock"@ {
        match parse_unsigned(id, 16, u64::MAX as nat) {
            Some(a) => Some(Urn::Lock(a as u64)),
            None => None,
        }
    } else if kind == "davsync"@ {
        parse_sync_part(id)
    } else {
        None
    }
}

/// The sync id part of a sync token: the text after
/// `urn:a3mailer:davsync:` up to the next `:`, or to its end.
pub open spec fn sync_id_part(s: Seq<char>) -> Option<Seq<char>> {
    if !starts_with(s, sync_prefix()) {
        None
    } else {
        let rest = s.skip(sync_prefix().len() as int);
        match first_index(rest, ':') {
            Some(i) => Some(rest.take(i)),
            None => Some(rest),
        }
    }
}

impl Urn {
    /// The sync id written in a sync token, if `token` is one.
    pub fn try_extract_sync_id(token: &str) -> (r: Option<String>)
        ensures
            r matches Some(x) ==> sync_id_part(token@) == Some(x@),
            r is None ==> sync_id_part(token@) is None,
    {
        let cs = chars_of(token);
        let pre = chars_of("urn:a3mailer:davsync:");
        if !has_prefix(cs.as_slice(), pre.as_slice()) {
            return None;
        }
        let rest = slice_chars(cs.as_slice(), pre.len(), cs.len());
        assert(rest@ =~= token@.skip(sync_prefix().len() as int));
        match find_char(rest.as_slice(), ':') {
            Some(i) => {
                let part = slice_chars(rest.as_slice(), 0, i);
                assert(part@ =~= rest@.take(i as int));
                Some(string_from_chars(part.as_slice()))
            },
            None => Some(string_from_chars(rest.as_slice())),
        }
    }

    /// Reads a lock or sync token.
    pub fn parse(input: &str) -> (r: Option<Urn>)
        ensures
            r == parse_urn(input@),
    {
        let cs = chars_of(input);
        let pre = chars_of("urn:a3mailer:");
        if !has_prefix(cs.as_slice(), pre.as_slice()) {
            return None;
        }
        let rest = slice_chars(cs.as_slice(), pre.len(), cs.len());
        assert(rest@ =~= input@.skip(urn_prefix().len() as int));
        let i = match find_char(rest.as_slice(), ':') {
            Some(i) => i,
            None => return None,
        };
        let kind = slice_chars(rest.as_slice(), 0, i);
        let id = slice_chars(rest.as_slice(), i + 1, rest.len());
        assert(kind@ =~= rest@.take(i as int));
        assert(id@ =~= rest@.skip(i + 1));
        let lock_kind = chars_of("davlock");
        let sync_kind = chars_of("davsync");
        if crate::text::chars_eq(kind.as_slice(), lock_kind.as_slice()) {
            match parse_unsigned_chars(id.as_slice(), 16, u64::MAX) {
                Some(a) => Some(Urn::Lock(a)),
                None => None,
            }
        } else if crate::text::chars_eq(kind.as_slice(), sync_kind.as_slice()) {
            match find_char(id.as_slice(), ':') {
                Some(j) => {
                    let a_part = slice_chars(id.as_slice(), 0, j);
                    let b_part = slice_chars(id.as_slice(), j + 1, id.len());
                    assert(a_part@ =~= id@.take(j as int));
                    assert(b_part@ =~= id@.skip(j + 1));
                    let a = parse_unsigned_chars(a_part.as_slice(), 16, u64::MAX);
                    let b = parse_unsigned_chars(b_part.as_slice(), 16, u32::MAX as u64);
                    match (a, b) {
                        (Some(a), Some(b)) => Some(Urn::Sync { id: a, seq: b as u32 }),
                        _ => None,
                    }
                },
                None => match parse_unsigned_chars(id.as_slice(), 16, u64::MAX) {
                    Some(a) => Some(Urn::Sync { id: a, seq: 0 }),
                    None => None,
                },
            }
        } else {
            None
        }
    }

    /// The lock id, if this is a lock token.
    pub fn try_unwrap_lock(&self) -> (r: Option<u64>)
        ensures
            r == (match *self {
                Urn::Lock(id) => Some(id),
                _ => None,
            }),
    {
        match self {
            Urn::Lock(id) => Some(*id),
            _ => None,
        }
    }

    /// The sync id and sequence number, if this is a sync token.
    pub fn try_unwrap_sync(&self) -> (r: Option<(u64, u32)>)
        ensures
            r == (match *self {
                Urn::Sync { id, seq } => Some((id, seq)),
                _ => None,
            }),
    {
        match self {
            Urn::Sync { id, seq } => Some((*id, *seq)),
            _ => None,
        }
    }

    /// The token's text, as its `Display` form writes it.
    pub fn to_string(&self) -> (r: String)
        ensures
            r@ == urn_text(*self),
    {
        let mut out: Vec<char> = Vec::new();
        match self {
            Urn::Lock(id) => {
                append_str(&mut out, "urn:a3mailer:davlock:");
                let h = hex_chars(*id);
                append_chars(&mut out, h.as_slice());
            },
            Urn::Sync { id, seq } => {
                append_str(&mut out, "urn:a3mailer:davsync:");
                let h = hex_chars(*id);
                append_chars(&mut out, h.as_slice());
                if *seq != 0 {
                    out.push(':');
                    let s = hex_chars(*seq as u64);
                    append_chars(&mut out, s.as_slice());
                }
            },
        }
        assert(out@ =~= urn_text(*self));
        string_from_chars(out.as_slice())
    }
}

/// A numeral holds no `:`.
proof fn lemma_hex_has_no_colon(n: nat)
    ensures
        !has_char(hex(n), ':'),
{
    lemma_numeral_digits(n, 16);
    if has_char(hex(n), ':') {
        let i = choose|i: int| 0 <= i < hex(n).len() && hex(n)[i] == ':';
        assert(digit_value(hex(n)[i], 16) is Some);
    }
}

/// The first `:` of `a + [':'] + b` is at the end of `a` when `a` holds none.
proof fn lemma_first_colon(a: Seq<char>, b: Seq<char>)
    requires
        !has_char(a, ':'),
    ensures
        first_index(a + seq![':'] + b, ':') == Some(a.len() as int),
{
    let s = a + seq![':'] + b;
    assert(s[a.len() as int] == ':');
    assert(has_char(s, ':'));
    let w = choose|i: int| 0 <= i < s.len() && s[i] == ':' && forall|j: int| 0 <= j < i ==> s[j] != ':';
    assert forall|j: int| 0 <= j < a.len() implies s[j] != ':' by {
        assert(s[j] == a[j]);
    }
    if w < a.len() {
        assert(s[w] == a[w]);
    }
}

/// A text with no `:` has no first `:`.
proof fn lemma_no_colon(a: Seq<char>)
    requires
        !has_char(a, ':'),
    ensures
        first_index(a, ':') is None,
{
}

/// The parts of a text made of the common prefix, a kind without `:`, a
/// `:` and a tail.
proof fn lemma_shape_parts(kind: Seq<char>, tail: Seq<char>)
    requires
        !has_char(kind, ':'),
    ensures
        ({
            let s = urn_prefix() + kind + seq![':'] + tail;
            let rest = s.skip(urn_prefix().len() as int);
            &&& starts_with(s, urn_prefix())
            &&& first_index(rest, ':') == Some(kind.len() as int)
            &&& rest.take(kind.len() as int) == kind
            &&& rest.skip(kind.len() as int + 1) == tail
        }),
{
    let p = urn_prefix();
    let s = p + kind + seq![':'] + tail;
    let n = p.len() as int;
    assert(s.subrange(0, n) =~= p);
    let rest = s.skip(n);
    assert(rest =~= kind + seq![':'] + tail);
    lemma_first_colon(kind, tail);
    assert(rest.take(kind.len() as int) =~= kind);
    assert(rest.skip(kind.len() as int + 1) =~= tail);
}

/// The shape of every token's text: the common prefix, a kind without `:`,
/// a `:` and the kind's numbers.
proof fn lemma_parse_shape(kind: Seq<char>, tail: Seq<char>)
    requires
        !has_char(kind, ':'),
    ensures
        parse_urn(urn_prefix() + kind + seq![':'] + tail) == parse_kind(kind, tail),
{
    lemma_shape_parts(kind, tail);
}

/// `davlock` and `davsync` hold no `:` and differ.
proof fn lemma_kinds()
    ensures
        !has_char("davlock"@, ':'),
        !has_char("davsync"@, ':'),
        "davlock"@ != "davsync"@,
{
    reveal_strlit("davlock");
    reveal_strlit("davsync");
    assert("davlock"@[3] != "davsync"@[3]);
}

/// The text of a lock token in its parts.
proof fn lemma_lock_text(id: u64)
    ensures
        urn_text(Urn::Lock(id)) == urn_prefix() + "davlock"@ + seq![':'] + hex(id as nat),
{
    reveal_strlit("urn:a3mailer:davlock:");
    reveal_strlit("urn:a3mailer:");
    reveal_strlit("davlock");
    assert("urn:a3mailer:davlock:"@ =~= urn_prefix() + "davlock"@ + seq![':']);
    assert(urn_text(Urn::Lock(id)) =~= urn_prefix() + "davlock"@ + seq![':'] + hex(id as nat));
}

/// The text of a sync token in its parts.
proof fn lemma_sync_text(id: u64, seq: u32)
    ensures
        urn_text(Urn::Sync { id, seq }) == urn_prefix() + "davsync"@ + seq![':'] + (if seq == 0 {
            hex(id as nat)
        } else {
            hex(id as nat) + seq![':'] + hex(seq as nat)
        }),
{
    reveal_strlit("urn:a3mailer:davsync:");
    reveal_strlit("urn:a3mailer:");
    reveal_strlit("davsync");
    assert(sync_prefix() =~= urn_prefix() + "davsync"@ + seq![':']);
    if seq == 0 {
        assert(urn_text(Urn::Sync { id, seq }) =~= urn_prefix() + "davsync"@ + seq![':'] + hex(id as nat));
    } else {
        assert(urn_text(Urn::Sync { id, seq }) =~= urn_prefix() + "davsync"@ + seq![':'] + (hex(id as nat) + seq![':'] + hex(seq as nat)));
    }
}

/// Reading back the text of any token gives the token.
pub proof fn lemma_urn_roundtrip(u: Urn)
    ensures
        parse_urn(urn_text(u)) == Some(u),
{
    lemma_kinds();
    match u {
        Urn::Lock(id) => {
            lemma_lock_text(id);
            lemma_parse_shape("davlock"@, hex(id as nat));
            crate::text::lemma_parse_numeral(id as nat, 16, u64::MAX as nat);
        },
        Urn::Sync { id, seq } => {
            lemma_sync_text(id, seq);
            lemma_hex_has_no_colon(id as nat);
            crate::text::lemma_parse_numeral(id as nat, 16, u64::MAX as nat);
            let tail = if seq == 0 {
                hex(id as nat)
            } else {
                hex(id as nat) + seq![':'] + hex(seq as nat)
            };
            lemma_parse_shape("davsync"@, tail);
            if seq == 0 {
                lemma_no_colon(hex(id as nat));
            } else {
                lemma_first_colon(hex(id as nat), hex(seq as nat));
                crate::text::lemma_parse_numeral(seq as nat, 16, u32::MAX as nat);
                assert(tail.take(hex(id as nat).len() as int) =~= hex(id as nat));
                assert(tail.skip(hex(id as nat).len() as int + 1) =~= hex(seq as nat));
            }
        },
    }
}

/// The sync id extracted from the text of a sync token is its id in
/// hexadecimal.
pub proof fn lemma_sync_id_of_text(id: u64, seq: u32)
    ensures
        sync_id_part(urn_text(Urn::Sync { id, seq })) == Some(hex(id as nat)),
{
    reveal_strlit("urn:a3mailer:davsync:");
    let s = urn_text(Urn::Sync { id, seq });
    assert(s.subrange(0, 21) =~= sync_prefix());
    let rest = s.skip(21);
    lemma_hex_has_no_colon(id as nat);
    if seq == 0 {
        assert(rest =~= hex(id as nat));
    } else {
        assert(rest =~= hex(id as nat) + seq![':'] + hex(seq as nat));
        lemma_first_colon(hex(id as nat), hex(seq as nat));
        assert(rest.take(hex(id as nat).len() as int) =~= hex(id as nat));
    }
}

} // verus!
