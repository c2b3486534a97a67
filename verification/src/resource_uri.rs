//! Request paths of the form `.../dav/<kind>/<account>/<resource>`: which
//! resource tree, which account and which resource within it they name, and
//! when a request for them is refused.
use vstd::prelude::*;

use crate::path::{
    decode_path_segment, encode_rfc3986, lemma_encoded_first, lemma_encoded_has_no_slash, lemma_utf8_first,
    percent_decoded, rfc3986_encoded,
};
use crate::request::DavResourceName;
use crate::text::{
    chars_of, find_char, find_chars, first_index, first_occurrence, has_char, occurs_at, parse_unsigned,
    parse_unsigned_chars, slice_chars, string_from_chars, trim_end_char, trimmed_end_len,
};

verus! {

/// The text that begins the DAV part of a request path.
pub open spec fn dav_marker() -> Seq<char> {
    seq!['/', 'd', 'a', 'v', '/']
}

/// A text cut at its first two `/` into at most three pieces; the third
/// piece keeps any further `/`.
pub open spec fn split_three(s: Seq<char>) -> Seq<Seq<char>> {
    match first_index(s, '/') {
        None => seq![s],
        Some(i) => {
            let t = s.skip(i + 1);
            match first_index(t, '/') {
                None => seq![s.take(i), t],
                Some(j) => seq![s.take(i), t.take(j), t.skip(j + 1)],
            }
        },
    }
}

/// The pieces that are not empty, in order.
pub open spec fn drop_empty(p: Seq<Seq<char>>) -> Seq<Seq<char>>
    decreases p.len(),
{
    if p.len() == 0 {
        p
    } else if p.last().len() > 0 {
        drop_empty(p.drop_last()).push(p.last())
    } else {
        drop_empty(p.drop_last())
    }
}

/// The segments of a request path: the text after the first `/dav/`,
/// without trailing `/`, cut at its first two `/`, empty pieces left out;
/// nothing when the path holds no `/dav/`.
pub open spec fn uri_segments(uri: Seq<char>) -> Option<Seq<Seq<char>>> {
    match dav_tail(uri) {
        None => None,
        Some(t) => Some(drop_empty(split_three(t))),
    }
}

/// The text after the first `/dav/` of a request path, without trailing
/// `/`; nothing when the path holds no `/dav/`.
pub open spec fn dav_tail(uri: Seq<char>) -> Option<Seq<char>> {
    match first_occurrence(uri, dav_marker()) {
        None => None,
        Some(p) => Some(trim_end_char(uri.skip(p + 5), '/')),
    }
}

/// How a request path names an account.
#[derive(Debug, Clone, PartialEq, Eq)]
pub enum AccountRef {
    /// By id, written `_` and the id in decimal.
    Id(u32),
    /// By name (percent-decoded).
    Name(String),
}

/// An account reference, with the name as text.
pub enum AccountView {
    Id(u32),
    Name(Seq<char>),
}

/// The view of an account reference.
pub open spec fn account_view(a: AccountRef) -> AccountView {
    match a {
        AccountRef::Id(n) => AccountView::Id(n),
        AccountRef::Name(s) => AccountView::Name(s@),
    }
}

/// How an account segment is read: `_` followed by a decimal id that fits
/// in 32 bits, or otherwise a percent-encoded name; `_` followed by anything
/// else is refused.
pub open spec fn read_account(seg: Seq<char>) -> Option<AccountView> {
    if seg.len() > 0 && seg[0] == '_' {
        match parse_unsigned(seg.skip(1), 10, u32::MAX as nat) {
            Some(n) => Some(AccountView::Id(n as u32)),
            None => None,
        }
    } else {
        Some(AccountView::Name(percent_decoded(seg)))
    }
}

/// A request path read into its resource tree, the account it names, if
/// any, and the resource path within the account, if any.
#[derive(Debug, Clone, PartialEq, Eq)]
pub struct DavUri {
    pub collection: DavResourceName,
    pub account: Option<AccountRef>,
    pub resource: Option<String>,
}

/// A read request path, as text.
pub open spec fn dav_uri_view(u: DavUri) -> (DavResourceName, Option<AccountView>, Option<Seq<char>>) {
    (
        u.collection,
        match u.account {
            Some(a) => Some(account_view(a)),
            None => None,
        },
        match u.resource {
            Some(r) => Some(r@),
            None => None,
        },
    )
}

/// How a request path is read: its first segment names the resource tree,
/// the second, if any, the account, and the third, if any, the resource.
/// Nothing when the path holds no `/dav/`, names no resource tree, or
/// names an account by a malformed id.
pub open spec fn read_dav_uri(uri: Seq<char>) -> Option<(DavResourceName, Option<AccountView>, Option<Seq<char>>)> {
    match uri_segments(uri) {
        None => None,
        Some(parts) => if parts.len() == 0 {
            None
        } else {
            match DavResourceName::named(parts[0]) {
                None => None,
                Some(k) => if parts.len() == 1 {
                    Some((k, None, None))
                } else {
                    match read_account(parts[1]) {
                        None => None,
                        Some(a) => Some((k, Some(a), if parts.len() > 2 { Some(parts[2]) } else { None })),
                    }
                },
            }
        },
    }
}

/// The pieces of `s` cut at its first two `/`.
fn split_three_exec(s: &Vec<char>) -> (r: Vec<Vec<char>>)
    ensures
        r@.map_values(|v: Vec<char>| v@) == split_three(s@),
{
    let mut r: Vec<Vec<char>> = Vec::new();
    match find_char(s.as_slice(), '/') {
        None => {
            r.push(slice_chars(s.as_slice(), 0, s.len()));
            assert(s@.subrange(0, s@.len() as int) =~= s@);
        },
        Some(i) => {
            let len = s.len();
            assert(i < len);
            let first = slice_chars(s.as_slice(), 0, i);
            let t = slice_chars(s.as_slice(), i + 1, len);
            assert(first@ =~= s@.take(i as int));
            assert(t@ =~= s@.skip(i + 1));
            r.push(first);
            match find_char(t.as_slice(), '/') {
                None => {
                    r.push(t);
                },
                Some(j) => {
                    let second = slice_chars(t.as_slice(), 0, j);
                    let third = slice_chars(t.as_slice(), j + 1, t.len());
                    assert(second@ =~= t@.take(j as int));
                    assert(third@ =~= t@.skip(j + 1));
                    r.push(second);
                    r.push(third);
                },
            }
        },
    }
    assert(r@.map_values(|v: Vec<char>| v@) =~= split_three(s@));
    r
}

/// The pieces that are not empty, in order.
fn drop_empty_exec(p: &Vec<Vec<char>>) -> (r: Vec<Vec<char>>)
    ensures
        r@.map_values(|v: Vec<char>| v@) == drop_empty(p@.map_values(|v: Vec<char>| v@)),
{
    let ghost pv = p@.map_values(|v: Vec<char>| v@);
    let mut r: Vec<Vec<char>> = Vec::new();
    let mut k: usize = 0;
    assert(pv.take(0) =~= Seq::<Seq<char>>::empty());
    while k < p.len()
        invariant
            k <= p@.len(),
            pv == p@.map_values(|v: Vec<char>| v@),
            r@.map_values(|v: Vec<char>| v@) == drop_empty(pv.take(k as int)),
        decreases p@.len() - k,
    {
        assert(pv.take(k + 1).drop_last() =~= pv.take(k as int));
        assert(pv.take(k + 1).last() == p@[k as int]@);
        if p[k].len() > 0 {
            let piece = slice_chars(p[k].as_slice(), 0, p[k].len());
            assert(piece@ =~= p@[k as int]@);
            let ghost before = r@;
            r.push(piece);
            assert(r@.map_values(|v: Vec<char>| v@) =~= before.map_values(|v: Vec<char>| v@).push(p@[k as int]@));
        }
        k = k + 1;
    }
    assert(pv.take(p@.len() as int) =~= pv);
    r
}

/// The text after the first `/dav/` of a request path; see `dav_tail`.
fn dav_tail_of(uri: &str) -> (r: Option<Vec<char>>)
    ensures
        r matches Some(v) ==> dav_tail(uri@) == Some(v@),
        r is None ==> dav_tail(uri@) is None,
{
    let cs = chars_of(uri);
    let marker: Vec<char> = vec!['/', 'd', 'a', 'v', '/'];
    assert(marker@ =~= dav_marker());
    let p = match find_chars(cs.as_slice(), marker.as_slice()) {
        None => return None,
        Some(p) => p,
    };
    let n = cs.len();
    assert(p + marker@.len() <= n);
    let rest = slice_chars(cs.as_slice(), p + 5, n);
    assert(rest@ =~= cs@.skip(p + 5));
    let m = trimmed_end_len(rest.as_slice(), '/');
    Some(slice_chars(rest.as_slice(), 0, m))
}

/// The segments of a request path; see `uri_segments`.
fn segments_of(uri: &str) -> (r: Option<Vec<Vec<char>>>)
    ensures
        r matches Some(v) ==> uri_segments(uri@) == Some(v@.map_values(|x: Vec<char>| x@)),
        r is None ==> uri_segments(uri@) is None,
{
    match dav_tail_of(uri) {
        None => None,
        Some(t) => {
            let pieces = split_three_exec(&t);
            Some(drop_empty_exec(&pieces))
        },
    }
}

/// Reads an account segment; see `read_account`.
fn account_of(seg: &[char]) -> (r: Option<AccountRef>)
    ensures
        r matches Some(a) ==> read_account(seg@) == Some(account_view(a)),
        r is None ==> read_account(seg@) is None,
{
    if seg.len() > 0 && seg[0] == '_' {
        let digits = slice_chars(seg, 1, seg.len());
        assert(digits@ =~= seg@.skip(1));
        match parse_unsigned_chars(digits.as_slice(), 10, 4294967295) {
            None => None,
            Some(n) => Some(AccountRef::Id(n as u32)),
        }
    } else {
        let text = string_from_chars(seg);
        Some(AccountRef::Name(decode_path_segment(text.as_str())))
    }
}

/// Reads a request path into its resource tree, account and resource, or
/// nothing where the path is not one of the server's: see `read_dav_uri`.
pub fn parse_dav_uri(uri: &str) -> (r: Option<DavUri>)
    ensures
        r matches Some(u) ==> read_dav_uri(uri@) == Some(dav_uri_view(u)),
        r is None ==> read_dav_uri(uri@) is None,
{
    let parts = match segments_of(uri) {
        None => return None,
        Some(v) => v,
    };
    let ghost pv = parts@.map_values(|v: Vec<char>| v@);
    if parts.len() == 0 {
        return None;
    }
    assert(pv[0] == parts@[0]@);
    let kind_text = string_from_chars(parts[0].as_slice());
    let collection = match DavResourceName::parse(kind_text.as_str()) {
        None => return None,
        Some(k) => k,
    };
    if parts.len() == 1 {
        return Some(DavUri { collection, account: None, resource: None });
    }
    assert(pv[1] == parts@[1]@);
    let account = match account_of(parts[1].as_slice()) {
        None => return None,
        Some(a) => a,
    };
    let resource = if parts.len() > 2 {
        assert(pv[2] == parts@[2]@);
        Some(string_from_chars(parts[2].as_slice()))
    } else {
        None
    };
    Some(DavUri { collection, account: Some(account), resource })
}

/// The account id that an account reference gives by itself: the id
/// written in the path, or the user's own id when the path names the user;
/// nothing when a directory lookup must decide.
pub open spec fn known_account(a: AccountView, user_name: Seq<char>, user_id: u32) -> Option<u32> {
    match a {
        AccountView::Id(n) => Some(n),
        AccountView::Name(s) => if s == user_name {
            Some(user_id)
        } else {
            None
        },
    }
}

/// The account id that an account reference gives by itself; see
/// `known_account`.
pub fn known_account_id(account: &AccountRef, user_name: &str, user_id: u32) -> (r: Option<u32>)
    ensures
        r == known_account(account_view(*account), user_name@, user_id),
{
    match account {
        AccountRef::Id(n) => Some(*n),
        AccountRef::Name(s) => if crate::text::str_is(s.as_str(), user_name) {
            Some(user_id)
        } else {
            None
        },
    }
}

/// A request path resolved to its resource tree, its account, when it
/// names one, and the resource within that account, when it names one.
#[derive(Debug, Clone, PartialEq, Eq)]
pub struct UnresolvedUri {
    pub collection: DavResourceName,
    pub account_id: Option<u32>,
    pub resource: Option<String>,
}

/// A resolved request path, as text.
pub open spec fn unresolved_view(u: UnresolvedUri) -> (DavResourceName, Option<u32>, Option<Seq<char>>) {
    (
        u.collection,
        u.account_id,
        match u.resource {
            Some(r) => Some(r@),
            None => None,
        },
    )
}

/// The outcome of validating a read request path, given the id of the
/// account it names (nothing when no account has that name) and whether the
/// user may reach that account's resources of this kind: a path that names
/// no account resolves as it is; an unknown account gives `error_status`;
/// an account the user may not reach gives 403, except in the principal
/// tree, which anyone may read.
pub open spec fn resolution(
    u: (DavResourceName, Option<AccountView>, Option<Seq<char>>),
    account_id: Option<u32>,
    has_access: bool,
    error_status: u16,
) -> Result<(DavResourceName, Option<u32>, Option<Seq<char>>), u16> {
    match u.1 {
        None => Ok((u.0, None, None)),
        Some(_) => match account_id {
            None => Err(error_status),
            Some(id) => if u.0 != DavResourceName::Principal && !has_access {
                Err(403)
            } else {
                Ok((u.0, Some(id), u.2))
            },
        },
    }
}

/// Completes the validation of a read request path once the account it
/// names has been looked up and the user's access to it checked; see
/// `resolution`.
pub fn resolve_uri(uri: DavUri, account_id: Option<u32>, has_access: bool, error_status: u16) -> (r: Result<UnresolvedUri, u16>)
    ensures
        r matches Ok(v) ==> resolution(dav_uri_view(uri), account_id, has_access, error_status) == Ok::<_, u16>(unresolved_view(v)),
        r matches Err(e) ==> resolution(dav_uri_view(uri), account_id, has_access, error_status) == Err::<(DavResourceName, Option<u32>, Option<Seq<char>>), u16>(e),
{
    match uri.account {
        None => Ok(UnresolvedUri { collection: uri.collection, account_id: None, resource: None }),
        Some(_) => match account_id {
            None => Err(error_status),
            Some(id) => {
                let principal = match uri.collection {
                    DavResourceName::Principal => true,
                    _ => false,
                };
                if !principal && !has_access {
                    Err(403)
                } else {
                    Ok(UnresolvedUri { collection: uri.collection, account_id: Some(id), resource: uri.resource })
                }
            },
        },
    }
}

/// A request path resolved to an account.
#[derive(Debug, Clone, PartialEq, Eq)]
pub struct OwnedUri {
    pub collection: DavResourceName,
    pub account_id: u32,
    pub resource: Option<String>,
}

impl OwnedUri {
    /// A request path resolved to the given account.
    pub fn new_owned(collection: DavResourceName, account_id: u32, resource: Option<String>) -> (r: OwnedUri)
        ensures
            r == (OwnedUri { collection, account_id, resource }),
    {
        OwnedUri { collection, account_id, resource }
    }
}

impl UnresolvedUri {
    /// The path as resolved to its account; a path that names no account
    /// is refused with 403.
    pub fn into_owned_uri(self) -> (r: Result<OwnedUri, u16>)
        ensures
            self.account_id is None <==> r == Err::<OwnedUri, u16>(403),
            r matches Ok(o) ==> self.account_id == Some(o.account_id) && o.collection == self.collection
                && o.resource == self.resource,
    {
        match self.account_id {
            None => Err(403),
            Some(id) => Ok(OwnedUri { collection: self.collection, account_id: id, resource: self.resource }),
        }
    }
}

/// The path of a user's principal resource: the principal tree's base
/// path, `/`, the user's name percent-encoded as RFC 3986 asks, and `/`.
pub open spec fn principal_path(user_name: Seq<char>) -> Seq<char> {
    DavResourceName::Principal.spec_base_path() + seq!['/'] + rfc3986_encoded(vstd::utf8::encode_utf8(user_name))
        + seq!['/']
}

/// The path of the principal resource of the user named `user_name`.
pub fn current_user_principal(user_name: &str) -> (r: String)
    ensures
        r@ == principal_path(user_name@),
{
    let base = DavResourceName::Principal.base_path();
    let mut out: Vec<char> = chars_of(base.as_str());
    out.push('/');
    let encoded = encode_rfc3986(string_from_chars(chars_of(user_name).as_slice()));
    crate::text::append_chars(&mut out, encoded.as_slice());
    out.push('/');
    string_from_chars(out.as_slice())
}

/// The segments of the path of a principal resource whose encoded name is
/// `e`: the principal tree's name and `e`.
proof fn lemma_principal_segments(e: Seq<char>)
    requires
        e.len() > 0,
        forall|i: int| 0 <= i < e.len() ==> e[i] != '/',
    ensures
        uri_segments(DavResourceName::Principal.spec_base_path() + seq!['/'] + e + seq!['/']) == Some(
            seq!["principal"@, e],
        ),
{
    reveal_strlit("/dav/");
    reveal_strlit("principal");
    let kind = "principal"@;
    assert(kind.len() == 9);
    let uri = DavResourceName::Principal.spec_base_path() + seq!['/'] + e + seq!['/'];
    assert(uri =~= dav_marker() + kind + seq!['/'] + e + seq!['/']);
    assert(first_occurrence(uri, dav_marker()) == Some(0int)) by {
        reveal(first_occurrence);
        assert(uri.subrange(0, 5) =~= dav_marker());
        assert(occurs_at(uri, dav_marker(), 0));
    }
    let body = kind + seq!['/'] + e;
    assert(uri.skip(5) =~= body.push('/'));
    assert(body.last() == e.last());
    assert(trim_end_char(body, '/') == body);
    assert(body.push('/').drop_last() =~= body);
    assert(trim_end_char(body.push('/'), '/') == body);
    assert(dav_tail(uri) == Some(body));
    assert(first_index(body, '/') == Some(9int)) by {
        assert(body[9] == '/');
        assert(forall|j: int| 0 <= j < 9 ==> body[j] == kind[j]);
    }
    assert(body.take(9) =~= kind);
    assert(body.skip(10) =~= e);
    assert(!has_char(e, '/'));
    assert(split_three(body) =~= seq![kind, e]);
    reveal_with_fuel(drop_empty, 3);
    assert(seq![kind, e].drop_last() =~= seq![kind]);
    assert(seq![kind].drop_last() =~= Seq::<Seq<char>>::empty());
    assert(drop_empty(seq![kind, e]) =~= seq![kind, e]);
}

/// The principal path of a user reads back as the principal tree and an
/// account named by the decoding of the user's encoded name, for every
/// name that is not empty and does not begin with `_` (a path segment that
/// begins with `_` names an account by id).
pub proof fn lemma_principal_path_reads_back(user_name: Seq<char>)
    requires
        user_name.len() > 0,
        user_name[0] != '_',
    ensures
        read_dav_uri(principal_path(user_name)) == Some(
            (
                DavResourceName::Principal,
                Some(AccountView::Name(percent_decoded(rfc3986_encoded(vstd::utf8::encode_utf8(user_name))))),
                None::<Seq<char>>,
            ),
        ),
{
    let bytes = vstd::utf8::encode_utf8(user_name);
    let e = rfc3986_encoded(bytes);
    lemma_utf8_first(user_name);
    lemma_encoded_first(bytes);
    lemma_encoded_has_no_slash(bytes);
    lemma_principal_segments(e);
    crate::request::lemma_resource_name_roundtrip(DavResourceName::Principal);
    reveal_strlit("principal");
}

} // verus!
