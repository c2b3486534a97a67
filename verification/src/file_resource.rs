//! Resolution of request paths against the resources of an account's file
//! tree: the resource a path names, or the parent under which a new
//! resource of that path would be created.
use vstd::prelude::*;

use crate::request::DavResourceName;
use crate::resource_uri::OwnedUri;
use crate::text::{chars_of, rfind_char, slice_chars, str_is, string_from_chars};

verus! {

/// A resource of an account, as the resource cache lists it.
#[derive(Debug, Clone, PartialEq, Eq)]
pub struct DavResourcePath {
    pub path: String,
    pub document_id: u32,
    pub parent_id: u32,
    pub is_container: bool,
}

/// The resources of an account, each under its path.
#[derive(Debug, Clone, PartialEq, Eq)]
pub struct DavResources {
    pub resources: Vec<DavResourcePath>,
}

/// What a request for a resource reads of it.
#[derive(Debug, Clone, Copy, PartialEq, Eq, Structural)]
pub struct FileItemId {
    pub document_id: u32,
    pub parent_id: u32,
    pub is_container: bool,
}

impl FileItemId {
    /// What a request reads of a listed resource.
    pub fn from_dav_resource(item: &DavResourcePath) -> (r: FileItemId)
        ensures
            r == item_of(*item),
    {
        FileItemId { document_id: item.document_id, parent_id: item.parent_id, is_container: item.is_container }
    }
}

/// What a request reads of a listed resource.
pub open spec fn item_of(p: DavResourcePath) -> FileItemId {
    FileItemId { document_id: p.document_id, parent_id: p.parent_id, is_container: p.is_container }
}

/// The resource listed under `path`, the last one when several are.
pub open spec fn listed(rs: Seq<DavResourcePath>, path: Seq<char>) -> Option<FileItemId>
    decreases rs.len(),
{
    if rs.len() == 0 {
        None
    } else if rs.last().path@ == path {
        Some(item_of(rs.last()))
    } else {
        listed(rs.drop_last(), path)
    }
}

impl DavResources {
    /// The resource listed under `path`, if any.
    pub fn by_path(&self, path: &str) -> (r: Option<FileItemId>)
        ensures
            r == listed(self.resources@, path@),
    {
        let ghost rs = self.resources@;
        let mut i: usize = self.resources.len();
        assert(rs.take(i as int) =~= rs);
        while i > 0
            invariant
                i <= rs.len(),
                rs == self.resources@,
                listed(rs, path@) == listed(rs.take(i as int), path@),
            decreases i,
        {
            assert(rs.take(i as int).drop_last() =~= rs.take(i - 1));
            assert(rs.take(i as int).last() == rs[i - 1]);
            if str_is(self.resources[i - 1].path.as_str(), path) {
                return Some(FileItemId::from_dav_resource(&self.resources[i - 1]));
            }
            i = i - 1;
        }
        assert(rs.take(0) =~= Seq::<DavResourcePath>::empty());
        None
    }
}

/// A path cut at its last `/`: the text before it and the text after it;
/// nothing when the path holds no `/`.
pub open spec fn split_at_last_slash(s: Seq<char>) -> Option<(Seq<char>, Seq<char>)> {
    if crate::text::has_char(s, '/') {
        let i = choose|i: int| 0 <= i < s.len() && s[i] == '/' && forall|j: int| i < j < s.len() ==> s[j] != '/';
        Some((s.take(i), s.skip(i + 1)))
    } else {
        None
    }
}

/// Where a resource of path `s` would be created: under the listed
/// resource that its path before the last `/` names, with the text after
/// it as its name, or at the top with `s` as its name when `s` holds no
/// `/`; nothing when the parent path names no listed resource.
pub open spec fn parent_of(rs: Seq<DavResourcePath>, s: Seq<char>) -> Option<(Option<FileItemId>, Seq<char>)> {
    match split_at_last_slash(s) {
        Some((p, c)) => match listed(rs, p) {
            Some(it) => Some((Some(it), c)),
            None => None,
        },
        None => Some((None, s)),
    }
}

/// A resource path resolved to its account and listed resource.
#[derive(Debug, Clone, PartialEq, Eq)]
pub struct ItemUri {
    pub collection: DavResourceName,
    pub account_id: u32,
    pub resource: FileItemId,
}

/// A resource path resolved to its account, the listed resource under which
/// it would be created (none at the top) and the name it would have there.
#[derive(Debug, Clone, PartialEq, Eq)]
pub struct ParentUri {
    pub collection: DavResourceName,
    pub account_id: u32,
    pub parent: Option<FileItemId>,
    pub name: String,
}

/// The view of an optional string.
pub open spec fn opt_text(o: Option<String>) -> Option<Seq<char>> {
    match o {
        Some(s) => Some(s@),
        None => None,
    }
}

impl DavResources {
    /// Where a resource of path `resource` would be created; see
    /// `parent_of`.
    pub fn map_parent(&self, resource: &str) -> (r: Option<(Option<FileItemId>, String)>)
        ensures
            r matches Some((p, c)) ==> parent_of(self.resources@, resource@) == Some((p, c@)),
            r is None ==> parent_of(self.resources@, resource@) is None,
    {
        let cs = chars_of(resource);
        match rfind_char(cs.as_slice(), '/') {
            Some(i) => {
                proof {
                    let s = resource@;
                    let w = choose|k: int| 0 <= k < s.len() && s[k] == '/' && forall|j: int| k < j < s.len() ==> s[j] != '/';
                    assert(0 <= i < s.len() && s[i as int] == '/' && forall|j: int| i < j < s.len() ==> s[j] != '/');
                    if w < i {
                        assert(s[i as int] != '/');
                    } else if w > i {
                        assert(s[w] != '/');
                    }
                }
                let n = cs.len();
                let parent = string_from_chars(slice_chars(cs.as_slice(), 0, i).as_slice());
                let child = string_from_chars(slice_chars(cs.as_slice(), i + 1, n).as_slice());
                assert(parent@ =~= resource@.take(i as int));
                assert(child@ =~= resource@.skip(i + 1));
                match self.by_path(parent.as_str()) {
                    Some(it) => Some((Some(it), child)),
                    None => None,
                }
            },
            None => Some((None, string_from_chars(cs.as_slice()))),
        }
    }

    /// The listed resource that a request path names; 404 when it names
    /// none.
    pub fn map_resource(&self, uri: &OwnedUri) -> (r: Result<ItemUri, u16>)
        ensures
            r matches Ok(v) ==> v.collection == uri.collection && v.account_id == uri.account_id
                && (opt_text(uri.resource) matches Some(p) && listed(self.resources@, p) == Some(v.resource)),
            r matches Err(e) ==> e == 404 && (opt_text(uri.resource) matches Some(p) ==> listed(self.resources@, p) is None),
    {
        match &uri.resource {
            None => Err(404),
            Some(p) => match self.by_path(p.as_str()) {
                None => Err(404),
                Some(it) => Ok(ItemUri { collection: uri.collection, account_id: uri.account_id, resource: it }),
            },
        }
    }

    /// Where the resource that a request path names would be created: 405
    /// when the path names no resource or one that is already listed, 409
    /// when its parent path names no listed resource.
    pub fn map_parent_resource(&self, uri: &OwnedUri) -> (r: Result<ParentUri, u16>)
        ensures
            opt_text(uri.resource) is None ==> r == Err::<ParentUri, u16>(405),
            opt_text(uri.resource) matches Some(p) ==> {
                if listed(self.resources@, p) is Some {
                    r == Err::<ParentUri, u16>(405)
                } else {
                    match parent_of(self.resources@, p) {
                        None => r == Err::<ParentUri, u16>(409),
                        Some((parent, name)) => (r matches Ok(v) && v.collection == uri.collection
                            && v.account_id == uri.account_id && v.parent == parent && v.name@ == name),
                    }
                }
            },
    {
        match &uri.resource {
            None => Err(405),
            Some(p) => {
                if self.by_path(p.as_str()).is_some() {
                    Err(405)
                } else {
                    match self.map_parent(p.as_str()) {
                        None => Err(409),
                        Some((parent, name)) => Ok(
                            ParentUri { collection: uri.collection, account_id: uri.account_id, parent, name },
                        ),
                    }
                }
            },
        }
    }
}

/// The path of the first listed child of `container` whose document is
/// among `hits`, if any.
pub open spec fn first_conflict(rs: Seq<DavResourcePath>, container: u32, hits: Seq<u32>) -> Option<Seq<char>>
    decreases rs.len(),
{
    if rs.len() == 0 {
        None
    } else {
        match first_conflict(rs.drop_last(), container, hits) {
            Some(p) => Some(p),
            None => if rs.last().parent_id == container && hits.contains(rs.last().document_id) {
                Some(rs.last().path@)
            } else {
                None
            },
        }
    }
}

/// A conflict found among the first resources is the first conflict of
/// all of them.
proof fn lemma_conflict_prefix(rs: Seq<DavResourcePath>, k: int, container: u32, hits: Seq<u32>)
    requires
        0 <= k <= rs.len(),
        first_conflict(rs.take(k), container, hits) is Some,
    ensures
        first_conflict(rs, container, hits) == first_conflict(rs.take(k), container, hits),
    decreases rs.len(),
{
    if k == rs.len() {
        assert(rs.take(k) =~= rs);
    } else {
        assert(rs.drop_last().take(k) =~= rs.take(k));
        lemma_conflict_prefix(rs.drop_last(), k, container, hits);
    }
}

/// Checks that no resource of the container already holds the UID of a
/// new or moved object: `hits` are the documents of the account that hold
/// it (none when the object has no UID). Refuses, with the path of the
/// first child of the container among them, when there is one.
pub fn assert_is_unique_uid(resources: &DavResources, container_id: u32, hits: &Vec<u32>) -> (r: Result<(), String>)
    ensures
        r matches Err(p) ==> first_conflict(resources.resources@, container_id, hits@) == Some(p@),
        r is Ok ==> first_conflict(resources.resources@, container_id, hits@) is None,
{
    let ghost rs = resources.resources@;
    let mut i: usize = 0;
    assert(rs.take(0) =~= Seq::<DavResourcePath>::empty());
    while i < resources.resources.len()
        invariant
            i <= rs.len(),
            rs == resources.resources@,
            first_conflict(rs.take(i as int), container_id, hits@) is None,
        decreases rs.len() - i,
    {
        assert(rs.take(i + 1).drop_last() =~= rs.take(i as int));
        assert(rs.take(i + 1).last() == rs[i as int]);
        let item = &resources.resources[i];
        if item.parent_id == container_id && contains_id(hits, item.document_id) {
            let p = string_from_chars(chars_of(item.path.as_str()).as_slice());
            proof {
                lemma_conflict_prefix(rs, i + 1, container_id, hits@);
            }
            return Err(p);
        }
        i = i + 1;
    }
    assert(rs.take(rs.len() as int) =~= rs);
    Ok(())
}

/// Whether `id` is among `ids`.
fn contains_id(ids: &Vec<u32>, id: u32) -> (r: bool)
    ensures
        r == ids@.contains(id),
{
    let mut i: usize = 0;
    while i < ids.len()
        invariant
            i <= ids@.len(),
            forall|j: int| 0 <= j < i ==> ids@[j] != id,
        decreases ids@.len() - i,
    {
        if ids[i] == id {
            assert(ids@[i as int] == id);
            return true;
        }
        i = i + 1;
    }
    false
}

} // verus!
