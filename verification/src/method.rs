//! The HTTP and WebDAV request methods that the server dispatches on.
use vstd::prelude::*;

use crate::text::str_is;

verus! {

/// A request method understood by the DAV handlers.
#[derive(Debug, Clone, Copy, PartialEq, Eq, Hash, Structural)]
pub enum DavMethod {
    GET,
    PUT,
    POST,
    DELETE,
    HEAD,
    PATCH,
    PROPFIND,
    PROPPATCH,
    REPORT,
    MKCOL,
    MKCALENDAR,
    COPY,
    MOVE,
    LOCK,
    UNLOCK,
    OPTIONS,
    ACL,
}

impl DavMethod {
    /// The method's name on the wire.
    pub open spec fn name(self) -> Seq<char> {
        match self {
            DavMethod::GET => "GET"@,
            DavMethod::PUT => "PUT"@,
            DavMethod::POST => "POST"@,
            DavMethod::DELETE => "DELETE"@,
            DavMethod::HEAD => "HEAD"@,
            DavMethod::PATCH => "PATCH"@,
            DavMethod::PROPFIND => "PROPFIND"@,
            DavMethod::PROPPATCH => "PROPPATCH"@,
            DavMethod::REPORT => "REPORT"@,
            DavMethod::MKCOL => "MKCOL"@,
            DavMethod::MKCALENDAR => "MKCALENDAR"@,
            DavMethod::COPY => "COPY"@,
            DavMethod::MOVE => "MOVE"@,
            DavMethod::LOCK => "LOCK"@,
            DavMethod::UNLOCK => "UNLOCK"@,
            DavMethod::OPTIONS => "OPTIONS"@,
            DavMethod::ACL => "ACL"@,
        }
    }

    /// Methods whose requests carry a body.
    pub open spec fn spec_has_body(self) -> bool {
        matches!(
            self,
            DavMethod::PUT | DavMethod::POST | DavMethod::PATCH | DavMethod::PROPPATCH
                | DavMethod::PROPFIND | DavMethod::REPORT | DavMethod::LOCK | DavMethod::ACL
                | DavMethod::MKCALENDAR
        )
    }

    /// The method named `s`, if any.
    pub open spec fn from_name(s: Seq<char>) -> Option<DavMethod> {
        if exists|m: DavMethod| #[trigger] m.name() == s {
            Some(choose|m: DavMethod| #[trigger] m.name() == s)
        } else {
            None
        }
    }

    /// The method whose name is exactly `method` (names are case-sensitive,
    /// as HTTP method tokens are); `None` for any other text.
    pub fn parse(method: &str) -> (r: Option<DavMethod>)
        ensures
            r == DavMethod::from_name(method@),
    {
        let r = if str_is(method, "GET") {
            Some(DavMethod::GET)
        } else if str_is(method, "PUT") {
            Some(DavMethod::PUT)
        } else if str_is(method, "DELETE") {
            Some(DavMethod::DELETE)
        } else if str_is(method, "OPTIONS") {
            Some(DavMethod::OPTIONS)
        } else if str_is(method, "POST") {
            Some(DavMethod::POST)
        } else if str_is(method, "PATCH") {
            Some(DavMethod::PATCH)
        } else if str_is(method, "HEAD") {
            Some(DavMethod::HEAD)
        } else if str_is(method, "PROPFIND") {
            Some(DavMethod::PROPFIND)
        } else if str_is(method, "PROPPATCH") {
            Some(DavMethod::PROPPATCH)
        } else if str_is(method, "REPORT") {
            Some(DavMethod::REPORT)
        } else if str_is(method, "MKCOL") {
            Some(DavMethod::MKCOL)
        } else if str_is(method, "MKCALENDAR") {
            Some(DavMethod::MKCALENDAR)
        } else if str_is(method, "COPY") {
            Some(DavMethod::COPY)
        } else if str_is(method, "MOVE") {
            Some(DavMethod::MOVE)
        } else if str_is(method, "LOCK") {
            Some(DavMethod::LOCK)
        } else if str_is(method, "UNLOCK") {
            Some(DavMethod::UNLOCK)
        } else if str_is(method, "ACL") {
            Some(DavMethod::ACL)
        } else {
            None
        };
        proof {
            lemma_names_distinct();
            if let Some(x) = r {
                assert(x.name() == method@);
                let c = choose|m: DavMethod| #[trigger] m.name() == method@;
                assert(c.name() == x.name());
            } else {
                assert forall|m: DavMethod| #[trigger] m.name() != method@ by {
                    match m {
                        DavMethod::GET => {},
                        DavMethod::PUT => {},
                        DavMethod::POST => {},
                        DavMethod::DELETE => {},
                        DavMethod::HEAD => {},
                        DavMethod::PATCH => {},
                        DavMethod::PROPFIND => {},
                        DavMethod::PROPPATCH => {},
                        DavMethod::REPORT => {},
                        DavMethod::MKCOL => {},
                        DavMethod::MKCALENDAR => {},
                        DavMethod::COPY => {},
                        DavMethod::MOVE => {},
                        DavMethod::LOCK => {},
                        DavMethod::UNLOCK => {},
                        DavMethod::OPTIONS => {},
                        DavMethod::ACL => {},
                    }
                }
            }
        }
        r
    }

    /// Whether requests with this method carry a body.
    pub fn has_body(self) -> (r: bool)
        ensures
            r == self.spec_has_body(),
    {
        matches!(
            self,
            DavMethod::PUT | DavMethod::POST | DavMethod::PATCH | DavMethod::PROPPATCH
                | DavMethod::PROPFIND | DavMethod::REPORT | DavMethod::LOCK | DavMethod::ACL
                | DavMethod::MKCALENDAR
        )
    }

    /// The method's name, as its `Display` form writes it.
    pub fn as_str(self) -> (r: &'static str)
        ensures
            r@ == self.name(),
    {
        match self {
            DavMethod::GET => "GET",
            DavMethod::PUT => "PUT",
            DavMethod::POST => "POST",
            DavMethod::DELETE => "DELETE",
            DavMethod::HEAD => "HEAD",
            DavMethod::PATCH => "PATCH",
            DavMethod::PROPFIND => "PROPFIND",
            DavMethod::PROPPATCH => "PROPPATCH",
            DavMethod::REPORT => "REPORT",
            DavMethod::MKCOL => "MKCOL",
            DavMethod::MKCALENDAR => "MKCALENDAR",
            DavMethod::COPY => "COPY",
            DavMethod::MOVE => "MOVE",
            DavMethod::LOCK => "LOCK",
            DavMethod::UNLOCK => "UNLOCK",
            DavMethod::OPTIONS => "OPTIONS",
            DavMethod::ACL => "ACL",
        }
    }

    /// The method's name as an owned string.
    pub fn to_string(self) -> (r: String)
        ensures
            r@ == self.name(),
    {
        String::from_str(self.as_str())
    }
}

/// Different methods have different names.
pub proof fn lemma_names_distinct()
    ensures
        forall|a: DavMethod, b: DavMethod| #[trigger] a.name() == #[trigger] b.name() ==> a == b,
{
    reveal_strlit("GET");
    reveal_strlit("PUT");
    reveal_strlit("POST");
    reveal_strlit("DELETE");
    reveal_strlit("HEAD");
    reveal_strlit("PATCH");
    reveal_strlit("PROPFIND");
    reveal_strlit("PROPPATCH");
    reveal_strlit("REPORT");
    reveal_strlit("MKCOL");
    reveal_strlit("MKCALENDAR");
    reveal_strlit("COPY");
    reveal_strlit("MOVE");
    reveal_strlit("LOCK");
    reveal_strlit("UNLOCK");
    reveal_strlit("OPTIONS");
    reveal_strlit("ACL");
    assert forall|a: DavMethod, b: DavMethod| #[trigger] a.name() == #[trigger] b.name() implies a == b by {
        if a != b {
            assert(a.name().len() != b.name().len() || a.name()[0] != b.name()[0] || a.name()[1]
                != b.name()[1] || a.name()[2] != b.name()[2] || a.name()[3] != b.name()[3]
                || a.name()[4] != b.name()[4] || a.name()[5] != b.name()[5]);
        }
    }
}

/// Reading back the name of a method gives the method: every method's
/// name parses to that method.
pub proof fn lemma_parse_name(m: DavMethod)
    ensures
        DavMethod::from_name(m.name()) == Some(m),
{
    lemma_names_distinct();
    let c = choose|x: DavMethod| #[trigger] x.name() == m.name();
    assert(c.name() == m.name());
}

} // verus!
