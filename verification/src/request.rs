//! Request-level vocabulary of the request processor: its method set, the
//! WebDAV headers it reads, resource kinds, responses and errors.
use vstd::prelude::*;

use crate::text::{
    chars_of, lowercase, parse_unsigned, parse_unsigned_chars, str_is, to_lowercase,
    to_uppercase, uppercase,
};

verus! {

/// The view of an optional string: its characters, if present.
pub open spec fn opt_view(o: Option<String>) -> Option<Seq<char>> {
    match o {
        Some(s) => Some(s@),
        None => None,
    }
}

/// A request method as the request processor names them.
#[derive(Debug, Clone, Copy, PartialEq, Eq, Hash, Structural)]
pub enum DavMethod {
    GET,
    PUT,
    POST,
    DELETE,
    PATCH,
    OPTIONS,
    HEAD,
    PROPFIND,
    PROPPATCH,
    MKCOL,
    COPY,
    MOVE,
    LOCK,
    UNLOCK,
    REPORT,
    ACL,
    MKCALENDAR,
}

impl DavMethod {
    /// The method's name on the wire.
    pub open spec fn name(self) -> Seq<char> {
        match self {
            DavMethod::GET => "GET"@,
            DavMethod::PUT => "PUT"@,
            DavMethod::POST => "POST"@,
            DavMethod::DELETE => "DELETE"@,
            DavMethod::PATCH => "PATCH"@,
            DavMethod::OPTIONS => "OPTIONS"@,
            DavMethod::HEAD => "HEAD"@,
            DavMethod::PROPFIND => "PROPFIND"@,
            DavMethod::PROPPATCH => "PROPPATCH"@,
            DavMethod::MKCOL => "MKCOL"@,
            DavMethod::COPY => "COPY"@,
            DavMethod::MOVE => "MOVE"@,
            DavMethod::LOCK => "LOCK"@,
            DavMethod::UNLOCK => "UNLOCK"@,
            DavMethod::REPORT => "REPORT"@,
            DavMethod::ACL => "ACL"@,
            DavMethod::MKCALENDAR => "MKCALENDAR"@,
        }
    }

    /// Methods whose requests carry a body.
    pub open spec fn spec_has_body(self) -> bool {
        matches!(
            self,
            DavMethod::PUT | DavMethod::POST | DavMethod::PATCH | DavMethod::PROPPATCH
                | DavMethod::MKCOL | DavMethod::MKCALENDAR | DavMethod::LOCK | DavMethod::ACL
                | DavMethod::REPORT
        )
    }

    /// The method named `s`, if any.
    pub open spec fn from_name(s: Seq<char>) -> Option<DavMethod> {
        if exists|m: DavMethod| #[trigger] m.name() == s {
            Some(choose|m: DavMethod| #[trigger] m.name() == s)
        } else {
            None
        }
    }

    /// Whether requests with this method carry a body.
    pub fn has_body(self) -> (r: bool)
        ensures
            r == self.spec_has_body(),
    {
        matches!(
            self,
            DavMethod::PUT | DavMethod::POST | DavMethod::PATCH | DavMethod::PROPPATCH
                | DavMethod::MKCOL | DavMethod::MKCALENDAR | DavMethod::LOCK | DavMethod::ACL
                | DavMethod::REPORT
        )
    }

    /// The method's name.
    pub fn to_string(self) -> (r: String)
        ensures
            r@ == self.name(),
    {
        let s = match self {
            DavMethod::GET => "GET",
            DavMethod::PUT => "PUT",
            DavMethod::POST => "POST",
            DavMethod::DELETE => "DELETE",
            DavMethod::PATCH => "PATCH",
            DavMethod::OPTIONS => "OPTIONS",
            DavMethod::HEAD => "HEAD",
            DavMethod::PROPFIND => "PROPFIND",
            DavMethod::PROPPATCH => "PROPPATCH",
            DavMethod::MKCOL => "MKCOL",
            DavMethod::COPY => "COPY",
            DavMethod::MOVE => "MOVE",
            DavMethod::LOCK => "LOCK",
            DavMethod::UNLOCK => "UNLOCK",
            DavMethod::REPORT => "REPORT",
            DavMethod::ACL => "ACL",
            DavMethod::MKCALENDAR => "MKCALENDAR",
        };
        String::from_str(s)
    }
}

/// Different methods have different names.
pub proof fn lemma_request_method_names_distinct()
    ensures
        forall|a: DavMethod, b: DavMethod| #[trigger] a.name() == #[trigger] b.name() ==> a == b,
{
    reveal_strlit("GET");
    reveal_strlit("PUT");
    reveal_strlit("POST");
    reveal_strlit("DELETE");
    reveal_strlit("PATCH");
    reveal_strlit("OPTIONS");
    reveal_strlit("HEAD");
    reveal_strlit("PROPFIND");
    reveal_strlit("PROPPATCH");
    reveal_strlit("MKCOL");
    reveal_strlit("COPY");
    reveal_strlit("MOVE");
    reveal_strlit("LOCK");
    reveal_strlit("UNLOCK");
    reveal_strlit("REPORT");
    reveal_strlit("ACL");
    reveal_strlit("MKCALENDAR");
    assert forall|a: DavMethod, b: DavMethod| #[trigger] a.name() == #[trigger] b.name() implies a == b by {
        if a != b {
            assert(a.name().len() != b.name().len() || a.name()[0] != b.name()[0] || a.name()[1]
                != b.name()[1] || a.name()[2] != b.name()[2] || a.name()[3] != b.name()[3]
                || a.name()[4] != b.name()[4] || a.name()[5] != b.name()[5]);
        }
    }
}

/// A method's name, upper-cased by the caller, is read back as that method:
/// the name of every method is accepted by `method_from_upper`.
pub proof fn lemma_request_method_roundtrip(m: DavMethod)
    ensures
        DavMethod::from_name(m.name()) == Some(m),
{
    lemma_request_method_names_distinct();
    let c = choose|x: DavMethod| #[trigger] x.name() == m.name();
    assert(c.name() == m.name());
}

/// Kinds of DAV resource trees.
#[derive(Debug, Clone, Copy, PartialEq, Eq, Hash, Structural)]
pub enum DavResourceName {
    Cal,
    Card,
    File,
    Principal,
    Scheduling,
}

impl DavResourceName {
    /// The resource kind's name.
    pub open spec fn spec_name(self) -> Seq<char> {
        match self {
            DavResourceName::Cal => "calendar"@,
            DavResourceName::Card => "addressbook"@,
            DavResourceName::File => "file"@,
            DavResourceName::Principal => "principal"@,
            DavResourceName::Scheduling => "scheduling"@,
        }
    }

    /// The path under which the resources of this kind are served.
    pub open spec fn spec_base_path(self) -> Seq<char> {
        "/dav/"@ + self.spec_name()
    }

    /// The path under which the resources of this kind are served.
    pub fn base_path(self) -> (r: String)
        ensures
            r@ == self.spec_base_path(),
    {
        let mut s = String::from_str("/dav/");
        s.append(self.name());
        s
    }

    /// The resource kind named `s`, if any.
    pub open spec fn named(s: Seq<char>) -> Option<DavResourceName> {
        if s == "calendar"@ {
            Some(DavResourceName::Cal)
        } else if s == "addressbook"@ {
            Some(DavResourceName::Card)
        } else if s == "file"@ {
            Some(DavResourceName::File)
        } else if s == "principal"@ {
            Some(DavResourceName::Principal)
        } else if s == "scheduling"@ {
            Some(DavResourceName::Scheduling)
        } else {
            None
        }
    }

    /// The resource kind named `s`, if any.
    pub fn parse(s: &str) -> (r: Option<DavResourceName>)
        ensures
            r == Self::named(s@),
    {
        if str_is(s, "calendar") {
            Some(DavResourceName::Cal)
        } else if str_is(s, "addressbook") {
            Some(DavResourceName::Card)
        } else if str_is(s, "file") {
            Some(DavResourceName::File)
        } else if str_is(s, "principal") {
            Some(DavResourceName::Principal)
        } else if str_is(s, "scheduling") {
            Some(DavResourceName::Scheduling)
        } else {
            None
        }
    }

    /// The resource kind's name.
    pub fn name(self) -> (r: &'static str)
        ensures
            r@ == self.spec_name(),
    {
        match self {
            DavResourceName::Cal => "calendar",
            DavResourceName::Card => "addressbook",
            DavResourceName::File => "file",
            DavResourceName::Principal => "principal",
            DavResourceName::Scheduling => "scheduling",
        }
    }
}

/// Each resource kind is read back from its name.
pub proof fn lemma_resource_name_roundtrip(k: DavResourceName)
    ensures
        DavResourceName::named(k.spec_name()) == Some(k),
{
    reveal_strlit("calendar");
    reveal_strlit("addressbook");
    reveal_strlit("file");
    reveal_strlit("principal");
    reveal_strlit("scheduling");
    assert("calendar"@.len() == 8);
    assert("addressbook"@.len() == 11);
    assert("file"@.len() == 4);
    assert("principal"@.len() == 9);
    assert("scheduling"@.len() == 10);
}

/// A response produced by the request processor.
#[derive(Debug, Clone)]
pub struct DavResponse {
    pub status: u16,
    pub headers: Vec<(String, String)>,
    pub body: Vec<u8>,
}

/// Errors of the request processor.
#[derive(Debug, Clone)]
pub enum DavError {
    Parse(String),
    Internal(String),
    Validation(String),
    NotFound,
    Unauthorized,
    Forbidden,
    Conflict,
    PreconditionFailed,
    UnsupportedMediaType,
    UnprocessableEntity,
    Locked,
    FailedDependency,
    InsufficientStorage,
}

impl DavError {
    /// The error's message.
    pub open spec fn message(self) -> Seq<char> {
        match self {
            DavError::Parse(m) => "Parse error: "@ + m@,
            DavError::Internal(m) => "Internal error: "@ + m@,
            DavError::Validation(m) => "Validation error: "@ + m@,
            DavError::NotFound => "Not found"@,
            DavError::Unauthorized => "Unauthorized"@,
            DavError::Forbidden => "Forbidden"@,
            DavError::Conflict => "Conflict"@,
            DavError::PreconditionFailed => "Precondition failed"@,
            DavError::UnsupportedMediaType => "Unsupported media type"@,
            DavError::UnprocessableEntity => "Unprocessable entity"@,
            DavError::Locked => "Locked"@,
            DavError::FailedDependency => "Failed dependency"@,
            DavError::InsufficientStorage => "Insufficient storage"@,
        }
    }

    /// The error's message, as its `Display` form writes it.
    pub fn to_string(&self) -> (r: String)
        ensures
            r@ == self.message(),
    {
        match self {
            DavError::Parse(m) => {
                let mut s = String::from_str("Parse error: ");
                s.append(m.as_str());
                s
            },
            DavError::Internal(m) => {
                let mut s = String::from_str("Internal error: ");
                s.append(m.as_str());
                s
            },
            DavError::Validation(m) => {
                let mut s = String::from_str("Validation error: ");
                s.append(m.as_str());
                s
            },
            DavError::NotFound => String::from_str("Not found"),
            DavError::Unauthorized => String::from_str("Unauthorized"),
            DavError::Forbidden => String::from_str("Forbidden"),
            DavError::Conflict => String::from_str("Conflict"),
            DavError::PreconditionFailed => String::from_str("Precondition failed"),
            DavError::UnsupportedMediaType => String::from_str("Unsupported media type"),
            DavError::UnprocessableEntity => String::from_str("Unprocessable entity"),
            DavError::Locked => String::from_str("Locked"),
            DavError::FailedDependency => String::from_str("Failed dependency"),
            DavError::InsufficientStorage => String::from_str("Insufficient storage"),
        }
    }
}

/// Picks the method named by an upper-cased method token, or reports the
/// original token as unsupported.
pub fn method_from_upper(upper: &str, method: &str) -> (r: Result<DavMethod, DavError>)
    ensures
        r matches Ok(m) ==> DavMethod::from_name(upper@) == Some(m),
        r matches Err(e) ==> DavMethod::from_name(upper@) is None && e is Validation
            && e->Validation_0@ == "Unsupported method: "@ + method@,
{
    proof {
        lemma_request_method_names_distinct();
    }
    let r = if str_is(upper, "GET") {
        Some(DavMethod::GET)
    } else if str_is(upper, "PUT") {
        Some(DavMethod::PUT)
    } else if str_is(upper, "POST") {
        Some(DavMethod::POST)
    } else if str_is(upper, "DELETE") {
        Some(DavMethod::DELETE)
    } else if str_is(upper, "PATCH") {
        Some(DavMethod::PATCH)
    } else if str_is(upper, "OPTIONS") {
        Some(DavMethod::OPTIONS)
    } else if str_is(upper, "HEAD") {
        Some(DavMethod::HEAD)
    } else if str_is(upper, "PROPFIND") {
        Some(DavMethod::PROPFIND)
    } else if str_is(upper, "PROPPATCH") {
        Some(DavMethod::PROPPATCH)
    } else if str_is(upper, "MKCOL") {
        Some(DavMethod::MKCOL)
    } else if str_is(upper, "COPY") {
        Some(DavMethod::COPY)
    } else if str_is(upper, "MOVE") {
        Some(DavMethod::MOVE)
    } else if str_is(upper, "LOCK") {
        Some(DavMethod::LOCK)
    } else if str_is(upper, "UNLOCK") {
        Some(DavMethod::UNLOCK)
    } else if str_is(upper, "REPORT") {
        Some(DavMethod::REPORT)
    } else if str_is(upper, "ACL") {
        Some(DavMethod::ACL)
    } else if str_is(upper, "MKCALENDAR") {
        Some(DavMethod::MKCALENDAR)
    } else {
        None
    };
    match r {
        Some(m) => {
            proof {
                let c = choose|x: DavMethod| #[trigger] x.name() == upper@;
                assert(m.name() == upper@);
                assert(c.name() == m.name());
            }
            Ok(m)
        },
        None => {
            proof {
                assert forall|m: DavMethod| #[trigger] m.name() != upper@ by {
                    match m {
                        DavMethod::GET => {},
                        DavMethod::PUT => {},
                        DavMethod::POST => {},
                        DavMethod::DELETE => {},
                        DavMethod::PATCH => {},
                        DavMethod::OPTIONS => {},
                        DavMethod::HEAD => {},
                        DavMethod::PROPFIND => {},
                        DavMethod::PROPPATCH => {},
                        DavMethod::MKCOL => {},
                        DavMethod::COPY => {},
                        DavMethod::MOVE => {},
                        DavMethod::LOCK => {},
                        DavMethod::UNLOCK => {},
                        DavMethod::REPORT => {},
                        DavMethod::ACL => {},
                        DavMethod::MKCALENDAR => {},
                    }
                }
            }
            let mut msg = String::from_str("Unsupported method: ");
            msg.append(method);
            Err(DavError::Validation(msg))
        },
    }
}

/// Reads an HTTP method token case-insensitively (through Unicode
/// upper-casing); unknown tokens give a validation error naming the token.
pub fn parse_method(method: &str) -> (r: Result<DavMethod, DavError>)
    ensures
        r matches Ok(m) ==> DavMethod::from_name(uppercase(method@)) == Some(m),
        r matches Err(e) ==> DavMethod::from_name(uppercase(method@)) is None && e is Validation
            && e->Validation_0@ == "Unsupported method: "@ + method@,
{
    let upper = to_uppercase(method);
    method_from_upper(upper.as_str(), method)
}

/// The WebDAV request headers that the processor reads.
#[derive(Debug, Clone)]
pub struct RequestHeaders {
    pub uri: String,
    pub content_type: Option<String>,
    pub if_match: Option<String>,
    pub if_none_match: Option<String>,
    pub depth: Option<u32>,
    pub destination: Option<String>,
    pub overwrite: Option<bool>,
    pub authorization: Option<String>,
    pub prefer: Option<String>,
    pub schedule_reply: Option<bool>,
    pub lock_token: Option<String>,
    pub timeout: Option<String>,
    pub user_agent: Option<String>,
}

/// The abstract content of a `RequestHeaders`.
pub struct RequestHeadersView {
    pub uri: Seq<char>,
    pub content_type: Option<Seq<char>>,
    pub if_match: Option<Seq<char>>,
    pub if_none_match: Option<Seq<char>>,
    pub depth: Option<u32>,
    pub destination: Option<Seq<char>>,
    pub overwrite: Option<bool>,
    pub authorization: Option<Seq<char>>,
    pub prefer: Option<Seq<char>>,
    pub schedule_reply: Option<bool>,
    pub lock_token: Option<Seq<char>>,
    pub timeout: Option<Seq<char>>,
    pub user_agent: Option<Seq<char>>,
}

impl View for RequestHeaders {
    type V = RequestHeadersView;

    open spec fn view(&self) -> RequestHeadersView {
        RequestHeadersView {
            uri: self.uri@,
            content_type: opt_view(self.content_type),
            if_match: opt_view(self.if_match),
            if_none_match: opt_view(self.if_none_match),
            depth: self.depth,
            destination: opt_view(self.destination),
            overwrite: self.overwrite,
            authorization: opt_view(self.authorization),
            prefer: opt_view(self.prefer),
            schedule_reply: self.schedule_reply,
            lock_token: opt_view(self.lock_token),
            timeout: opt_view(self.timeout),
            user_agent: opt_view(self.user_agent),
        }
    }
}

/// The value of a `Depth` header: `0`, `1`, `infinity` (the largest
/// `u32`), or any decimal `u32`; nothing for other text.
pub open spec fn depth_value(value: Seq<char>) -> Option<u32> {
    if value == "0"@ {
        Some(0)
    } else if value == "1"@ {
        Some(1)
    } else if value == "infinity"@ {
        Some(u32::MAX)
    } else {
        match parse_unsigned(value, 10, u32::MAX as nat) {
            Some(n) => Some(n as u32),
            None => None,
        }
    }
}

/// The value of a WebDAV boolean header, given its upper-cased text:
/// `T`/`TRUE` and `F`/`FALSE`; nothing for other text.
pub open spec fn flag_value(upper: Seq<char>) -> Option<bool> {
    if upper == "T"@ || upper == "TRUE"@ {
        Some(true)
    } else if upper == "F"@ || upper == "FALSE"@ {
        Some(false)
    } else {
        None
    }
}

impl RequestHeadersView {
    /// The headers after reading one header, given its lower-cased name, its
    /// upper-cased value and its value.
    pub open spec fn with_header(
        self,
        lname: Seq<char>,
        uvalue: Seq<char>,
        value: Seq<char>,
    ) -> RequestHeadersView {
        if lname == "content-type"@ {
            RequestHeadersView { content_type: Some(value), ..self }
        } else if lname == "if-match"@ {
            RequestHeadersView { if_match: Some(value), ..self }
        } else if lname == "if-none-match"@ {
            RequestHeadersView { if_none_match: Some(value), ..self }
        } else if lname == "depth"@ {
            RequestHeadersView { depth: if depth_value(value) is Some { depth_value(value) } else { self.depth }, ..self }
        } else if lname == "destination"@ {
            RequestHeadersView { destination: Some(value), ..self }
        } else if lname == "overwrite"@ {
            RequestHeadersView { overwrite: if flag_value(uvalue) is Some { flag_value(uvalue) } else { self.overwrite }, ..self }
        } else if lname == "authorization"@ {
            RequestHeadersView { authorization: Some(value), ..self }
        } else if lname == "prefer"@ {
            RequestHeadersView { prefer: Some(value), ..self }
        } else if lname == "schedule-reply"@ {
            RequestHeadersView {
                schedule_reply: if flag_value(uvalue) is Some { flag_value(uvalue) } else { self.schedule_reply },
                ..self
            }
        } else if lname == "lock-token"@ {
            RequestHeadersView { lock_token: Some(value), ..self }
        } else if lname == "timeout"@ {
            RequestHeadersView { timeout: Some(value), ..self }
        } else if lname == "user-agent"@ {
            RequestHeadersView { user_agent: Some(value), ..self }
        } else {
            self
        }
    }
}

/// Reads the value of a `Depth` header.
pub fn parse_depth(value: &str) -> (r: Option<u32>)
    ensures
        r == depth_value(value@),
{
    if str_is(value, "0") {
        Some(0)
    } else if str_is(value, "1") {
        Some(1)
    } else if str_is(value, "infinity") {
        Some(u32::MAX)
    } else {
        let cs = chars_of(value);
        match parse_unsigned_chars(cs.as_slice(), 10, u32::MAX as u64) {
            Some(n) => Some(n as u32),
            None => None,
        }
    }
}

/// Reads a WebDAV boolean header from its upper-cased text.
pub fn parse_flag(upper: &str) -> (r: Option<bool>)
    ensures
        r == flag_value(upper@),
{
    if str_is(upper, "T") || str_is(upper, "TRUE") {
        Some(true)
    } else if str_is(upper, "F") || str_is(upper, "FALSE") {
        Some(false)
    } else {
        None
    }
}

impl RequestHeaders {
    /// Headers for a request to `path`, with no header read yet.
    pub fn new(path: &str) -> (r: RequestHeaders)
        ensures
            r@ == (RequestHeadersView {
                uri: path@,
                content_type: None,
                if_match: None,
                if_none_match: None,
                depth: None,
                destination: None,
                overwrite: None,
                authorization: None,
                prefer: None,
                schedule_reply: None,
                lock_token: None,
                timeout: None,
                user_agent: None,
            }),
    {
        RequestHeaders {
            uri: String::from_str(path),
            content_type: None,
            if_match: None,
            if_none_match: None,
            depth: None,
            destination: None,
            overwrite: None,
            authorization: None,
            prefer: None,
            schedule_reply: None,
            lock_token: None,
            timeout: None,
            user_agent: None,
        }
    }

    /// Records one header, given its lower-cased name, its upper-cased value
    /// and its value; unknown names, and `Depth`, `Overwrite` and
    /// `Schedule-Reply` values that do not parse, are ignored.
    pub fn apply_header(&mut self, lname: &str, uvalue: &str, value: &str)
        ensures
            final(self)@ == old(self)@.with_header(lname@, uvalue@, value@),
    {
        if str_is(lname, "content-type") {
            self.content_type = Some(String::from_str(value));
        } else if str_is(lname, "if-match") {
            self.if_match = Some(String::from_str(value));
        } else if str_is(lname, "if-none-match") {
            self.if_none_match = Some(String::from_str(value));
        } else if str_is(lname, "depth") {
            if let Some(d) = parse_depth(value) {
                self.depth = Some(d);
            }
        } else if str_is(lname, "destination") {
            self.destination = Some(String::from_str(value));
        } else if str_is(lname, "overwrite") {
            if let Some(f) = parse_flag(uvalue) {
                self.overwrite = Some(f);
            }
        } else if str_is(lname, "authorization") {
            self.authorization = Some(String::from_str(value));
        } else if str_is(lname, "prefer") {
            self.prefer = Some(String::from_str(value));
        } else if str_is(lname, "schedule-reply") {
            if let Some(f) = parse_flag(uvalue) {
                self.schedule_reply = Some(f);
            }
        } else if str_is(lname, "lock-token") {
            self.lock_token = Some(String::from_str(value));
        } else if str_is(lname, "timeout") {
            self.timeout = Some(String::from_str(value));
        } else if str_is(lname, "user-agent") {
            self.user_agent = Some(String::from_str(value));
        }
    }

    /// Records one header: its name is matched case-insensitively (through
    /// Unicode lower-casing), and the boolean headers read their value
    /// case-insensitively (through Unicode upper-casing).
    pub fn parse(&mut self, name: &str, value: &str)
        ensures
            final(self)@ == old(self)@.with_header(lowercase(name@), uppercase(value@), value@),
    {
        let lname = to_lowercase(name);
        let uvalue = to_uppercase(value);
        self.apply_header(lname.as_str(), uvalue.as_str(), value);
    }
}

/// Statistics of the request processing components.
#[derive(Debug, Clone)]
pub struct DavProcessorStats {
    pub total_requests: u64,
    pub cache_stats: crate::cache::CacheStats,
    pub router_stats: crate::router::RouterPerformanceStats,
    pub data_access_stats: crate::data_access::DataAccessStats,
}


/// The spellings of header names and boolean values are different texts.
proof fn lemma_header_spellings()
    ensures
        "content-type"@.len() == 12,
        "if-match"@.len() == 8,
        "if-none-match"@.len() == 13,
        "depth"@.len() == 5,
        "destination"@.len() == 11,
        "overwrite"@.len() == 9,
        "authorization"@.len() == 13,
        "prefer"@.len() == 6,
        "schedule-reply"@.len() == 14,
        "lock-token"@.len() == 10,
        "timeout"@.len() == 7,
        "user-agent"@.len() == 10,
        "T"@ == seq!['T'],
        "F"@ == seq!['F'],
        "TRUE"@ == seq!['T', 'R', 'U', 'E'],
        "FALSE"@ == seq!['F', 'A', 'L', 'S', 'E'],
{
    reveal_strlit("content-type");
    reveal_strlit("if-match");
    reveal_strlit("if-none-match");
    reveal_strlit("depth");
    reveal_strlit("destination");
    reveal_strlit("overwrite");
    reveal_strlit("authorization");
    reveal_strlit("prefer");
    reveal_strlit("schedule-reply");
    reveal_strlit("lock-token");
    reveal_strlit("timeout");
    reveal_strlit("user-agent");
    reveal_strlit("T");
    reveal_strlit("F");
    reveal_strlit("TRUE");
    reveal_strlit("FALSE");
}

/// The WebDAV boolean headers `Overwrite` and `Schedule-Reply` read the
/// same way: an upper-cased value of `F` or `FALSE` sets the header to
/// false and `T` or `TRUE` to true, any other value leaves the headers as
/// they were; no other header changes.
pub proof fn lemma_boolean_headers(h: RequestHeadersView, u: Seq<char>, v: Seq<char>)
    ensures
        (u == "F"@ || u == "FALSE"@) ==> h.with_header("schedule-reply"@, u, v) == (RequestHeadersView {
            schedule_reply: Some(false),
            ..h
        }) && h.with_header("overwrite"@, u, v) == (RequestHeadersView { overwrite: Some(false), ..h }),
        (u == "T"@ || u == "TRUE"@) ==> h.with_header("schedule-reply"@, u, v) == (RequestHeadersView {
            schedule_reply: Some(true),
            ..h
        }) && h.with_header("overwrite"@, u, v) == (RequestHeadersView { overwrite: Some(true), ..h }),
        !(u == "F"@ || u == "FALSE"@ || u == "T"@ || u == "TRUE"@) ==> h.with_header("schedule-reply"@, u, v) == h
            && h.with_header("overwrite"@, u, v) == h,
{
    lemma_header_spellings();
    assert("F"@[0] != "T"@[0]);
    assert("F"@ != "T"@);
    assert("FALSE"@ != "TRUE"@);
}

/// A `Depth` header reads `0`, `1` and `infinity` (the largest depth) as
/// such, a decimal number as that number, and leaves the depth as it was
/// for any other value; no other header changes.
pub proof fn lemma_depth_header(h: RequestHeadersView, u: Seq<char>, v: Seq<char>, n: u32)
    ensures
        v == "0"@ ==> h.with_header("depth"@, u, v) == (RequestHeadersView { depth: Some(0), ..h }),
        v == "1"@ ==> h.with_header("depth"@, u, v) == (RequestHeadersView { depth: Some(1), ..h }),
        v == "infinity"@ ==> h.with_header("depth"@, u, v) == (RequestHeadersView { depth: Some(u32::MAX), ..h }),
        v == crate::text::decimal(n as nat) ==> h.with_header("depth"@, u, v) == (RequestHeadersView {
            depth: Some(n),
            ..h
        }),
        depth_value(v) is None ==> h.with_header("depth"@, u, v) == h,
{
    lemma_header_spellings();
    reveal_strlit("0");
    reveal_strlit("1");
    reveal_strlit("infinity");
    if v == crate::text::decimal(n as nat) {
        crate::text::lemma_parse_numeral(n as nat, 10, u32::MAX as nat);
        if v == "0"@ {
            assert(n == 0) by {
                assert(parse_unsigned(v, 10, u32::MAX as nat) == Some(n as nat));
                assert(v == seq!['0']);
                assert(crate::text::digits_value(v, 10) == 0) by {
                    reveal_with_fuel(crate::text::digits_value, 2);
                }
            }
        } else if v == "1"@ {
            assert(n == 1) by {
                assert(v == seq!['1']);
                assert(crate::text::digits_value(v, 10) == 1) by {
                    reveal_with_fuel(crate::text::digits_value, 2);
                }
            }
        } else if v == "infinity"@ {
            assert(v[0] == 'i');
            assert(crate::text::digit_value(v[0], 10) is None);
            assert(false);
        }
    }
}
} // verus!
