//! HTTP requests and replies, as far as the router reads and decides them.

use vstd::prelude::*;

use crate::json::{Json, JsonView};
use crate::text::{after_prefix, same_text, strip_prefix};

verus! {

/// The header fields of a request, in order: each with its lower-case name and
/// its value, which is `None` where it is not visible ASCII text.
pub struct Headers {
    pub entries: Vec<(String, Option<String>)>,
}

/// The characters of an optional text.
pub open spec fn text_view(s: Option<String>) -> Option<Seq<char>> {
    match s {
        Some(t) => Some(t@),
        None => None,
    }
}

/// The characters of an optional text slice.
pub open spec fn str_view(s: Option<&str>) -> Option<Seq<char>> {
    match s {
        Some(t) => Some(t@),
        None => None,
    }
}

/// A copy of an optional text.
pub fn copy_text(s: &Option<String>) -> (r: Option<String>)
    ensures
        r == *s,
{
    match s {
        Some(t) => Some(t.clone()),
        None => None,
    }
}

/// The first header field from position `i` on with a name.
pub open spec fn header_from(
    h: Seq<(Seq<char>, Option<Seq<char>>)>,
    name: Seq<char>,
    i: int,
) -> Option<Option<Seq<char>>>
    decreases h.len() - i,
{
    if i < 0 || i >= h.len() {
        None
    } else if h[i].0 == name {
        Some(h[i].1)
    } else {
        header_from(h, name, i + 1)
    }
}

/// Whether there is a header field with a name.
pub open spec fn header_present(h: Seq<(Seq<char>, Option<Seq<char>>)>, name: Seq<char>) -> bool {
    header_from(h, name, 0) is Some
}

/// The value of the first header field with a name, where it is text.
pub open spec fn header_text(
    h: Seq<(Seq<char>, Option<Seq<char>>)>,
    name: Seq<char>,
) -> Option<Seq<char>> {
    match header_from(h, name, 0) {
        Some(v) => v,
        None => None,
    }
}

impl View for Headers {
    type V = Seq<(Seq<char>, Option<Seq<char>>)>;

    open spec fn view(&self) -> Seq<(Seq<char>, Option<Seq<char>>)> {
        Seq::new(
            self.entries@.len(),
            |i: int| (self.entries@[i].0@, text_view(self.entries@[i].1)),
        )
    }
}

impl Headers {
    /// The position of the first header field with a name.
    fn position(&self, name: &str) -> (r: Option<usize>)
        ensures
            match r {
                Some(i) => i < self@.len() && header_from(self@, name@, 0) == Some(self@[i as int].1),
                None => header_from(self@, name@, 0) is None,
            },
    {
        let mut i: usize = 0;
        while i < self.entries.len()
            invariant
                i <= self.entries@.len(),
                header_from(self@, name@, 0) == header_from(self@, name@, i as int),
            decreases self.entries@.len() - i,
        {
            if same_text(self.entries[i].0.as_str(), name) {
                return Some(i);
            }
            i += 1;
        }
        None
    }

    /// Whether there is a header field with a name.
    pub fn contains_key(&self, name: &str) -> (r: bool)
        ensures
            r == header_present(self@, name@),
    {
        self.position(name).is_some()
    }

    /// The value of the first header field with a name, where it is text.
    pub fn text(&self, name: &str) -> (r: Option<String>)
        ensures
            text_view(r) == header_text(self@, name@),
    {
        match self.position(name) {
            Some(i) => copy_text(&self.entries[i].1),
            None => None,
        }
    }
}

/// A request, without its body.
pub struct HttpRequest {
    pub method: String,
    pub path: String,
    pub query_string: String,
    pub headers: Headers,
}

/// The token of an `Authorization: Bearer` header.
pub open spec fn bearer_token(h: Seq<(Seq<char>, Option<Seq<char>>)>) -> Option<Seq<char>> {
    match header_text(h, "authorization"@) {
        Some(v) => after_prefix(v, "Bearer "@),
        None => None,
    }
}

/// The token of an `Authorization: Bearer` header.
pub fn extract_bearer_token(headers: &Headers) -> (r: Option<String>)
    ensures
        text_view(r) == bearer_token(headers@),
{
    match headers.text("authorization") {
        Some(v) => strip_prefix(v.as_str(), "Bearer "),
        None => None,
    }
}

/// The body of a reply.
#[derive(Debug)]
pub enum Body {
    Text(String),
    Json(Json),
}

/// What the body of a reply is.
pub enum BodyView {
    Text(Seq<char>),
    Json(JsonView),
}

impl View for Body {
    type V = BodyView;

    open spec fn view(&self) -> BodyView {
        match self {
            Body::Text(s) => BodyView::Text(s@),
            Body::Json(j) => BodyView::Json(j@),
        }
    }
}

/// A reply that the router makes itself.
#[derive(Debug)]
pub struct Reply {
    pub status: u16,
    pub headers: Vec<(String, String)>,
    pub body: Body,
}

/// What a reply is.
pub struct ReplyView {
    pub status: u16,
    pub headers: Seq<(Seq<char>, Seq<char>)>,
    pub body: BodyView,
}

/// The characters of a list of header fields.
pub open spec fn pairs_view(v: Seq<(String, String)>) -> Seq<(Seq<char>, Seq<char>)> {
    Seq::new(v.len(), |i: int| (v[i].0@, v[i].1@))
}

impl View for Reply {
    type V = ReplyView;

    open spec fn view(&self) -> ReplyView {
        ReplyView {
            status: self.status,
            headers: pairs_view(self.headers@),
            body: self.body@,
        }
    }
}

/// A reply with a text body and no header fields of its own.
pub open spec fn text_reply(status: u16, body: Seq<char>) -> ReplyView {
    ReplyView { status, headers: seq![], body: BodyView::Text(body) }
}

/// A reply with a JSON body and no header fields of its own.
pub open spec fn json_reply(status: u16, body: JsonView) -> ReplyView {
    ReplyView { status, headers: seq![], body: BodyView::Json(body) }
}

/// The JSON body that reports an error.
pub open spec fn error_json(message: Seq<char>) -> JsonView {
    JsonView::Object(map!["error"@ => JsonView::Text(message)])
}

/// A reply whose JSON body reports an error.
pub open spec fn error_reply(status: u16, message: Seq<char>) -> ReplyView {
    json_reply(status, error_json(message))
}

impl Reply {
    /// A reply with a text body.
    pub fn text(status: u16, body: &str) -> (r: Reply)
        ensures
            r@ == text_reply(status, body@),
    {
        let r = Reply { status, headers: Vec::new(), body: Body::Text(body.to_owned()) };
        assert(r@.headers =~= seq![]);
        r
    }

    /// A reply with a JSON body.
    pub fn json(status: u16, body: Json) -> (r: Reply)
        ensures
            r@ == json_reply(status, body@),
    {
        let r = Reply { status, headers: Vec::new(), body: Body::Json(body) };
        assert(r@.headers =~= seq![]);
        r
    }

    /// A reply whose JSON body reports an error.
    pub fn error(status: u16, message: &str) -> (r: Reply)
        ensures
            r@ == error_reply(status, message@),
    {
        let mut o = crate::json::JsonObject::new();
        o.put("error", Json::str(message));
        Reply::json(status, Json::Object(o))
    }

    /// Adds a header field.
    pub fn add_header(&mut self, name: &str, value: &str)
        ensures
            final(self)@ == (ReplyView {
                headers: old(self)@.headers.push((name@, value@)),
                ..old(self)@
            }),
    {
        let ghost before = self.headers@;
        self.headers.push((name.to_owned(), value.to_owned()));
        assert(pairs_view(self.headers@) =~= pairs_view(before).push((name@, value@)));
    }
}

// ---------------------------------------------------------------------------
// Laws
// ---------------------------------------------------------------------------

/// `header_from` finds the first header field with a name.
proof fn lemma_header_from(
    h: Seq<(Seq<char>, Option<Seq<char>>)>,
    name: Seq<char>,
    i: int,
    k: int,
)
    requires
        0 <= i <= k <= h.len(),
        forall|j: int| i <= j < k ==> (#[trigger] h[j]).0 != name,
        k < h.len() ==> h[k].0 == name,
    ensures
        header_from(h, name, i) == if k < h.len() {
            Some(h[k].1)
        } else {
            None
        },
    decreases k - i,
{
    if i < k {
        assert(h[i].0 != name);
        lemma_header_from(h, name, i + 1, k);
    }
}

/// Of the header fields with a name the first one counts, whatever comes after
/// it; where none has the name, there is none.
pub proof fn law_first_header_counts(
    h: Seq<(Seq<char>, Option<Seq<char>>)>,
    name: Seq<char>,
    k: int,
)
    requires
        0 <= k <= h.len(),
        forall|j: int| 0 <= j < k ==> (#[trigger] h[j]).0 != name,
    ensures
        k < h.len() && h[k].0 == name ==> header_present(h, name) && header_text(h, name) == h[k].1,
        k == h.len() ==> !header_present(h, name) && header_text(h, name) is None,
{
    if k == h.len() || h[k].0 == name {
        lemma_header_from(h, name, 0, k);
    }
}

/// The token of a request is what follows `Bearer ` in its `Authorization`
/// header; a header of another form gives none.
pub proof fn law_bearer_token(h: Seq<(Seq<char>, Option<Seq<char>>)>, token: Seq<char>)
    ensures
        bearer_token(h) == Some(token) <==> header_text(h, "authorization"@) == Some(
            "Bearer "@ + token,
        ),
{
    let p = "Bearer "@;
    let n = p.len() as int;
    assert((p + token).subrange(0, n) =~= p);
    assert((p + token).skip(n) =~= token);
    if bearer_token(h) == Some(token) {
        let v = header_text(h, "authorization"@)->0;
        assert(v =~= v.subrange(0, n) + v.skip(n));
    }
}

/// A reply that reports an error has its status, no header fields of its own,
/// and a JSON body that holds the message and nothing else.
pub proof fn law_error_reply(status: u16, message: Seq<char>)
    ensures
        ({
            let r = error_reply(status, message);
            &&& r.status == status
            &&& r.headers.len() == 0
            &&& r.body is Json
            &&& r.body->Json_0.field("error"@) == Some(JsonView::Text(message))
            &&& forall|k: Seq<char>| #[trigger]
                r.body->Json_0.field(k) is Some ==> k == "error"@
        }),
{
}

/// A reply has the status and the body that it is made with.
pub proof fn law_replies(status: u16, text: Seq<char>, json: JsonView)
    ensures
        text_reply(status, text).status == status,
        text_reply(status, text).headers.len() == 0,
        text_reply(status, text).body == BodyView::Text(text),
        json_reply(status, json).status == status,
        json_reply(status, json).headers.len() == 0,
        json_reply(status, json).body == BodyView::Json(json),
{
}

} // verus!
