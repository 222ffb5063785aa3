//! Requests to the credits API, and what its replies say.

use vstd::prelude::*;
use vstd::string::*;
use vstd::utf8::*;

use crate::json::{json_parsed, number, Json, JsonObject, JsonView};
use crate::text::{trim_end_char, trim_end_of};

verus! {

/// The credits API, and the key that requests to it carry.
#[derive(Clone)]
pub struct CreditsClient {
    base_url: String,
    secret_key: String,
}

/// The credits API, and the key that requests to it carry.
pub struct CreditsClientView {
    pub base_url: Seq<char>,
    pub secret_key: Seq<char>,
}

impl View for CreditsClient {
    type V = CreditsClientView;

    closed spec fn view(&self) -> CreditsClientView {
        CreditsClientView { base_url: self.base_url@, secret_key: self.secret_key@ }
    }
}

/// What came of a request to the credits API.
pub enum CreditsReply {
    /// No reply, with the error.
    Failed(String),
    /// A reply whose body could not be read, with the error.
    Unread(String),
    /// A reply: its status code, the text of the status and the body.
    Received { code: u16, status: String, body: String },
}

/// What came of a request to the credits API.
pub enum CreditsReplyView {
    Failed(Seq<char>),
    Unread(Seq<char>),
    Received { code: u16, status: Seq<char>, body: Seq<char> },
}

impl View for CreditsReply {
    type V = CreditsReplyView;

    open spec fn view(&self) -> CreditsReplyView {
        match self {
            CreditsReply::Failed(e) => CreditsReplyView::Failed(e@),
            CreditsReply::Unread(e) => CreditsReplyView::Unread(e@),
            CreditsReply::Received { code, status, body } => CreditsReplyView::Received {
                code: *code,
                status: status@,
                body: body@,
            },
        }
    }
}

/// The balance that the body of a successful reply states, or the message of
/// the error; `parsed` is what the body reads as.
pub open spec fn balance_in(parsed: Result<JsonView, Seq<char>>, body: Seq<char>) -> Result<
    i64,
    Seq<char>,
> {
    match parsed {
        Err(e) => Err("Invalid credits JSON: "@ + e),
        Ok(j) => match j.field("credits"@) {
            Some(v) => match v.signed() {
                Some(n) => Ok(n),
                None => Err("Missing 'credits' field in response: "@ + body),
            },
            None => Err("Missing 'credits' field in response: "@ + body),
        },
    }
}

/// The balance that a reply states, or the message of the error.
pub open spec fn balance_of(reply: CreditsReplyView) -> Result<i64, Seq<char>> {
    match reply {
        CreditsReplyView::Failed(e) => Err("Credits API request failed: "@ + e),
        CreditsReplyView::Unread(e) => Err("Failed to read credits response: "@ + e),
        CreditsReplyView::Received { code, status, body } => if 200 <= code < 300 {
            balance_in(json_parsed(encode_utf8(body)), body)
        } else {
            Err("Credits API error "@ + status + ": "@ + body)
        },
    }
}

/// The balance that the body of a successful reply states, given what the body
/// reads as.
pub fn read_balance(parsed: Result<Json, String>, body: &str) -> (r: Result<i64, String>)
    ensures
        ({
            let p = match parsed {
                Ok(j) => Ok::<JsonView, Seq<char>>(j@),
                Err(e) => Err::<JsonView, Seq<char>>(e@),
            };
            match r {
                Ok(n) => balance_in(p, body@) == Ok::<i64, Seq<char>>(n),
                Err(e) => balance_in(p, body@) == Err::<i64, Seq<char>>(e@),
            }
        }),
{
    match parsed {
        Err(e) => {
            let mut m = "Invalid credits JSON: ".to_owned();
            m.append(e.as_str());
            Err(m)
        },
        Ok(j) => {
            if let Some(v) = j.get("credits") {
                if let Some(n) = v.as_i64() {
                    return Ok(n);
                }
            }
            let mut m = "Missing 'credits' field in response: ".to_owned();
            m.append(body);
            Err(m)
        },
    }
}

impl CreditsClient {
    /// A client for the API at a URL; slashes at its end are dropped.
    pub fn new(base_url: &str, secret_key: String) -> (r: Self)
        ensures
            r@ == (CreditsClientView {
                base_url: trim_end_char(base_url@, '/'),
                secret_key: secret_key@,
            }),
    {
        CreditsClient { base_url: trim_end_of(base_url, '/'), secret_key }
    }

    /// The `authorization` header of every request.
    pub fn authorization(&self) -> (r: String)
        ensures
            r@ == "Bearer "@ + self@.secret_key,
    {
        let mut h = "Bearer ".to_owned();
        h.append(self.secret_key.as_str());
        h
    }

    /// Where the balance of a wallet is asked for.
    pub fn balance_url(&self, wallet_address: &str) -> (r: String)
        ensures
            r@ == self@.base_url + "/admin/credits"@ + "?"@ + "address="@ + wallet_address@,
    {
        let mut u = self.base_url.clone();
        u.append("/admin/credits");
        u.append("?");
        u.append("address=");
        u.append(wallet_address);
        u
    }

    /// Where a balance is adjusted.
    pub fn adjust_url(&self) -> (r: String)
        ensures
            r@ == self@.base_url + "/admin/credits"@,
    {
        let mut u = self.base_url.clone();
        u.append("/admin/credits");
        u
    }

    /// The body of the request that adjusts a balance by `delta`.
    pub fn adjust_body(&self, wallet_address: &str, delta: i64) -> (r: Json)
        ensures
            r@ == JsonView::Object(
                map![
                    "address"@ => JsonView::Text(wallet_address@),
                    "delta"@ => number(delta as int),
                ],
            ),
    {
        let mut o = JsonObject::new();
        o.put("address", Json::str(wallet_address));
        o.put("delta", Json::signed(delta));
        Json::Object(o)
    }

    /// The balance that the reply to a balance request states.
    pub fn get_credits(&self, reply: CreditsReply) -> (r: Result<i64, String>)
        ensures
            match r {
                Ok(n) => balance_of(reply@) == Ok::<i64, Seq<char>>(n),
                Err(e) => balance_of(reply@) == Err::<i64, Seq<char>>(e@),
            },
    {
        match reply {
            CreditsReply::Failed(e) => {
                let mut m = "Credits API request failed: ".to_owned();
                m.append(e.as_str());
                Err(m)
            },
            CreditsReply::Unread(e) => {
                let mut m = "Failed to read credits response: ".to_owned();
                m.append(e.as_str());
                Err(m)
            },
            CreditsReply::Received { code, status, body } => {
                if 200 <= code && code < 300 {
                    read_balance(Json::parse(body.as_str().as_bytes()), body.as_str())
                } else {
                    let mut m = "Credits API error ".to_owned();
                    m.append(status.as_str());
                    m.append(": ");
                    m.append(body.as_str());
                    Err(m)
                }
            },
        }
    }

    /// The new balance that the reply to an adjustment states.
    pub fn adjust_credits(&self, reply: CreditsReply) -> (r: Result<i64, String>)
        ensures
            match r {
                Ok(n) => balance_of(reply@) == Ok::<i64, Seq<char>>(n),
                Err(e) => balance_of(reply@) == Err::<i64, Seq<char>>(e@),
            },
    {
        self.get_credits(reply)
    }
}

// ---------------------------------------------------------------------------
// Laws
// ---------------------------------------------------------------------------

/// The balance of a wallet is the integer that a successful reply states under
/// `credits`, and there is none without it: a reply with another status, one
/// that could not be had or read, and one that states no such integer are all
/// errors.
pub proof fn law_balance_is_read(reply: CreditsReplyView)
    ensures
        ({
            let r = balance_of(reply);
            match reply {
                CreditsReplyView::Failed(e) => r == Err::<i64, Seq<char>>(
                    "Credits API request failed: "@ + e,
                ),
                CreditsReplyView::Unread(e) => r == Err::<i64, Seq<char>>(
                    "Failed to read credits response: "@ + e,
                ),
                CreditsReplyView::Received { code, status, body } => {
                    let j = json_parsed(encode_utf8(body));
                    let ok = 200 <= code && code <= 299;
                    &&& !ok ==> r == Err::<i64, Seq<char>>(
                        "Credits API error "@ + status + ": "@ + body,
                    )
                    &&& ok && j is Err ==> r == Err::<i64, Seq<char>>(
                        "Invalid credits JSON: "@ + j->Err_0,
                    )
                    &&& ok && j is Ok ==> forall|n: i64|
                        j->Ok_0.field("credits"@) == Some(#[trigger] number(n as int)) ==> r == Ok::<
                            i64,
                            Seq<char>,
                        >(n)
                    &&& r matches Ok(n) ==> ok && j is Ok && j->Ok_0.field("credits"@) == Some(
                        number(n as int),
                    )
                    &&& ok && j is Ok && r is Err ==> r->Err_0
                        == "Missing 'credits' field in response: "@ + body
                },
            }
        }),
{
}

} // verus!
