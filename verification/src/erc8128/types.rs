//! Identities, headers and errors of signed requests.

use vstd::prelude::*;
use vstd::string::*;

use crate::http::text_view;
use crate::text::{after_prefix, law_prefix_and_rest};

verus! {

/// Who signed a request.
#[derive(Debug, Clone)]
pub struct Erc8128Identity {
    pub wallet_address: String,
    pub chain_id: u64,
}

/// Who signed a request.
pub struct IdentityView {
    pub wallet_address: Seq<char>,
    pub chain_id: u64,
}

impl View for Erc8128Identity {
    type V = IdentityView;

    open spec fn view(&self) -> IdentityView {
        IdentityView { wallet_address: self.wallet_address@, chain_id: self.chain_id }
    }
}

/// The headers that sign an outgoing request.
#[derive(Debug, Clone)]
pub struct Erc8128SignedHeaders {
    pub signature_input: String,
    pub signature: String,
    pub content_digest: Option<String>,
}

/// The headers that sign an outgoing request.
pub struct SignedHeadersView {
    pub signature_input: Seq<char>,
    pub signature: Seq<char>,
    pub content_digest: Option<Seq<char>>,
}

impl View for Erc8128SignedHeaders {
    type V = SignedHeadersView;

    open spec fn view(&self) -> SignedHeadersView {
        SignedHeadersView {
            signature_input: self.signature_input@,
            signature: self.signature@,
            content_digest: text_view(self.content_digest),
        }
    }
}

/// What can go wrong when a request is verified or signed.
#[derive(Debug)]
pub enum Erc8128Error {
    MissingHeader(&'static str),
    InvalidSignatureInput(String),
    InvalidSignature(String),
    ContentDigestMismatch,
    Expired,
    NotYetValid,
    RecoveryFailed(String),
    AddressMismatch { expected: String, recovered: String },
    SigningFailed(String),
}

/// What went wrong when a request was verified or signed.
pub enum ErrorView {
    MissingHeader(Seq<char>),
    InvalidSignatureInput(Seq<char>),
    InvalidSignature(Seq<char>),
    ContentDigestMismatch,
    Expired,
    NotYetValid,
    RecoveryFailed(Seq<char>),
    AddressMismatch { expected: Seq<char>, recovered: Seq<char> },
    SigningFailed(Seq<char>),
}

impl View for Erc8128Error {
    type V = ErrorView;

    open spec fn view(&self) -> ErrorView {
        match self {
            Erc8128Error::MissingHeader(h) => ErrorView::MissingHeader(h@),
            Erc8128Error::InvalidSignatureInput(e) => ErrorView::InvalidSignatureInput(e@),
            Erc8128Error::InvalidSignature(e) => ErrorView::InvalidSignature(e@),
            Erc8128Error::ContentDigestMismatch => ErrorView::ContentDigestMismatch,
            Erc8128Error::Expired => ErrorView::Expired,
            Erc8128Error::NotYetValid => ErrorView::NotYetValid,
            Erc8128Error::RecoveryFailed(e) => ErrorView::RecoveryFailed(e@),
            Erc8128Error::AddressMismatch { expected, recovered } => ErrorView::AddressMismatch {
                expected: expected@,
                recovered: recovered@,
            },
            Erc8128Error::SigningFailed(e) => ErrorView::SigningFailed(e@),
        }
    }
}

/// The message of an error.
pub open spec fn error_message(e: ErrorView) -> Seq<char> {
    match e {
        ErrorView::MissingHeader(h) => "Missing header: "@ + h,
        ErrorView::InvalidSignatureInput(m) => "Invalid Signature-Input: "@ + m,
        ErrorView::InvalidSignature(m) => "Invalid Signature: "@ + m,
        ErrorView::ContentDigestMismatch => "Content-Digest does not match body"@,
        ErrorView::Expired => "Signature expired"@,
        ErrorView::NotYetValid => "Signature not yet valid"@,
        ErrorView::RecoveryFailed(m) => "EC recovery failed: "@ + m,
        ErrorView::AddressMismatch { expected, recovered } => "Address mismatch: expected "@
            + expected + ", recovered "@ + recovered,
        ErrorView::SigningFailed(m) => "Signing failed: "@ + m,
    }
}

/// The text `a` followed by the text `b`.
fn joined(a: &str, b: &str) -> (r: String)
    ensures
        r@ == a@ + b@,
{
    let mut out = a.to_owned();
    out.append(b);
    out
}

impl Erc8128Error {
    /// The message of this error.
    pub fn to_string(&self) -> (r: String)
        ensures
            r@ == error_message(self@),
    {
        match self {
            Erc8128Error::MissingHeader(h) => joined("Missing header: ", h),
            Erc8128Error::InvalidSignatureInput(e) => joined(
                "Invalid Signature-Input: ",
                e.as_str(),
            ),
            Erc8128Error::InvalidSignature(e) => joined("Invalid Signature: ", e.as_str()),
            Erc8128Error::ContentDigestMismatch => "Content-Digest does not match body".to_owned(),
            Erc8128Error::Expired => "Signature expired".to_owned(),
            Erc8128Error::NotYetValid => "Signature not yet valid".to_owned(),
            Erc8128Error::RecoveryFailed(e) => joined("EC recovery failed: ", e.as_str()),
            Erc8128Error::AddressMismatch { expected, recovered } => {
                let mut out = joined("Address mismatch: expected ", expected.as_str());
                out.append(", recovered ");
                out.append(recovered.as_str());
                out
            },
            Erc8128Error::SigningFailed(e) => joined("Signing failed: ", e.as_str()),
        }
    }
}

/// Each message says what was wrong and then, in full, what is known of it.
pub proof fn law_messages_say_what_is_known(m: Seq<char>, other: Seq<char>)
    ensures
        after_prefix(error_message(ErrorView::MissingHeader(m)), "Missing header: "@) == Some(m),
        after_prefix(
            error_message(ErrorView::InvalidSignatureInput(m)),
            "Invalid Signature-Input: "@,
        ) == Some(m),
        after_prefix(error_message(ErrorView::InvalidSignature(m)), "Invalid Signature: "@)
            == Some(m),
        after_prefix(error_message(ErrorView::RecoveryFailed(m)), "EC recovery failed: "@) == Some(
            m,
        ),
        after_prefix(error_message(ErrorView::SigningFailed(m)), "Signing failed: "@) == Some(m),
        after_prefix(
            error_message(ErrorView::AddressMismatch { expected: m, recovered: other }),
            "Address mismatch: expected "@ + m + ", recovered "@,
        ) == Some(other),
        error_message(ErrorView::ContentDigestMismatch) == "Content-Digest does not match body"@,
        error_message(ErrorView::Expired) == "Signature expired"@,
        error_message(ErrorView::NotYetValid) == "Signature not yet valid"@,
{
    law_prefix_and_rest("Missing header: "@ + m, "Missing header: "@, m);
    law_prefix_and_rest("Invalid Signature-Input: "@ + m, "Invalid Signature-Input: "@, m);
    law_prefix_and_rest("Invalid Signature: "@ + m, "Invalid Signature: "@, m);
    law_prefix_and_rest("EC recovery failed: "@ + m, "EC recovery failed: "@, m);
    law_prefix_and_rest("Signing failed: "@ + m, "Signing failed: "@, m);
    let front = "Address mismatch: expected "@ + m + ", recovered "@;
    law_prefix_and_rest(front + other, front, other);
}

} // verus!
