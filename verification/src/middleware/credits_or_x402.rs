//! Credits first, x402 otherwise.
//!
//! A request with the headers of a signed one is verified; the wallet that
//! signed it pays with credits, where it has enough. Any other request is paid
//! by x402, and replies that ask for payment tell that credits are taken.

use vstd::prelude::*;

use crate::config::GlobalConfig;
use crate::erc8128::types::{ErrorView, IdentityView};
use crate::erc8128::verify::{
    has_erc8128_headers, signed_request, verified, verify_at, SignedRequestView,
};
use crate::erc8128::{Erc8128Error, Erc8128Identity};
use crate::http::{header_present, HttpRequest};
use crate::text::{lowercase, to_lowercase};

verus! {

/// How requests are paid with credits.
pub struct CreditsOrX402Middleware {
    pub test_mode: bool,
    /// The credits that a request costs.
    pub credit_cost: i64,
}

/// What is to be done with a request.
pub enum CreditsStep {
    /// Serve it.
    Serve,
    /// Ask for the balance of a wallet.
    AskBalance(String),
    /// Adjust the balance of a wallet.
    Deduct { wallet: String, delta: i64 },
    /// Have it paid by x402.
    PayX402,
}

/// What is to be done with a request.
pub enum CreditsStepView {
    Serve,
    AskBalance(Seq<char>),
    Deduct { wallet: Seq<char>, delta: i64 },
    PayX402,
}

impl View for CreditsStep {
    type V = CreditsStepView;

    open spec fn view(&self) -> CreditsStepView {
        match self {
            CreditsStep::Serve => CreditsStepView::Serve,
            CreditsStep::AskBalance(w) => CreditsStepView::AskBalance(w@),
            CreditsStep::Deduct { wallet, delta } => CreditsStepView::Deduct {
                wallet: wallet@,
                delta: *delta,
            },
            CreditsStep::PayX402 => CreditsStepView::PayX402,
        }
    }
}

/// Whether a request has the headers of a signed one.
pub open spec fn is_signed(h: Seq<(Seq<char>, Option<Seq<char>>)>) -> bool {
    header_present(h, "signature-input"@) && header_present(h, "signature"@)
}

/// What follows from verifying a request.
pub open spec fn after_verification(identity: Result<IdentityView, ErrorView>) -> CreditsStepView {
    match identity {
        Ok(id) => CreditsStepView::AskBalance(lowercase(id.wallet_address)),
        Err(_) => CreditsStepView::PayX402,
    }
}

/// What is done with a request first.
pub open spec fn credits_begin(test_mode: bool, r: SignedRequestView, now: int) -> CreditsStepView {
    if test_mode {
        CreditsStepView::Serve
    } else if is_signed(r.headers) {
        after_verification(verified(r, now))
    } else {
        CreditsStepView::PayX402
    }
}

/// What follows from the balance of a wallet, or the error of asking for it.
pub open spec fn after_balance(
    cost: i64,
    wallet: Seq<char>,
    balance: Result<i64, Seq<char>>,
) -> CreditsStepView {
    match balance {
        Ok(n) => if n >= cost {
            CreditsStepView::Deduct { wallet, delta: (-cost) as i64 }
        } else {
            CreditsStepView::PayX402
        },
        Err(_) => CreditsStepView::PayX402,
    }
}

/// What a balance is.
pub open spec fn balance_view(b: Result<i64, String>) -> Result<i64, Seq<char>> {
    match b {
        Ok(n) => Ok(n),
        Err(e) => Err(e@),
    }
}

impl CreditsOrX402Middleware {
    /// How requests are paid with credits.
    pub fn new(global_config: &GlobalConfig, credit_cost: i64) -> (r: Self)
        ensures
            r.test_mode == global_config@.test_mode,
            r.credit_cost == credit_cost,
    {
        CreditsOrX402Middleware { test_mode: global_config.test_mode, credit_cost }
    }

    /// Decides what is done with a request whose signature was verified, or
    /// was not valid.
    pub fn verified(&self, identity: Result<Erc8128Identity, Erc8128Error>) -> (r: CreditsStep)
        ensures
            r@ == after_verification(
                match identity {
                    Ok(id) => Ok::<IdentityView, ErrorView>(id@),
                    Err(e) => Err::<IdentityView, ErrorView>(e@),
                },
            ),
    {
        match identity {
            Ok(id) => CreditsStep::AskBalance(to_lowercase(id.wallet_address.as_str())),
            Err(_) => CreditsStep::PayX402,
        }
    }

    /// Decides what is done with a request first, at a time in seconds.
    pub fn begin(&self, req: &HttpRequest, body: &[u8], now: i64) -> (r: CreditsStep)
        requires
            !self.test_mode ==> signed_request(*req, body@).in_order(),
            now <= i64::MAX - 60,
        ensures
            r@ == credits_begin(self.test_mode, signed_request(*req, body@), now as int),
    {
        if self.test_mode {
            return CreditsStep::Serve;
        }
        if !has_erc8128_headers(&req.headers) {
            return CreditsStep::PayX402;
        }
        self.verified(verify_at(req, body, now))
    }

    /// Decides on the balance of a wallet.
    pub fn balance_known(&self, wallet: String, balance: Result<i64, String>) -> (r: CreditsStep)
        requires
            self.credit_cost > i64::MIN,
        ensures
            r@ == after_balance(self.credit_cost, wallet@, balance_view(balance)),
    {
        match balance {
            Ok(n) => {
                if n >= self.credit_cost {
                    CreditsStep::Deduct { wallet, delta: -self.credit_cost }
                } else {
                    CreditsStep::PayX402
                }
            },
            Err(_) => CreditsStep::PayX402,
        }
    }

    /// Decides on whether the credits were deducted.
    pub fn deducted(&self, result: Result<i64, String>) -> (r: CreditsStep)
        ensures
            r@ == (if result is Ok {
                CreditsStepView::Serve
            } else {
                CreditsStepView::PayX402
            }),
    {
        match result {
            Ok(_) => CreditsStep::Serve,
            Err(_) => CreditsStep::PayX402,
        }
    }
}

// ---------------------------------------------------------------------------
// Laws
// ---------------------------------------------------------------------------

/// Credits are deducted only where the balance covers the cost, and exactly
/// the cost is.
pub proof fn law_deducts_the_cost(cost: i64, wallet: Seq<char>, balance: Result<i64, Seq<char>>)
    requires
        cost > i64::MIN,
    ensures
        match after_balance(cost, wallet, balance) {
            CreditsStepView::Deduct { wallet: w, delta } => {
                &&& w == wallet
                &&& delta == -cost
                &&& balance is Ok
                &&& balance->Ok_0 + delta >= 0
            },
            step => step == CreditsStepView::PayX402 && (balance is Err || balance->Ok_0 < cost),
        },
{
}

/// Only a request that was signed has its wallet asked to pay, and the wallet
/// is the one that signed it.
pub proof fn law_only_the_signer_pays(test_mode: bool, r: SignedRequestView, now: int)
    ensures
        match credits_begin(test_mode, r, now) {
            CreditsStepView::AskBalance(w) => {
                &&& !test_mode
                &&& verified(r, now) is Ok
                &&& w == lowercase(verified(r, now)->Ok_0.wallet_address)
            },
            CreditsStepView::Serve => test_mode,
            CreditsStepView::Deduct { .. } => false,
            CreditsStepView::PayX402 => !test_mode,
        },
{
}

/// What a request is done with first: in test mode it is served; one that
/// carries both headers of a signature and is verified pays from the wallet
/// that signed it, in lower case; any other one is paid by x402.
pub proof fn law_begins_as_signed(test_mode: bool, r: SignedRequestView, now: int)
    ensures
        ({
            let step = credits_begin(test_mode, r, now);
            let signed = header_present(r.headers, "signature-input"@) && header_present(
                r.headers,
                "signature"@,
            );
            &&& test_mode ==> step == CreditsStepView::Serve
            &&& !test_mode && signed && verified(r, now) is Ok ==> step
                == CreditsStepView::AskBalance(lowercase(verified(r, now)->Ok_0.wallet_address))
            &&& !test_mode && (!signed || verified(r, now) is Err) ==> step
                == CreditsStepView::PayX402
        }),
{
}

} // verus!
