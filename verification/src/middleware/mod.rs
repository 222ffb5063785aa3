//! The decisions between a request and the service behind it.

pub mod credits_or_x402;
pub mod unified;
pub mod x402;

pub use credits_or_x402::CreditsOrX402Middleware;
pub use unified::{EndpointRegistry, RegisteredEndpoint, UnifiedDispatchMiddleware};
pub use x402::X402Middleware;
