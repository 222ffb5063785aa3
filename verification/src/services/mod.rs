//! The services behind the router.

pub mod credits_client;
pub mod facilitator;
pub mod inference_client;
pub mod nonce_tracker;
pub mod rate_limiter;
pub mod session_manager;
pub mod settlement_queue;
pub mod settlement_store;
pub mod settlement_worker;
pub mod verification_cache;

pub use credits_client::CreditsClient;
pub use facilitator::FacilitatorClient;
pub use inference_client::InferenceClient;
pub use nonce_tracker::NonceTracker;
pub use rate_limiter::RateLimiter;
pub use session_manager::SessionManager;
pub use settlement_queue::{PendingSettlement, SettlementQueue, DEFAULT_MAX_QUEUE_SIZE};
pub use settlement_worker::{SettlementMetrics, SettlementWorker};
pub use verification_cache::VerificationCache;
