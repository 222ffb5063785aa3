//! The values that requests and responses are made of.

pub mod chat;
pub mod domains;

pub use chat::{ChatMessage, ChatRequest};
pub use domains::{DomainBytes32, DomainEthAddress, DomainUint256};
