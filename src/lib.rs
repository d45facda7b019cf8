//! Verified core of a per-user signed "brain" store and the request
//! pipeline of an OpenAI-compatible proxy in front of a deterministic
//! execution kernel.

pub mod text;
pub mod json;
pub mod plan;
pub mod plan_json;
pub mod extract;
pub mod kernel;
pub mod response;
pub mod crypto;
pub mod brain;
pub mod store;
pub mod package;
pub mod proxy;
pub mod pipeline;
pub mod adapter;
pub mod product;
