//! The provider layer: messages, errors, retry policy, stream reassembly and routing.
pub mod sse;
pub mod model_info;
pub mod error;
pub mod message;
pub mod accumulator;
pub mod observability;
pub mod config;
pub mod decision;
pub mod routing;
pub mod cancel;
pub mod request;
pub mod layer;
pub mod wire;
pub mod openai;
pub mod claude;
pub mod local;
pub mod setup;
