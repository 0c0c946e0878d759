pub mod auth;
pub mod client;
pub mod error;
pub mod json;
pub mod request;
pub mod shape;
pub mod text;

pub use auth::{ApiKeyAuth, AuthStrategy, BearerAuth, HeaderAuth};
pub use client::{ApiClient, ApiResult, RawResponse, RetryState, RetryStep};
pub use error::ApiClientError;
pub use json::JsonValue;
pub use request::{Method, Request};
pub use shape::{Fields, Shape};
