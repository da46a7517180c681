//! Aggregation core of a price oracle: median consensus over recent
//! submissions, reporter liveness, and the decision logic of a resilient
//! market-data ingestion client.
pub mod backoff;
pub mod decimal;
pub mod engine;
pub mod ingest;
pub mod liveness;
pub mod retry;
pub mod validator;
pub mod window;
