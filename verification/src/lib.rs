//! Pacing and bookkeeping for operations that are retried until they succeed.
pub mod api;
pub mod backoff;
pub mod delay;
pub mod duration;
pub mod jitter;
mod order;
pub mod retry;
pub mod sleep;

pub use api::create_api_config_provider;
pub use api::resolve_reply;
pub use api::ApiConfigProvider;
pub use api::ApiProxyRequest;
pub use api::NextConfig;
pub use api::ProxyConfig;
pub use backoff::BackoffView;
pub use backoff::ExponentialBackoff;
pub use delay::constant_interval;
pub use delay::ConstantInterval;
pub use delay::DelaySequence;
pub use delay::Take;
pub use duration::Duration;
pub use jitter::apply_jitter;
pub use jitter::jitter;
pub use jitter::jitter_from_bits;
pub use jitter::Jittered;
pub use jitter::JITTER_ONE;
pub use retry::retry_future;
pub use retry::retry_future_n;
pub use retry::Progress;
pub use retry::RetryFuture;
pub use sleep::sleep;
pub use sleep::Sleep;
pub use sleep::MAX_SINGLE_DELAY_SECS;
