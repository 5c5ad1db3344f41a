//! What the proxy does with an exchange.
pub mod body_codec;
pub mod body_plan;
pub mod budget;
pub mod circuit_breaker;
pub mod content_encoding;
pub mod exchange;
pub mod frame;
pub mod http_utils;
pub mod outbound;
pub mod server;
pub mod tap;
pub mod throttle;
pub mod tunnel;
pub mod websocket;
