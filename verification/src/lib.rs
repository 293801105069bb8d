//! An exact-hostname SNI relay: the verified logic.

pub mod address;
pub mod admission;
pub mod admission_laws;
pub mod certificate;
pub mod client_hello;
pub mod config;
pub mod config_laws;
pub mod error;
pub mod fallback;
pub mod fallback_laws;
pub mod hello_laws;
pub mod hello_reader;
pub mod hostname;
pub mod hostname_laws;
pub mod http;
pub mod http_laws;
pub mod instruments;
pub mod loadgen;
pub mod metric_names;
pub mod metrics;
pub mod metrics_laws;
pub mod number;
pub mod proxy;
pub mod relay;
pub mod relay_laws;
pub mod routing;
pub mod service;
pub mod sni_policy;
pub mod splice;
pub mod stream_laws;
pub mod text;
pub mod tls;
pub mod tls_laws;
