//! Derives DNS zone content from a declarative configuration: zones,
//! subdomains and record declarations are resolved into concrete records,
//! with reverse-lookup records routed into the reverse zone whose address
//! range holds the forward address.

pub mod bits;
pub mod config;
pub mod context;
pub mod dns;
pub mod error;
pub mod generate;
pub mod net;
pub mod placeholder;
pub mod resolve;
pub mod text;
