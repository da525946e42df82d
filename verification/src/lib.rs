//! Verified core of the stellar-router suite.

pub mod address;
pub mod base64;
pub mod clock;
pub mod codec_laws;
pub mod collector;
pub mod collector_laws;
pub mod error;
pub mod headers;
pub mod json;
pub mod quote;
pub mod quote_laws;
pub mod rate_limit;
pub mod replay_protection;
pub mod route_laws;
pub mod rpc;
pub mod rpc_laws;
pub mod scrape_laws;
pub mod screening_laws;
pub mod scval;
pub mod scval_laws;
pub mod session_laws;
pub mod soroban;
pub mod strkey;
pub mod strkey_laws;
pub mod table;
pub mod text;
pub mod text_laws;
pub mod timelock;
pub mod timelock_call_laws;
pub mod timelock_laws;
pub mod view_laws;
pub mod websocket;
pub mod xdr;
