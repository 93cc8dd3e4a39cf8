//! A market maker for Binance Spot over FIX-SBE: the wire codec, the session
//! protocol and the trading rules.
pub mod clock;
pub mod fix;
pub mod maker;
pub mod perp;
pub mod sbe;
pub mod search;
pub mod sidecar;
pub mod sidecar_laws;
pub mod text;
