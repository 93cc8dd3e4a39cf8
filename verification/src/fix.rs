//! The FIX session layer: timestamps, authentication, sequence numbers, and
//! what a session makes of the bytes it reads.
pub mod auth;
pub mod auth_laws;
pub mod inbound;
pub mod logon;
pub mod session;
pub mod session_laws;
pub mod time;
pub mod time_laws;

pub use self::auth::{parse_ed25519_pem, sign_logon};
pub use self::inbound::InboundMsg;
pub use self::session::{FixSession, SessionKind};
pub use self::time::{fix_utc_timestamp, gen_clordid, now_us};
