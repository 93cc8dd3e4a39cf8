//! The trading rules.
pub mod book_laws;
pub mod books;
pub mod cids;
pub mod cooldown;
pub mod driver;
pub mod feed_laws;
pub mod fill_laws;
pub mod fills;
pub mod frame_laws;
pub mod hedge;
pub mod order_laws;
pub mod orders;
pub mod pause;
pub mod pause_laws;
pub mod router;
pub mod sides;
pub mod state;
pub mod window;
