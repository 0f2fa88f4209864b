//! Appointment invitations: batch generation of shortened, QR-encoded
//! invitation links and their single-use, time-windowed redemption.
//!
//! The crate models the stored state (appointments and their invitations)
//! explicitly, so that the all-or-nothing persistence of a generated batch
//! and the race-free redemption state machine are stated and proved rather
//! than assumed. Network, database and terminal edges live outside the
//! library and exchange plain values with it.

pub mod appointment;
pub mod config;
pub mod email;
pub mod error;
pub mod generator;
pub mod invitation;
pub mod qr;
pub mod redemption;
pub mod shortlink;
pub mod store;
pub mod text;
pub mod uri;

pub use error::CustomError;
