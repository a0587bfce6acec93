//! Chaum-Pedersen zero-knowledge authentication: the proof engine over a
//! prime-order subgroup and the server-side registration, challenge and
//! session bookkeeping that sequences it.
pub mod error;
pub mod natural;
pub mod chaum_pedersen;
pub mod group;
pub mod types;
pub mod state;
pub mod server;
pub mod client;

pub use chaum_pedersen::{ChaumPedersen, ChaumPedersenExponents, ChaumPedersenInterface, Parameters};
pub use client::{calculate_password_hash, ChaumPedersenAuthClient, LoginRound};
pub use error::AuthError;
pub use natural::Natural;
pub use server::PedersenChaumAuthServer;
pub use state::PedersenChaumAuthServerState;
pub use types::{Challenge, Session, User};
