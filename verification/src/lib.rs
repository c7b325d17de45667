//! A reversible transcoder that hides UTF-8 text inside a carrier string made
//! of two zero-width characters, and recovers the text from such a carrier.

pub mod alphabet;
pub mod bits;
pub mod carrier;
pub mod codec;
pub mod error;
pub mod filtering;
pub mod laws;
pub mod mode;
pub mod text;

pub use alphabet::{ONE, ZERO};
pub use bits::{bin_to_str, str_to_bin};
pub use carrier::{bin_to_zw, zw_to_bin};
pub use codec::{decode, encode};
pub use error::DecodeError;
pub use mode::{choose_direction, looks_encoded, transcode, Direction};
