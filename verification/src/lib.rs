//! Passive TCP handshake fingerprinting: frame classification, TCP option
//! decoding, fingerprint records and the size-bounded rotating streams that
//! persist them.

pub mod address;
pub mod capture;
pub mod fingerprint;
pub mod ipblocker;
pub mod json;
pub mod network_tap;
pub mod options;
pub mod packet;
pub mod rotating_writer;
pub mod text;
