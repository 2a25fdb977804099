//! The records that the program keeps in storage slots, and the message it receives.

pub mod gateway;
pub mod nft_origin;
pub mod replay;
