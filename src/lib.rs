//! A wagering engine for a street-dice game (a shooter against a pool of
//! faders), a contribution-round pot, and a randomness-request consumer.
//! Every state transition is a verified function over plain values; the
//! host program supplies the clock, the signers and the fund movements.
mod anchor_errors;
pub mod keys;
pub mod sums;
pub mod game;
pub mod settlement;
pub mod street_craps;
pub mod craps_laws;
pub mod types;
pub mod solana_word_game;
pub mod word_game_anchor;
