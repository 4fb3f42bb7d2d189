//! A wire-format codec for the Bluetooth Host Controller Interface: bounded
//! buffer access, packet framing, command encoding, event decoding, and the
//! Advertising Data records that commands and events carry. Each encoder and
//! decoder states its result over a byte-level model, and the round trips
//! between them are proved. A small bit-packed controller-input state lives
//! beside the codec.
use vstd::prelude::*;

pub mod buffer;
pub mod command;
pub mod event;
pub mod gap;
pub mod packet;
pub mod state;

verus! {

} // verus!
