//! Payload encoding for the two display drivers, decoupled from the bus
//! so that it can be checked and tested on any host.

pub mod max7219_proto;
pub mod tm1637_proto;
