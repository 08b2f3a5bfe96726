//! Display logic for a networked LED clock: 7-segment and pixel-matrix
//! rendering, TM1637/MAX7219 payload encoding, widget state machines, the
//! stored configuration, and the decisions of the engine that turns
//! server instructions into what is shown.

pub mod config;
pub mod display;
pub mod engine;
pub mod font_7seg;
pub mod framebuf;
pub mod network;
pub mod ota;
pub mod text;
pub mod udp_log;
pub mod widget;
