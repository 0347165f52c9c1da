//! Verified model of the SPI bring-up protocol for a TFT display controller.
//!
//! The library computes, as plain data, every operation the firmware performs
//! on the wire: control-pin changes, blocking delays, and chip-select-bracketed
//! SPI writes. The hardware layer replays the recorded operations verbatim;
//! everything that decides *what* goes on the wire is verified here.

pub mod controller;
pub mod encode;
pub mod halt;
pub mod interface;
pub mod laws;
pub mod ops;

pub use controller::ColorOrder;
pub use controller::DisplayController;
pub use controller::DrawError;
pub use controller::Frame;
pub use controller::InitState;
pub use controller::Orientation;
pub use interface::DisplayInterface;
pub use ops::OpV;
pub use ops::WireOp;
