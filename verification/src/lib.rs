//! Driver core for electrophoretic ("e-paper") display panels addressed over a
//! synchronous serial bus, together with the image-conversion pipeline that
//! turns a decoded raster into the packed bitplane format the panel protocol
//! requires.
//!
//! The core is pure: every hardware transaction is described as data (a plan of
//! bus actions or panel operations) rather than performed. A thin unverified
//! shell owns the actual serial device and control lines, executes the plans,
//! and feeds busy-line samples back into the poll state machine.

pub mod epd7in5_v2;
pub mod epd7in5bc;
pub mod error;
pub mod graphics;
pub mod pack;
pub mod panel;
pub mod quantize;
pub mod transport;

pub use error::EpdError;
