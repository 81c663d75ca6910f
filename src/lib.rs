//! Planning and encoding of superimposed periodic color bursts for a
//! three-channel LED driver.

pub mod bounded;
pub mod buffer;
pub mod color;
pub mod dma;
pub mod stream;
pub mod time;
