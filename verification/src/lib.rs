//! Command descriptors, status decoding and command sequencing for reading
//! the Extended CSD register of an eMMC device.
//!
//! Nothing here touches a device. The library builds descriptors, lays them
//! out as bytes, decodes what comes back and decides what to do next; the
//! caller owns the device handle, executes each descriptor and reports the
//! outcome.

pub mod constants;
pub mod response;
pub mod descriptor;
pub mod transport;
pub mod status;
pub mod extcsd;
pub mod replay;
