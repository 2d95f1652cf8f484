//! Firmware-stage partition locator and chainloader, verified.
//!
//! The library holds the whole decision pipeline of the chainloader as
//! verified code over plain values: compiling a textual partition
//! identifier into its binary form, filtering enumerated partitions for
//! the one whose identifier matches, synthesizing the device path that
//! addresses the boot file on that partition, and deciding the final
//! status from the firmware's load and start results. The firmware calls
//! themselves (enumeration, protocol access, image load and start) are
//! performed by the surrounding program, which feeds their outcomes to
//! this library as data.

pub mod devpath;
pub mod guid;
pub mod pipeline;
pub mod status;
