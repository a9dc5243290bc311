//! Packet-level reconnaissance core: a TCP segment codec with pseudo-header
//! checksums, a SYN-probe generator over hosts and ports, reply correlation,
//! and the wire encoding of scan reports and the device registration message.

pub mod addr;
pub mod checksum;
pub mod frame;
pub mod ports;
pub mod register;
pub mod report;
pub mod scan;
pub mod tcp;
pub mod wire;
