//! RPLIDAR communication: request packets, response descriptors, payload
//! framing and the decoding of scan records and ultra capsules.

pub mod command;
pub mod packet;
pub mod parser;
pub mod rplidar;
