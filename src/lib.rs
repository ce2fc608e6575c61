//! Hand-crafted packet construction: per-protocol header encoders with an
//! auto/override policy for every field, internet checksums, symbolic
//! option encoding and Ethernet II framing, composed into one byte buffer.
pub mod text;
pub mod wire;
pub mod field;
pub mod checksum;
pub mod options;
pub mod address;
pub mod ipv4;
pub mod tcp;
pub mod udp;
pub mod icmp;
pub mod ethernet;
pub mod pipeline;
pub mod sequence;
pub mod laws;
