//! The calculators: one streaming engine on 64-bit words and several that
//! lean on wide integers.

pub mod bnum;
pub mod crypto;
pub mod ebpf_streaming;
pub mod fixed;
pub mod manual;
pub mod plain;
pub mod uint_impl;
