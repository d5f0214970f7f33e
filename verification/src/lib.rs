//! Signature verification of shreds and of consensus certificates.

pub mod bls_cert_sigverify;
pub mod bytes;
pub mod certificate;
pub mod counting;
pub mod deduper;
pub mod leaders;
pub mod packets;
pub mod pipeline;
pub mod receiver;
pub mod retransmitter;
pub mod seen_certs;
pub mod shreds;
pub mod stateless_cert_sigverify;
pub mod stats;
pub mod workers;
