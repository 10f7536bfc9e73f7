//! GNSS signal acquisition for the TART radio telescope: the verified core.
//!
//! This crate holds the integer logic of the acquisition pipeline: spreading
//! code generation for GPS L1 C/A, SBAS, QZSS, GPS L1C, BeiDou B1C and
//! Galileo E1-C, the packed one-bit sample format and observation layout,
//! the simulator's PRNG, the ACR lookup table, the antenna test's reference
//! set and ranking, and the command line (flags, mode rules and numbers).

pub mod acquisition;
pub mod acr;
pub mod antenna_test;
pub mod beidou_codes;
pub mod chips;
pub mod cli;
pub mod correlate;
pub mod decimal;
pub mod galileo;
pub mod l1c_codes;
pub mod legendre;
pub mod observation;
pub mod qzss;
pub mod sbas;
pub mod simulator;
