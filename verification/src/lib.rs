//! A verified model of an ARM SMMU v3: address spaces and their page tables, the translation
//! lookaside buffer, fault detection, validation, queueing, processing and recovery, and the
//! controller with its stream table, registers, queues and the completion of translations.

pub mod address_space;
pub mod cache;
pub mod fault;
pub mod smmu;
pub mod types;
