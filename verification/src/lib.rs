//! Firmware maintenance for slotted controller modules: the boot frame codec,
//! the S-Record reader, the pipelined upload engine and the update policy,
//! each with a machine-checked contract.

pub mod command;
pub mod frame;
pub mod inventory;
pub mod platform;
pub mod policy;
pub mod session;
pub mod srec;
pub mod text;
pub mod transport;
pub mod upload;
pub mod version;
