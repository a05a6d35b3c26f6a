//! The inbound verification contract: bounded raw requests, the closed route specification
//! registry, canonical proof wires and replay protection.
pub mod binding;
pub mod bytes;
pub mod canonical;
pub mod claims;
pub mod decode;
pub mod digest;
pub mod entry;
pub mod error;
pub mod ids;
pub mod limits;
pub mod mac;
pub mod operation;
pub mod replay;
pub mod request;
pub mod signed;
pub mod verified;
pub mod gates;
