//! A control-point client for UPnP: device descriptions, service schemas and
//! action envelopes, parsed and built by verified code over an XML tree that
//! roxmltree reads.

pub mod device;
pub mod discovery;
pub mod error;
pub mod scpd;
pub mod service;
pub mod url;
pub mod xml;

pub use device::{DeviceDescription, ServiceDescriptor};
pub use discovery::{DiscoveryResult, Survey};
pub use error::Error;
pub use scpd::ServiceSchema;
pub use service::ActionResponse;
