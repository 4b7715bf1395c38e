//! Resolution of directory-service policies for a user or a device.
//!
//! Given a principal, the library finds out which policies of the directory
//! service apply to it and with what settings. It decides what to ask the
//! service and how to read each answer; sending the requests is left to the
//! caller.

pub mod assignment;
pub mod error;
pub mod pattern;
pub mod policy;
pub mod request;
pub mod resolver;
pub mod service;
pub mod setting;
pub mod text;
pub mod value;

pub use error::PolicyError;
pub use pattern::Pattern;
pub use policy::{AppliedPolicy, CompliancePolicy, ConfigurationPolicy, GroupPolicy, Policy};
pub use setting::{PolicySetting, Setting};
pub use value::{parse_input_value, PolicyType, PresentationValueList, ValueType};
