//! Names for USB identifiers.
//!
//! A registry of USB identifiers is a flat text file with two nested
//! hierarchies: vendors, their devices and the devices' interfaces; then
//! classes, their subclasses and the subclasses' protocols. This library
//! reads such a registry into a catalog keyed by vendor id and class id, and
//! answers lookups on it.
//!
//! - `lines`: the shape of one registry line.
//! - `entities`: vendors, devices, interfaces, classes, subclasses and
//!   protocols, with their models.
//! - `builder`: the state machine that reads lines into the two forests.
//! - `catalog`: the forests keyed by id, and the lookups.
//! - `laws`: what holds across the builder and the lookups.

pub mod builder;
pub mod catalog;
pub mod entities;
pub mod laws;
pub mod lines;

pub use builder::{parse_registry, BuildError};
pub use catalog::{Catalog, Classes, FromId, Vendors};
pub use entities::{Class, Device, Interface, Protocol, SubClass, Vendor};
pub use lines::{classify_line, LineKind};
