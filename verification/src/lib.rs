//! A registry that resolves shared values by type identity, optionally
//! narrowed by a specialization discriminant, with lazily realized and
//! memoized factories.

pub mod keys;
pub mod error;
mod assoc;
pub mod container;
pub mod model;
pub mod laws;

pub use crate::container::{Container, Factory};
pub use crate::model::{ContainerEntry, ContainerResult, ContainerView};
pub use crate::error::ContainerError;
pub use crate::keys::{KnownSpecializationKey, SpecializedEntryKey, TypeIdentity};
