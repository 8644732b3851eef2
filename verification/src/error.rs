//! What a resolution can fail with.

use vstd::prelude::*;

verus! {

/// The ways in which a resolution fails.
#[derive(Debug)]
pub enum ContainerError {
    /// No usable entry stands under the default key.
    MissingEntry,
    /// No usable entry stands under the specialized key.
    MissingSpecializedEntry,
    /// The factory under the key failed; `error` is what it failed with.
    FactoryError { error: Box<ContainerError> },
}

impl ContainerError {
    /// The name of the error kind.
    pub open spec fn spec_message(self) -> Seq<char> {
        match self {
            ContainerError::MissingEntry => "MissingEntry"@,
            ContainerError::MissingSpecializedEntry => "MissingSpecializedEntry"@,
            ContainerError::FactoryError { .. } => "FactoryError"@,
        }
    }

    /// The cause that the error wraps, if it wraps one.
    pub open spec fn spec_source(self) -> Option<ContainerError> {
        match self {
            ContainerError::MissingEntry => None,
            ContainerError::MissingSpecializedEntry => None,
            ContainerError::FactoryError { error } => Some(*error),
        }
    }

    /// The name of the error kind, as text.
    pub fn message(&self) -> (text: String)
        ensures
            text@ == self.spec_message(),
    {
        match self {
            ContainerError::MissingEntry => "MissingEntry".to_string(),
            ContainerError::MissingSpecializedEntry => "MissingSpecializedEntry".to_string(),
            ContainerError::FactoryError { .. } => "FactoryError".to_string(),
        }
    }

    /// The cause behind a factory failure; nothing for the other kinds.
    pub fn source(&self) -> (cause: Option<&ContainerError>)
        ensures
            match cause {
                Some(inner) => self.spec_source() == Some(*inner),
                None => self.spec_source().is_none(),
            },
    {
        match self {
            ContainerError::MissingEntry => None,
            ContainerError::MissingSpecializedEntry => None,
            ContainerError::FactoryError { error } => Some(&**error),
        }
    }

    /// The failure reported when a factory fails with `cause`.
    pub fn from_factory(cause: ContainerError) -> (err: Self)
        ensures
            err == (ContainerError::FactoryError { error: Box::new(cause) }),
    {
        ContainerError::FactoryError { error: Box::new(cause) }
    }
}

} // verus!
