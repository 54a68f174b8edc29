//! Error kinds shared by every component.

use vstd::prelude::*;

verus! {

/// The ways an operation of the engine can fail.
#[allow(non_camel_case_types)]
#[derive(Debug)]
pub enum Error {
    InternalError,
    NotImplemented,
    UnsupportedFeature,
    InvalidRpcCall,
    UndefinedTablespace,
    UndefinedDatabase,
    UndefinedTable,
    UndefinedColumn,
    UndefinedOperator,
    UndefinedDataType(String),
    /// No tablespace handler for a given URL
    UnsupportedTableSpace,
    NoLineDelimiter,
    /// Unsupported format in a specific tablespace
    UnsupportedTableFormat,
    /// Invoked function is not implemented yet
    Unimplemented,
    InvalidExpression,
    /// Duplicated function signature
    DuplicatedFuncSign,
    /// Duplicated type id
    DuplicatedTypeId,
}

impl Clone for Error {
    fn clone(&self) -> (e: Error)
        ensures
            e == *self,
    {
        match self {
            Error::InternalError => Error::InternalError,
            Error::NotImplemented => Error::NotImplemented,
            Error::UnsupportedFeature => Error::UnsupportedFeature,
            Error::InvalidRpcCall => Error::InvalidRpcCall,
            Error::UndefinedTablespace => Error::UndefinedTablespace,
            Error::UndefinedDatabase => Error::UndefinedDatabase,
            Error::UndefinedTable => Error::UndefinedTable,
            Error::UndefinedColumn => Error::UndefinedColumn,
            Error::UndefinedOperator => Error::UndefinedOperator,
            Error::UndefinedDataType(name) => Error::UndefinedDataType(name.clone()),
            Error::UnsupportedTableSpace => Error::UnsupportedTableSpace,
            Error::NoLineDelimiter => Error::NoLineDelimiter,
            Error::UnsupportedTableFormat => Error::UnsupportedTableFormat,
            Error::Unimplemented => Error::Unimplemented,
            Error::InvalidExpression => Error::InvalidExpression,
            Error::DuplicatedFuncSign => Error::DuplicatedFuncSign,
            Error::DuplicatedTypeId => Error::DuplicatedTypeId,
        }
    }
}

impl Error {
    /// Whether the error says that no data type is called `name`.
    pub open spec fn undefined_type(self, name: Seq<char>) -> bool {
        self is UndefinedDataType && self->UndefinedDataType_0@ == name
    }
}

/// Result of an operation that yields a value.
pub type TResult<T> = Result<T, Error>;

/// Result of an operation that yields nothing.
pub type Void = Result<(), Error>;

/// The successful `Void`.
#[inline]
pub fn void_ok() -> (r: Void)
    ensures
        r is Ok,
{
    Ok(())
}

} // verus!
