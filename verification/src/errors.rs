//! The error kinds of the library.
use vstd::prelude::*;

verus! {

/// The errors of package and transaction bookkeeping.
#[derive(Debug)]
pub enum Error {
    PackageNotFound(String),
    IoError(std::io::Error),
    ConfigError(String),
    OperationFailed(String),
    PackageFilesDamaged(String),
    TimeStampError(String),
    StepNotFound(String),
    AddStepError(String),
    UpdateStepError(String),
    PathError(std::path::PathBuf),
    LockError(String),
    TransactionError(String),
}

pub type Result<T> = std::result::Result<T, Error>;

/// The errors of the package database.
#[derive(Debug)]
pub enum DataBaseError {
    PathNotAccessible(String),
    DatabaseExists(String),
    CannotCreateDirectory(std::io::Error),
    InvalidPermissions(u32),
    PathIsFile(String),
    DatabaseCorrupted(String),
    IoError(std::io::Error),
    Sqlx(String),
    InvalidDatabaseExtension(String),
    IncorrectFilePermissions(String),
    PackageNotFound(String),
}

/// The errors of package operations.
#[derive(Debug)]
pub enum PackageError {
    OperationFailed(String),
    PackageNotFound(String),
    PackageAlreadyExists(String),
    ConfigError(String),
    IoError(String),
    PermissionError(String),
    FileNotFound(String),
}

} // verus!
