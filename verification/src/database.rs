//! The checks made before the package database is opened: who may open
//! it and what its file must look like.
//!
//! Reading the file system is left to the caller, who hands in what it
//! found; the database connection itself lives outside the library.
use vstd::prelude::*;

use crate::errors::DataBaseError;
use crate::text::{concat3, decimal_spec, decimal_text, str_eq};

verus! {

/// The state of the pool of database connections.
pub struct PoolInfo {
    /// Connections in the pool.
    pub size: u32,
    /// Connections not in use.
    pub idle_connections: usize,
    pub is_closed: bool,
}

/// The errors of opening the database under its first layout.
#[derive(Debug)]
pub enum DbError {
    PathNotAccessible(String),
    DatabaseExists(String),
    CannotCreateDirectory(std::io::Error),
    InvalidPermissions(String),
    PathIsFile(String),
    DatabaseCorrupted(String),
    IoError(std::io::Error),
}

pub open spec fn is_db_extension(extension: Option<&str>) -> bool {
    match extension {
        Some(e) => e@ == "db"@,
        None => false,
    }
}

fn db_extension(extension: Option<&str>) -> (r: bool)
    ensures
        r == is_db_extension(extension),
{
    match extension {
        Some(e) => str_eq(e, "db"),
        None => false,
    }
}

/// Only the superuser may open the database, and only in a directory that
/// exists (`path_display` names the directory in the error).
pub fn check_database_dir(uid: u32, dir_exists: bool, path_display: &str) -> (r: Result<(), DataBaseError>)
    ensures
        uid != 0 ==> (r matches Err(DataBaseError::InvalidPermissions(u)) && u == uid),
        uid == 0 && !dir_exists ==> (r matches Err(DataBaseError::PathNotAccessible(m)) && m@
            == path_display@),
        uid == 0 && dir_exists ==> r is Ok,
{
    if uid != 0 {
        return Err(DataBaseError::InvalidPermissions(uid));
    }
    if !dir_exists {
        return Err(DataBaseError::PathNotAccessible(path_display.to_owned()));
    }
    Ok(())
}

/// A database file is valid when it exists, has the extension `db`, and
/// its permission bits are exactly read and write for the owner (0o600);
/// `path_display` names the file in the error.
pub fn check_database_path_is_valid(
    path_display: &str,
    exists: bool,
    extension: Option<&str>,
    mode: u32,
) -> (r: Result<(), DataBaseError>)
    ensures
        !exists ==> (r matches Err(DataBaseError::PathNotAccessible(m)) && m@ == path_display@),
        exists && !is_db_extension(extension) ==> (r matches Err(
            DataBaseError::InvalidDatabaseExtension(m),
        ) && m@ == path_display@),
        exists && is_db_extension(extension) && (mode & 0o777u32) != 0o600u32 ==> (r matches Err(
            DataBaseError::IncorrectFilePermissions(m),
        ) && m@ == path_display@),
        r is Ok <==> exists && is_db_extension(extension) && (mode & 0o777u32) == 0o600u32,
        r is Ok ==> (extension matches Some(e) && e@ == "db"@),
        exists && extension is None ==> (r matches Err(DataBaseError::InvalidDatabaseExtension(m)) && m@
            == path_display@),
{
    if !exists {
        return Err(DataBaseError::PathNotAccessible(path_display.to_owned()));
    }
    if !db_extension(extension) {
        return Err(DataBaseError::InvalidDatabaseExtension(path_display.to_owned()));
    }
    if (mode & 0o777) != 0o600 {
        return Err(DataBaseError::IncorrectFilePermissions(path_display.to_owned()));
    }
    Ok(())
}

/// The check of a database file under the first layout: it must exist,
/// have the extension `db`, and be readable and writable by its owner (the
/// bits 0o600 set, others allowed).
pub fn check_database_valid(exists: bool, extension: Option<&str>, mode: u32) -> (r: Result<(), DbError>)
    ensures
        !exists ==> (r matches Err(DbError::PathNotAccessible(m)) && m@ == "Path doesn`t exists: \n"@),
        exists && !is_db_extension(extension) ==> (r matches Err(DbError::PathNotAccessible(m)) && m@
            == "Path incorrect!\n"@),
        exists && is_db_extension(extension) && (mode & 0o600u32) != 0o600u32 ==> (r matches Err(
            DbError::InvalidPermissions(m),
        ) && m@ == "Database acsses error!"@),
        r is Ok <==> exists && is_db_extension(extension) && (mode & 0o600u32) == 0o600u32,
        r is Ok ==> (extension matches Some(e) && e@ == "db"@),
        exists && extension is None ==> (r matches Err(DbError::PathNotAccessible(m)) && m@
            == "Path incorrect!\n"@),
{
    if !exists {
        return Err(DbError::PathNotAccessible("Path doesn`t exists: \n".to_owned()));
    }
    if !db_extension(extension) {
        return Err(DbError::PathNotAccessible("Path incorrect!\n".to_owned()));
    }
    if (mode & 0o600) != 0o600 {
        return Err(DbError::InvalidPermissions("Database acsses error!".to_owned()));
    }
    Ok(())
}

/// Creating a database under the first layout: only the superuser may, and
/// not over an existing database.
pub fn check_database_creation(uid: u32, database_name: &str, database_exists: bool) -> (r: Result<
    (),
    DbError,
>)
    ensures
        uid != 0 ==> (r matches Err(DbError::InvalidPermissions(m)) && m@
            == "Недостаточно прав. Текущий UID: "@ + decimal_spec(uid as nat)
            + ". Требуется root (UID 0)"@),
        uid == 0 && database_exists ==> (r matches Err(DbError::DatabaseExists(m)) && m@
            == "Database "@ + database_name@ + " aalready exists\n"@),
        r is Ok <==> uid == 0 && !database_exists,
{
    if uid != 0 {
        let number = decimal_text(uid as u64);
        return Err(
            DbError::InvalidPermissions(
                concat3("Недостаточно прав. Текущий UID: ", number.as_str(), ". Требуется root (UID 0)"),
            ),
        );
    }
    if database_exists {
        return Err(DbError::DatabaseExists(concat3("Database ", database_name, " aalready exists\n")));
    }
    Ok(())
}

/// A change that touched no row means the package was not there.
pub fn check_rows_affected(rows_affected: u64, package_name: &str) -> (r: Result<(), DataBaseError>)
    ensures
        rows_affected == 0 ==> (r matches Err(DataBaseError::PackageNotFound(m)) && m@
            == package_name@),
        rows_affected != 0 ==> r is Ok,
{
    if rows_affected == 0 {
        return Err(DataBaseError::PackageNotFound(package_name.to_owned()));
    }
    Ok(())
}

} // verus!
