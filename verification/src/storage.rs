//! Storage back ends: what a listing holds and the checks every back end
//! makes before touching the file system.

use vstd::prelude::*;
use crate::text::{append_str, is_blank, string_of, trim_seq};

verus! {

/// One item of a storage listing. Times are RFC 3339 text.
#[derive(Debug, Clone)]
pub struct StorageEntry {
    pub path: String,
    pub is_dir: bool,
    pub size: u64,
    pub created_at: Option<String>,
    pub modified_at: Option<String>,
}

/// Why a storage operation failed.
#[derive(Debug, Clone)]
pub enum StorageError {
    /// An I/O error, by its message.
    Io(String),
    InvalidPath(String),
    DeleteDisabled,
}

pub open spec fn storage_error_text(e: StorageError) -> Seq<char> {
    match e {
        StorageError::Io(m) => "io error: "@ + m@,
        StorageError::InvalidPath(p) => "invalid path: "@ + p@,
        StorageError::DeleteDisabled => "delete operation disabled"@,
    }
}

impl StorageError {
    /// The text of the error, as it is shown to users.
    pub fn message(&self) -> (r: String)
        ensures
            r@ == storage_error_text(*self),
    {
        match self {
            StorageError::Io(m) => {
                let mut r = string_of("io error: ");
                append_str(&mut r, m.as_str());
                r
            },
            StorageError::InvalidPath(p) => {
                let mut r = string_of("invalid path: ");
                append_str(&mut r, p.as_str());
                r
            },
            StorageError::DeleteDisabled => string_of("delete operation disabled"),
        }
    }
}

/// A place files are listed, read and hashed.
pub trait StorageAdapter {
    type Reader;

    fn list_entries(&self, root: &str) -> Result<Vec<StorageEntry>, StorageError>;

    fn stat(&self, path: &str) -> Result<StorageEntry, StorageError>;

    fn open_read(&self, path: &str) -> Result<Self::Reader, StorageError>;

    fn remove_file(&self, path: &str) -> Result<(), StorageError>;

    fn canonical_id(&self, path: &str) -> Result<String, StorageError>;

    fn sha256(&self, path: &str) -> Result<String, StorageError>;
}

/// The local file system as a storage back end.
#[derive(Debug, Clone, Copy)]
pub struct LocalFsAdapter {
    allow_delete: bool,
}

impl LocalFsAdapter {
    pub fn new(allow_delete: bool) -> (r: Self)
        ensures
            r.deletes_allowed() == allow_delete,
    {
        LocalFsAdapter { allow_delete }
    }

    pub closed spec fn deletes_allowed(self) -> bool {
        self.allow_delete
    }

    pub fn allow_delete(&self) -> (r: bool)
        ensures
            r == self.deletes_allowed(),
    {
        self.allow_delete
    }

    /// A path is usable unless it is blank.
    pub fn normalize_path(&self, path: &str) -> (r: Result<String, StorageError>)
        ensures
            trim_seq(path@).len() == 0 ==> (r matches Err(StorageError::InvalidPath(p)) && p@
                == path@),
            trim_seq(path@).len() > 0 ==> (r matches Ok(p) && p@ == path@),
    {
        if is_blank(path) {
            return Err(StorageError::InvalidPath(string_of(path)));
        }
        Ok(string_of(path))
    }

    /// Whether removing `path` may go ahead: deletes must be allowed and
    /// the path must not be blank.
    pub fn check_remove(&self, path: &str) -> (r: Result<String, StorageError>)
        ensures
            !self.deletes_allowed() ==> r matches Err(StorageError::DeleteDisabled),
            self.deletes_allowed() && trim_seq(path@).len() == 0 ==> (r matches Err(
                StorageError::InvalidPath(p),
            ) && p@ == path@),
            self.deletes_allowed() && trim_seq(path@).len() > 0 ==> (r matches Ok(p) && p@
                == path@),
    {
        if !self.allow_delete {
            return Err(StorageError::DeleteDisabled);
        }
        self.normalize_path(path)
    }
}

} // verus!
