//! Storage errors, file metadata and the bookkeeping of the local backend.
use vstd::prelude::*;
use crate::text::decimal;

pub mod local;
pub mod memory;
pub mod uploads;

verus! {

/// An I/O failure reported by the operating system (`std::io::Error`).
#[verifier::external_type_specification]
#[verifier::external_body]
pub struct ExIoError(std::io::Error);

/// Why a storage operation failed.
#[derive(Debug)]
pub enum StorageError {
    /// No (finalized) file has this ID.
    NotFound(String),
    /// The file system failed.
    Io(std::io::Error),
    /// The upload would grow past the size limit.
    TooLarge { size: u64, limit: u64 },
    /// The file name is empty or leaves the storage directory.
    InvalidFileName(String),
}

impl StorageError {
    /// The message of this error, for every kind but `Io`, whose text is the
    /// operating system's.
    pub open spec fn message_spec(&self) -> Seq<char>
        recommends
            !(self is Io),
    {
        match self {
            StorageError::NotFound(id) => "file not found: "@ + id@,
            StorageError::TooLarge { size, limit } => "file too large: "@ + decimal(*size as nat)
                + " exceeds limit "@ + decimal(*limit as nat),
            StorageError::InvalidFileName(reason) => "invalid file name: "@ + reason@,
            StorageError::Io(_) => Seq::empty(),
        }
    }

    /// The message of this error.
    pub fn to_string(&self) -> (s: String)
        ensures
            !(self is Io) ==> s@ == self.message_spec(),
            match self {
                StorageError::Io(e) => exists|detail: String|
                    vstd::string::to_string_from_display_ensures::<std::io::Error>(e, detail)
                        && s@ == "io error: "@ + detail@,
                _ => true,
            },
    {
        match self {
            StorageError::NotFound(id) => {
                let mut s = String::from_str("file not found: ");
                s.append(id.as_str());
                s
            },
            StorageError::TooLarge { size, limit } => {
                let mut s = String::from_str("file too large: ");
                crate::text::push_decimal(&mut s, *size);
                s.append(" exceeds limit ");
                crate::text::push_decimal(&mut s, *limit);
                s
            },
            StorageError::InvalidFileName(reason) => {
                let mut s = String::from_str("invalid file name: ");
                s.append(reason.as_str());
                s
            },
            StorageError::Io(e) => {
                let mut s = String::from_str("io error: ");
                let detail = e.to_string();
                s.append(detail.as_str());
                s
            },
        }
    }
}

/// Metadata of a completed upload.
#[derive(Debug, Clone)]
pub struct FileMetadata {
    pub file_id: String,
    pub file_name: String,
    pub content_type: String,
    pub size_bytes: u64,
    pub sha256_checksum: String,
    pub uploaded_at: String,
}

} // verus!
