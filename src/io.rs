//! Bounds-checked access to byte buffers, and the errors of preparing a file buffer.

use vstd::prelude::*;

use std::path::PathBuf;

use crate::io_error_text;
use crate::render::{decimal, push_decimal};

verus! {

#[verifier::external_type_specification]
#[verifier::external_body]
pub struct ExPathBuf(std::path::PathBuf);

/// Largest file that is mapped for evaluation (1 GiB).
pub const MAX_FILE_SIZE: u64 = 1073741824;

/// Errors of file access and of buffer reads.
#[derive(Debug)]
pub enum IoError {
    /// The file could not be opened
    FileOpenError {
        /// The file
        path: PathBuf,
        /// What the operating system reported
        source: std::io::Error,
    },
    /// The file could not be mapped into memory
    MmapError {
        /// The file
        path: PathBuf,
        /// What the operating system reported
        source: std::io::Error,
    },
    /// The file holds no bytes
    EmptyFile {
        /// The file
        path: PathBuf,
    },
    /// The file is larger than the library accepts
    FileTooLarge {
        /// The file
        path: PathBuf,
        /// Its size in bytes
        size: u64,
        /// The largest accepted size in bytes
        max_size: u64,
    },
    /// The file's metadata could not be read
    MetadataError {
        /// The file
        path: PathBuf,
        /// What the operating system reported
        source: std::io::Error,
    },
    /// The requested bytes reach past the end of the buffer
    BufferOverrun {
        /// First byte asked for
        offset: usize,
        /// Number of bytes asked for
        length: usize,
        /// Length of the buffer
        buffer_size: usize,
    },
    /// The request itself is unusable (no bytes, or an end past the address range)
    InvalidAccess {
        /// First byte asked for
        offset: usize,
        /// Number of bytes asked for
        length: usize,
    },
    /// The path does not name a regular file
    InvalidFileType {
        /// The file
        path: PathBuf,
        /// What it is instead
        file_type: String,
    },
}

/// Relies on std's `Path::display`: a printable form of the path.
#[verifier::external_body]
fn path_text(p: &PathBuf) -> String {
    p.display().to_string()
}

/// The message of a buffer error (the variants about files also name the file).
pub open spec fn access_error_text(e: IoError) -> Seq<char> {
    match e {
        IoError::BufferOverrun { offset, length, buffer_size } => "Buffer access out of bounds: offset "@
            + decimal(offset as nat) + " + length "@ + decimal(length as nat)
            + " > buffer size "@ + decimal(buffer_size as nat),
        IoError::InvalidAccess { offset, length } => "Invalid buffer access parameters: offset "@
            + decimal(offset as nat) + ", length "@ + decimal(length as nat),
        _ => Seq::empty(),
    }
}

impl IoError {
    /// Human-readable description of the error.
    pub fn to_string(&self) -> (r: String)
        ensures
            (self is BufferOverrun || self is InvalidAccess) ==> r@ == access_error_text(*self),
    {
        match self {
            IoError::FileOpenError { path, source } => {
                let mut s = String::from_str("Failed to open file '");
                s.append(path_text(path).as_str());
                s.append("': ");
                s.append(io_error_text(source).as_str());
                s
            },
            IoError::MmapError { path, source } => {
                let mut s = String::from_str("Failed to memory-map file '");
                s.append(path_text(path).as_str());
                s.append("': ");
                s.append(io_error_text(source).as_str());
                s
            },
            IoError::EmptyFile { path } => {
                let mut s = String::from_str("File '");
                s.append(path_text(path).as_str());
                s.append("' is empty");
                s
            },
            IoError::FileTooLarge { path, size, max_size } => {
                let mut s = String::from_str("File '");
                s.append(path_text(path).as_str());
                s.append("' is too large (");
                push_decimal(&mut s, *size);
                s.append(" bytes, maximum ");
                push_decimal(&mut s, *max_size);
                s.append(" bytes)");
                s
            },
            IoError::MetadataError { path, source } => {
                let mut s = String::from_str("Failed to read metadata for file '");
                s.append(path_text(path).as_str());
                s.append("': ");
                s.append(io_error_text(source).as_str());
                s
            },
            IoError::BufferOverrun { offset, length, buffer_size } => {
                let mut s = String::from_str("Buffer access out of bounds: offset ");
                push_decimal(&mut s, *offset as u64);
                s.append(" + length ");
                push_decimal(&mut s, *length as u64);
                s.append(" > buffer size ");
                push_decimal(&mut s, *buffer_size as u64);
                s
            },
            IoError::InvalidAccess { offset, length } => {
                let mut s = String::from_str("Invalid buffer access parameters: offset ");
                push_decimal(&mut s, *offset as u64);
                s.append(", length ");
                push_decimal(&mut s, *length as u64);
                s
            },
            IoError::InvalidFileType { path, file_type } => {
                let mut s = String::from_str("File '");
                s.append(path_text(path).as_str());
                s.append("' is not a regular file (file type: ");
                s.append(file_type.as_str());
                s.append(")");
                s
            },
        }
    }
}

/// Why reading `length` bytes at `offset` from a buffer of `buffer_size` bytes is
/// refused, or `None` when every byte lies inside it.
pub open spec fn access_fault(buffer_size: usize, offset: usize, length: usize) -> Option<IoError> {
    if length == 0 {
        Some(IoError::InvalidAccess { offset, length })
    } else if offset >= buffer_size {
        Some(IoError::BufferOverrun { offset, length, buffer_size })
    } else if offset + length > usize::MAX {
        Some(IoError::InvalidAccess { offset, length })
    } else if offset + length > buffer_size {
        Some(IoError::BufferOverrun { offset, length, buffer_size })
    } else {
        None
    }
}

/// Checks that `length` bytes at `offset` lie inside a buffer of `buffer_size` bytes.
pub fn validate_buffer_access(buffer_size: usize, offset: usize, length: usize) -> (r: Result<
    (),
    IoError,
>)
    ensures
        match access_fault(buffer_size, offset, length) {
            None => r is Ok,
            Some(e) => r == Err::<(), IoError>(e),
        },
{
    if length == 0 {
        return Err(IoError::InvalidAccess { offset, length });
    }
    if offset >= buffer_size {
        return Err(IoError::BufferOverrun { offset, length, buffer_size });
    }
    let end_offset = match offset.checked_add(length) {
        Some(end) => end,
        None => {
            return Err(IoError::InvalidAccess { offset, length });
        },
    };
    if end_offset > buffer_size {
        return Err(IoError::BufferOverrun { offset, length, buffer_size });
    }
    Ok(())
}

/// The `length` bytes of `buffer` starting at `offset`.
pub fn safe_read_bytes(buffer: &[u8], offset: usize, length: usize) -> (r: Result<&[u8], IoError>)
    ensures
        match access_fault(buffer@.len() as usize, offset, length) {
            None => r matches Ok(s) && s@ == buffer@.subrange(
                offset as int,
                offset + length,
            ),
            Some(e) => r == Err::<&[u8], IoError>(e),
        },
{
    match validate_buffer_access(buffer.len(), offset, length) {
        Err(e) => Err(e),
        Ok(()) => Ok(vstd::slice::slice_subrange(buffer, offset, offset + length)),
    }
}

/// The byte of `buffer` at `offset`.
pub fn safe_read_byte(buffer: &[u8], offset: usize) -> (r: Result<u8, IoError>)
    ensures
        offset < buffer@.len() ==> r == Ok::<u8, IoError>(buffer@[offset as int]),
        offset >= buffer@.len() ==> r == Err::<u8, IoError>(
            IoError::BufferOverrun { offset, length: 1, buffer_size: buffer@.len() as usize },
        ),
{
    if offset < buffer.len() {
        Ok(buffer[offset])
    } else {
        Err(IoError::BufferOverrun { offset, length: 1, buffer_size: buffer.len() })
    }
}

/// Decides whether a regular file of `size` bytes can be evaluated: it must hold at
/// least one byte and at most [`MAX_FILE_SIZE`].
pub fn check_file_size(path: PathBuf, size: u64) -> (r: Result<(), IoError>)
    ensures
        size == 0 ==> r == Err::<(), IoError>(IoError::EmptyFile { path }),
        size > MAX_FILE_SIZE ==> r == Err::<(), IoError>(
            IoError::FileTooLarge { path, size, max_size: MAX_FILE_SIZE },
        ),
        0 < size <= MAX_FILE_SIZE ==> r is Ok,
{
    if size == 0 {
        return Err(IoError::EmptyFile { path });
    }
    if size > MAX_FILE_SIZE {
        return Err(IoError::FileTooLarge { path, size, max_size: MAX_FILE_SIZE });
    }
    Ok(())
}

} // verus!
