//! Single files of the store that are read and removed only where they are exactly as expected, and
//! the lease that serialises the mutations of an intent.

use vstd::prelude::*;

use crate::authority::MAX_MUTATION_AUTHORITY_BYTES;
use crate::bytes::same_bytes;
use crate::store_error::{EntryFault, IoFailure, ProjectionStoreError, StoreFault};

verus! {

/// What opening a file without following links gave.
#[derive(Debug, PartialEq, Eq)]
pub enum OpenedFile {
    Missing,
    Unopened(ProjectionStoreError),
    Opened(FileFacts),
}

/// What is known of an open file, and what reading it gave.
#[derive(Debug, PartialEq, Eq)]
pub struct FileFacts {
    pub is_file: bool,
    pub single_link: bool,
    pub reparse_point: bool,
    pub length: u64,
    pub bytes: Result<Vec<u8>, ProjectionStoreError>,
}

/// The bytes of a file, or why it is refused: it must be an ordinary file with one name, be no
/// longer than it may be, and have the length that is expected.
pub open spec fn bounded_read(
    name: String,
    file: OpenedFile,
    max_length: u64,
    expected_length: Option<u64>,
) -> Result<Option<Vec<u8>>, ProjectionStoreError> {
    match file {
        OpenedFile::Missing => Ok(None),
        OpenedFile::Unopened(error) => Err(error),
        OpenedFile::Opened(facts) => if !facts.is_file {
            Err(
                ProjectionStoreError::UnsafeEntry(
                    EntryFault::Named {
                        fault: "projection mutation authority is not a regular file",
                        name,
                    },
                ),
            )
        } else if !facts.single_link {
            Err(
                ProjectionStoreError::UnsafeEntry(
                    EntryFault::Named {
                        fault: "projection mutation authority has unexpected links",
                        name,
                    },
                ),
            )
        } else if facts.reparse_point {
            Err(
                ProjectionStoreError::UnsafeEntry(
                    EntryFault::Named {
                        fault: "projection mutation authority is a reparse point",
                        name,
                    },
                ),
            )
        } else if facts.length > max_length || (expected_length is Some && expected_length->0
            != facts.length) {
            Err(ProjectionStoreError::MutationAuthorityMismatch)
        } else {
            match facts.bytes {
                Err(error) => Err(error),
                Ok(bytes) => if bytes@.len() != facts.length {
                    Err(ProjectionStoreError::MutationAuthorityMismatch)
                } else {
                    Ok(Some(bytes))
                },
            }
        },
    }
}

/// Reads a file that has to be as expected.
pub fn read_optional_mutation_authority_bounded(
    name: &String,
    file: OpenedFile,
    max_length: u64,
    expected_length: Option<u64>,
) -> (read: Result<Option<Vec<u8>>, ProjectionStoreError>)
    ensures
        read == bounded_read(*name, file, max_length, expected_length),
{
    let facts = match file {
        OpenedFile::Missing => return Ok(None),
        OpenedFile::Unopened(error) => return Err(error),
        OpenedFile::Opened(facts) => facts,
    };
    if !facts.is_file {
        return Err(
            ProjectionStoreError::UnsafeEntry(
                EntryFault::Named {
                    fault: "projection mutation authority is not a regular file",
                    name: name.clone(),
                },
            ),
        );
    }
    if !facts.single_link {
        return Err(
            ProjectionStoreError::UnsafeEntry(
                EntryFault::Named {
                    fault: "projection mutation authority has unexpected links",
                    name: name.clone(),
                },
            ),
        );
    }
    if facts.reparse_point {
        return Err(
            ProjectionStoreError::UnsafeEntry(
                EntryFault::Named {
                    fault: "projection mutation authority is a reparse point",
                    name: name.clone(),
                },
            ),
        );
    }
    let unexpected = match expected_length {
        None => false,
        Some(expected) => expected != facts.length,
    };
    if facts.length > max_length || unexpected {
        return Err(ProjectionStoreError::MutationAuthorityMismatch);
    }
    match facts.bytes {
        Err(error) => Err(error),
        Ok(bytes) => if bytes.len() as u64 != facts.length {
            Err(ProjectionStoreError::MutationAuthorityMismatch)
        } else {
            Ok(Some(bytes))
        },
    }
}

/// Reads the record of an authority, which may be as long as authorities may be.
pub fn read_optional_mutation_authority(
    name: &String,
    file: OpenedFile,
    expected_length: Option<u64>,
) -> (read: Result<Option<Vec<u8>>, ProjectionStoreError>)
    ensures
        read == bounded_read(
            *name,
            file,
            MAX_MUTATION_AUTHORITY_BYTES as u64,
            expected_length,
        ),
{
    read_optional_mutation_authority_bounded(
        name,
        file,
        MAX_MUTATION_AUTHORITY_BYTES as u64,
        expected_length,
    )
}

/// Decides whether a file is to be removed: it is where it holds just the expected bytes. A file
/// that is gone already is no fault.
pub fn remove_mutation_authority_if_exact(
    read: Result<Option<Vec<u8>>, ProjectionStoreError>,
    expected: &[u8],
) -> (removes: Result<bool, ProjectionStoreError>)
    ensures
        removes == (match read {
            Err(error) => Err(error),
            Ok(None) => Ok(false),
            Ok(Some(bytes)) => if bytes@ != expected@ {
                Err(ProjectionStoreError::MutationAuthorityMismatch)
            } else {
                Ok(true)
            },
        }),
{
    match read {
        Err(error) => Err(error),
        Ok(None) => Ok(false),
        Ok(Some(bytes)) => if !same_bytes(bytes.as_slice(), expected) {
            Err(ProjectionStoreError::MutationAuthorityMismatch)
        } else {
            Ok(true)
        },
    }
}

/// Whether a file may be replaced, and if not, why: it must be there with just the expected bytes,
/// and what replaces it must not be too long.
pub open spec fn replaceable(
    read: Result<Option<Vec<u8>>, ProjectionStoreError>,
    expected: Seq<u8>,
    replacement: Seq<u8>,
) -> Result<(), ProjectionStoreError> {
    match read {
        Err(error) => Err(error),
        Ok(None) => Err(ProjectionStoreError::MutationAuthorityMismatch),
        Ok(Some(bytes)) => if bytes@ != expected || replacement.len()
            > MAX_MUTATION_AUTHORITY_BYTES {
            Err(ProjectionStoreError::MutationAuthorityMismatch)
        } else {
            Ok(())
        },
    }
}

/// Decides whether a file may be replaced.
pub fn require_replaceable(
    read: Result<Option<Vec<u8>>, ProjectionStoreError>,
    expected: &[u8],
    replacement: &[u8],
) -> (checked: Result<(), ProjectionStoreError>)
    ensures
        checked == replaceable(read, expected@, replacement@),
{
    match read {
        Err(error) => Err(error),
        Ok(None) => Err(ProjectionStoreError::MutationAuthorityMismatch),
        Ok(Some(bytes)) => if !same_bytes(bytes.as_slice(), expected) || replacement.len()
            > MAX_MUTATION_AUTHORITY_BYTES {
            Err(ProjectionStoreError::MutationAuthorityMismatch)
        } else {
            Ok(())
        },
    }
}

/// What taking the lease of an intent gave.
#[derive(Debug, PartialEq, Eq)]
pub enum LeaseAttempt {
    /// The lease's file could not be opened.
    Unopened(IoFailure),
    /// Another holds the lease.
    Contended,
    /// The lease may not be taken.
    PermissionDenied,
    /// The lease could not be taken.
    Failed(IoFailure),
    /// The lease is held; what its file is.
    Locked(LeaseFile),
}

/// What the file of a lease is.
#[derive(Clone, Copy, Debug, PartialEq, Eq, Structural)]
pub struct LeaseFile {
    pub is_file: bool,
    pub single_link: bool,
    pub reparse_point: bool,
}

/// Whether the lease is held, and if not, why: while another holds it, a mutation is pending.
pub open spec fn lease_check(name: String, attempt: LeaseAttempt) -> Result<
    (),
    ProjectionStoreError,
> {
    match attempt {
        LeaseAttempt::Unopened(failure) => Err(ProjectionStoreError::Io(failure)),
        LeaseAttempt::Contended => Err(ProjectionStoreError::MutationAuthorityPending),
        LeaseAttempt::PermissionDenied => Err(ProjectionStoreError::MutationAuthorityPending),
        LeaseAttempt::Failed(failure) => Err(ProjectionStoreError::Io(failure)),
        LeaseAttempt::Locked(file) => if !file.is_file {
            Err(
                ProjectionStoreError::UnsafeEntry(
                    EntryFault::Named {
                        fault: "projection mutation lease is not a regular file",
                        name,
                    },
                ),
            )
        } else if !file.single_link {
            Err(
                ProjectionStoreError::UnsafeEntry(
                    EntryFault::Named {
                        fault: "projection mutation lease has unexpected links",
                        name,
                    },
                ),
            )
        } else if file.reparse_point {
            Err(
                ProjectionStoreError::UnsafeEntry(
                    EntryFault::Named {
                        fault: "projection mutation lease is a reparse point",
                        name,
                    },
                ),
            )
        } else {
            Ok(())
        },
    }
}

/// Decides whether the lease of an intent is held.
pub fn acquire_mutation_lease(name: &String, attempt: LeaseAttempt) -> (held: Result<
    (),
    ProjectionStoreError,
>)
    ensures
        held == lease_check(*name, attempt),
{
    let file = match attempt {
        LeaseAttempt::Unopened(failure) => return Err(ProjectionStoreError::Io(failure)),
        LeaseAttempt::Contended => return Err(ProjectionStoreError::MutationAuthorityPending),
        LeaseAttempt::PermissionDenied => {
            return Err(ProjectionStoreError::MutationAuthorityPending);
        },
        LeaseAttempt::Failed(failure) => return Err(ProjectionStoreError::Io(failure)),
        LeaseAttempt::Locked(file) => file,
    };
    if !file.is_file {
        return Err(
            ProjectionStoreError::UnsafeEntry(
                EntryFault::Named {
                    fault: "projection mutation lease is not a regular file",
                    name: name.clone(),
                },
            ),
        );
    }
    if !file.single_link {
        return Err(
            ProjectionStoreError::UnsafeEntry(
                EntryFault::Named {
                    fault: "projection mutation lease has unexpected links",
                    name: name.clone(),
                },
            ),
        );
    }
    if file.reparse_point {
        return Err(
            ProjectionStoreError::UnsafeEntry(
                EntryFault::Named {
                    fault: "projection mutation lease is a reparse point",
                    name: name.clone(),
                },
            ),
        );
    }
    Ok(())
}

/// What opening a receipt's file gave.
#[derive(Debug, PartialEq, Eq)]
pub enum ReceiptFile {
    Missing,
    /// The name is not one ordinary component.
    NotOneComponent,
    Unopened(IoFailure),
    /// Whether it is a file, how long it is, and what reading no more than one byte above the limit
    /// gave.
    Opened { is_file: bool, length: u64, bytes: Result<Vec<u8>, IoFailure> },
}

/// The bytes of a receipt's file, or why it is refused: it must be a file, have the length that is
/// expected, be no longer than the limit, and not change while it is read.
pub open spec fn receipt_read(
    path: String,
    file: ReceiptFile,
    limit: u64,
    expected_length: Option<u64>,
) -> Result<Option<Vec<u8>>, StoreFault> {
    match file {
        ReceiptFile::Missing => Ok(None),
        ReceiptFile::NotOneComponent => Err(
            StoreFault::UnsafeEntry(
                EntryFault::Named {
                    fault: "private receipt filename is not one normal component",
                    name: path,
                },
            ),
        ),
        ReceiptFile::Unopened(failure) => Err(StoreFault::Io(failure)),
        ReceiptFile::Opened { is_file, length, bytes } => if !is_file {
            Err(
                StoreFault::UnsafeEntry(
                    EntryFault::Named {
                        fault: "private receipt path is not a regular file",
                        name: path,
                    },
                ),
            )
        } else if expected_length is Some && expected_length->0 != length {
            Err(
                StoreFault::StoredLengthMismatch {
                    path,
                    expected: expected_length->0,
                    actual: length,
                },
            )
        } else if length > limit {
            Err(StoreFault::StoredFileTooLarge { path, length, limit })
        } else {
            match bytes {
                Err(failure) => Err(StoreFault::Io(failure)),
                Ok(bytes) => if bytes@.len() > limit {
                    Err(
                        StoreFault::StoredFileTooLarge {
                            path,
                            length: bytes@.len() as u64,
                            limit,
                        },
                    )
                } else if bytes@.len() != length {
                    Err(
                        StoreFault::StoredLengthMismatch {
                            path,
                            expected: length,
                            actual: bytes@.len() as u64,
                        },
                    )
                } else {
                    Ok(Some(bytes))
                },
            }
        },
    }
}

/// Reads a receipt's file.
pub fn read_optional_regular(
    path: &String,
    file: ReceiptFile,
    limit: u64,
    expected_length: Option<u64>,
) -> (read: Result<Option<Vec<u8>>, StoreFault>)
    ensures
        read == receipt_read(*path, file, limit, expected_length),
{
    match file {
        ReceiptFile::Missing => Ok(None),
        ReceiptFile::NotOneComponent => Err(
            StoreFault::UnsafeEntry(
                EntryFault::Named {
                    fault: "private receipt filename is not one normal component",
                    name: path.clone(),
                },
            ),
        ),
        ReceiptFile::Unopened(failure) => Err(StoreFault::Io(failure)),
        ReceiptFile::Opened { is_file, length, bytes } => {
            if !is_file {
                return Err(
                    StoreFault::UnsafeEntry(
                        EntryFault::Named {
                            fault: "private receipt path is not a regular file",
                            name: path.clone(),
                        },
                    ),
                );
            }
            if let Some(expected) = expected_length {
                if expected != length {
                    return Err(
                        StoreFault::StoredLengthMismatch {
                            path: path.clone(),
                            expected,
                            actual: length,
                        },
                    );
                }
            }
            if length > limit {
                return Err(
                    StoreFault::StoredFileTooLarge { path: path.clone(), length, limit },
                );
            }
            let bytes = match bytes {
                Err(failure) => return Err(StoreFault::Io(failure)),
                Ok(bytes) => bytes,
            };
            let read: u64 = bytes.len() as u64;
            if read > limit {
                return Err(
                    StoreFault::StoredFileTooLarge { path: path.clone(), length: read, limit },
                );
            }
            if read != length {
                return Err(
                    StoreFault::StoredLengthMismatch {
                        path: path.clone(),
                        expected: length,
                        actual: read,
                    },
                );
            }
            Ok(Some(bytes))
        },
    }
}

} // verus!
