//! What can go wrong between the folder picker, the file system and the
//! pipeline.

use vstd::prelude::*;

verus! {

/// `std::io::ErrorKind`, carried through as the cause of a failed read.
#[verifier::external_type_specification]
#[verifier::external_body]
pub struct ExErrorKind(std::io::ErrorKind);

/// Why a folder selection, a directory listing or a file read gave nothing.
#[derive(Debug, Clone, Copy)]
pub enum Error {
    /// The folder picker was closed without a selection.
    DialogClosed,
    /// The file system refused a read.
    IoError(std::io::ErrorKind),
}

} // verus!
