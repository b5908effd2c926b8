use vstd::prelude::*;

verus! {

/// The error taxonomy of the transfer pipeline.
///
/// Precondition failures (`InvalidInput`, `OutputNotFound`,
/// `OutputNotADirectory`) are detected before any network traffic;
/// `ProtocolError` covers a truncated header or incomplete filename;
/// the remaining variants classify failures of the socket and of the
/// local filesystem that the surrounding program reports.
#[derive(Clone, Copy, Debug, PartialEq, Eq, Structural)]
pub enum TransferError {
    /// Outbound connection could not be established.
    ConnectionError,
    /// The listening socket could not be set up.
    BindError,
    /// The input path does not exist or does not name a regular file.
    InvalidInput,
    /// The output directory does not exist and creating it was not requested.
    OutputNotFound,
    /// The output path exists but is not a directory.
    OutputNotADirectory,
    /// The header or the filename ended before the announced number of bytes.
    ProtocolError,
    /// A local read or write failed mid-stream.
    IoError,
    /// The atomic rename of the received file into place failed.
    FinalizeError,
}

} // verus!
