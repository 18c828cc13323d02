//! The error taxonomy of the server core.
//!
//! Every failing operation of the library reports one of these kinds; the
//! embedding program maps them onto transport responses.

use vstd::prelude::*;

verus! {

#[derive(Clone, Debug)]
pub enum Error {
    LoginFail,
    SessionDeleteFailIdNotFound { id: u64 },
    SessionNotFound { id: String },
    SessionExists,
    SessionFull,
    SessionNotOwned,
    SessionError { msg: String },
    WebRTCErr { source: String },
    PeerConnectionNotFound { peerid: String },
    LocalDescriptionMissing,
    StdIoError { source: String },
    FileTooLarge { size: u64, limit: u64 },
    InvalidURL { url: String },
    LiveStreamNotSupported { url: String },
    PlayListParseErr { msg: String },
    DBConnectionFail { source: String },
    AuthFailNoToken,
    AuthFailInvalidToken,
    AuthFailCtxNotFound,
    DBError { source: String },
    ContentNotFound { msg: String },
    DownloadFailed { url: String },
    ConversionFailed { url: String },
    DatabaseWriteError { msg: String },
    UploadFailed { msg: String },
    QueueError { msg: String },
    DuplicateContent { msg: String },
    S3DownloadError { msg: String },
    S3LoadFileError { msg: String },
    S3Error { msg: String },
    ResetFileError { msg: String },
    SSEError { msg: String },
    BroadcasterError { msg: String },
}

/// The error kinds that are reported to clients verbatim.
#[derive(Clone, Debug)]
pub enum ClientError {
    SessionExists,
}

} // verus!
