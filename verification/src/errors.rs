//! Failure classes of the upload pipeline and their mapping to HTTP-style
//! status codes and messages.

use vstd::prelude::*;

verus! {

/// Everything that can go wrong while handling one upload request.
#[derive(Clone, Copy, Debug, PartialEq, Eq, Structural)]
pub enum UploadError {
    /// The multipart body was malformed, or a part lacked a usable filename.
    MalformedUpload,
    /// The storage root or a persisted file could not be written.
    StorageError,
    /// A persisted part was not a decodable raster image.
    DecodeError,
    /// The re-encoded image could not be produced or written back.
    EncodeError,
    /// The request stream broke before the body was fully read.
    StreamError,
}

impl UploadError {
    /// Client-input failures answer with a client-error status; all other
    /// kinds are server errors.
    pub open spec fn spec_status(self) -> u16 {
        if self == UploadError::MalformedUpload {
            400
        } else {
            500
        }
    }

    /// A malformed upload is the client's fault.
    pub open spec fn is_client_error(self) -> bool {
        self == UploadError::MalformedUpload
    }

    pub fn status(self) -> (r: u16)
        ensures
            r == self.spec_status(),
            r == 400 <==> self.is_client_error(),
            r == 400 || r == 500,
    {
        match self {
            UploadError::MalformedUpload => 400,
            _ => 500,
        }
    }

    /// The human-readable message sent with the failure response.
    pub open spec fn spec_message(self) -> Seq<char> {
        match self {
            UploadError::MalformedUpload => "malformed multipart upload: missing part filename"@,
            UploadError::StorageError => "failed to persist uploaded file"@,
            UploadError::DecodeError => "uploaded content is not a decodable image"@,
            UploadError::EncodeError => "failed to write back optimized image"@,
            UploadError::StreamError => "upload stream interrupted"@,
        }
    }

    pub fn message(self) -> (r: &'static str)
        ensures
            r@ == self.spec_message(),
    {
        match self {
            UploadError::MalformedUpload => "malformed multipart upload: missing part filename",
            UploadError::StorageError => "failed to persist uploaded file",
            UploadError::DecodeError => "uploaded content is not a decodable image",
            UploadError::EncodeError => "failed to write back optimized image",
            UploadError::StreamError => "upload stream interrupted",
        }
    }
}

} // verus!
