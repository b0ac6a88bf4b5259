use imgup::errors::UploadError;

#[test]
fn only_malformed_uploads_are_client_errors() {
    assert_eq!(UploadError::MalformedUpload.status(), 400);
    assert_eq!(UploadError::StorageError.status(), 500);
    assert_eq!(UploadError::DecodeError.status(), 500);
    assert_eq!(UploadError::EncodeError.status(), 500);
    assert_eq!(UploadError::StreamError.status(), 500);
}

#[test]
fn every_kind_has_a_distinct_message() {
    let kinds = [
        UploadError::MalformedUpload,
        UploadError::StorageError,
        UploadError::DecodeError,
        UploadError::EncodeError,
        UploadError::StreamError,
    ];
    for (i, a) in kinds.iter().enumerate() {
        assert!(!a.message().is_empty());
        for b in kinds.iter().skip(i + 1) {
            assert_ne!(a.message(), b.message());
        }
    }
}
