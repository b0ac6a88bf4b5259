use imgup::errors::UploadError;
use imgup::multipart::parse_multipart;

const BOUNDARY: &[u8] = b"XyZZy42";

fn one_part(filename: &str, data: &[u8]) -> Vec<u8> {
    let mut body = Vec::new();
    body.extend_from_slice(b"--XyZZy42\r\n");
    body.extend_from_slice(
        format!(
            "Content-Disposition: form-data; name=\"file\"; filename=\"{}\"\r\n\r\n",
            filename
        )
        .as_bytes(),
    );
    body.extend_from_slice(data);
    body.extend_from_slice(b"\r\n--XyZZy42--\r\n");
    body
}

#[test]
fn decodes_a_single_part() {
    let body = one_part("a.png", b"hello bytes");
    let parts = parse_multipart(&body, &BOUNDARY.to_vec()).unwrap();
    assert_eq!(parts.len(), 1);
    assert_eq!(parts[0].filename, b"a.png".to_vec());
    assert_eq!(parts[0].data, b"hello bytes".to_vec());
}

#[test]
fn decodes_two_parts_in_order() {
    let mut body = Vec::new();
    body.extend_from_slice(b"--XyZZy42\r\n");
    body.extend_from_slice(b"Content-Disposition: form-data; filename=\"first.png\"\r\n\r\n");
    body.extend_from_slice(b"AAAA");
    body.extend_from_slice(b"\r\n--XyZZy42\r\n");
    body.extend_from_slice(b"Content-Disposition: form-data; filename=\"second.jpg\"\r\n\r\n");
    body.extend_from_slice(b"BB");
    body.extend_from_slice(b"\r\n--XyZZy42--\r\n");
    let parts = parse_multipart(&body, &BOUNDARY.to_vec()).unwrap();
    assert_eq!(parts.len(), 2);
    assert_eq!(parts[0].filename, b"first.png".to_vec());
    assert_eq!(parts[0].data, b"AAAA".to_vec());
    assert_eq!(parts[1].filename, b"second.jpg".to_vec());
    assert_eq!(parts[1].data, b"BB".to_vec());
}

#[test]
fn empty_body_has_no_parts() {
    let body = b"--XyZZy42--\r\n".to_vec();
    let parts = parse_multipart(&body, &BOUNDARY.to_vec()).unwrap();
    assert_eq!(parts.len(), 0);
}

#[test]
fn missing_filename_is_malformed() {
    let mut body = Vec::new();
    body.extend_from_slice(b"--XyZZy42\r\n");
    body.extend_from_slice(b"Content-Disposition: form-data; name=\"file\"\r\n\r\n");
    body.extend_from_slice(b"data");
    body.extend_from_slice(b"\r\n--XyZZy42--\r\n");
    let r = parse_multipart(&body, &BOUNDARY.to_vec());
    assert_eq!(r.unwrap_err(), UploadError::MalformedUpload);
}

#[test]
fn missing_filename_rejects_whole_request_despite_good_parts() {
    let mut body = Vec::new();
    body.extend_from_slice(b"--XyZZy42\r\n");
    body.extend_from_slice(b"Content-Disposition: form-data; filename=\"good.png\"\r\n\r\n");
    body.extend_from_slice(b"ok");
    body.extend_from_slice(b"\r\n--XyZZy42\r\n");
    body.extend_from_slice(b"Content-Disposition: form-data; name=\"x\"\r\n\r\n");
    body.extend_from_slice(b"bad");
    body.extend_from_slice(b"\r\n--XyZZy42--\r\n");
    let r = parse_multipart(&body, &BOUNDARY.to_vec());
    assert_eq!(r.unwrap_err(), UploadError::MalformedUpload);
}

#[test]
fn empty_filename_is_malformed() {
    let body = one_part("", b"data");
    let r = parse_multipart(&body, &BOUNDARY.to_vec());
    assert_eq!(r.unwrap_err(), UploadError::MalformedUpload);
}

#[test]
fn body_without_opening_boundary_is_malformed() {
    let body = b"random bytes".to_vec();
    let r = parse_multipart(&body, &BOUNDARY.to_vec());
    assert_eq!(r.unwrap_err(), UploadError::MalformedUpload);
}

#[test]
fn truncated_part_is_malformed() {
    let mut body = Vec::new();
    body.extend_from_slice(b"--XyZZy42\r\n");
    body.extend_from_slice(b"Content-Disposition: form-data; filename=\"a.png\"\r\n\r\n");
    body.extend_from_slice(b"data with no closing boundary");
    let r = parse_multipart(&body, &BOUNDARY.to_vec());
    assert_eq!(r.unwrap_err(), UploadError::MalformedUpload);
}

#[test]
fn payload_may_contain_binary_bytes() {
    let data: Vec<u8> = (0u8..=255u8).collect();
    let body = one_part("bin.dat", &data);
    let parts = parse_multipart(&body, &BOUNDARY.to_vec()).unwrap();
    assert_eq!(parts[0].data, data);
}
