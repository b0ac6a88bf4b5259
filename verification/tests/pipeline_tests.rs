use imgup::errors::UploadError;
use imgup::geometry::Bounds;
use imgup::imaging::probe_dimensions;
use imgup::pipeline::{stream_failure_response, Action, Event, Pipeline};

const BOUNDARY: &[u8] = b"bndry7";

fn default_bounds() -> Bounds {
    Bounds { max_width: 800, max_height: 600 }
}

fn part(filename: &str, data: &[u8]) -> Vec<u8> {
    let mut p = Vec::new();
    p.extend_from_slice(b"--bndry7\r\n");
    p.extend_from_slice(
        format!(
            "Content-Disposition: form-data; name=\"file\"; filename=\"{}\"\r\n\r\n",
            filename
        )
        .as_bytes(),
    );
    p.extend_from_slice(data);
    p.extend_from_slice(b"\r\n");
    p
}

fn close_body(mut parts: Vec<u8>) -> Vec<u8> {
    parts.extend_from_slice(b"--bndry7--\r\n");
    parts
}

fn body_of(parts: Vec<Vec<u8>>) -> Vec<u8> {
    let mut body = Vec::new();
    for p in parts {
        body.extend_from_slice(&p);
    }
    close_body(body)
}

fn png_bytes(w: u32, h: u32) -> Vec<u8> {
    let mut img = image::RgbImage::new(w, h);
    for (x, y, p) in img.enumerate_pixels_mut() {
        *p = image::Rgb([(x % 251) as u8, (y % 241) as u8, ((x + y) % 239) as u8]);
    }
    let mut cur = std::io::Cursor::new(Vec::new());
    image::DynamicImage::ImageRgb8(img)
        .write_to(&mut cur, image::ImageFormat::Png)
        .unwrap();
    cur.into_inner()
}

/// Drives one request, answering every write with `WriteOk`, and returns
/// the response with the writes the pipeline asked for.
fn run_request(body: Vec<u8>) -> (u16, String, Vec<(String, Vec<u8>)>) {
    let (mut pl, mut act) =
        Pipeline::start(b"./tmp".to_vec(), default_bounds(), &body, &BOUNDARY.to_vec());
    let mut writes = Vec::new();
    loop {
        match act {
            Action::WriteFile { path, data } => {
                writes.push((String::from_utf8(path).unwrap(), data));
                act = pl.step(Event::WriteOk);
            }
            Action::Respond { status, body } => return (status, body, writes),
        }
    }
}

#[test]
fn oversized_png_is_bounded_and_measured() {
    let png = png_bytes(1200, 900);
    let orig_len = png.len() as i64;
    let (status, resp, writes) = run_request(body_of(vec![part("a.png", &png)]));
    assert_eq!(status, 200);
    let v: serde_json::Value = serde_json::from_str(&resp).unwrap();
    assert_eq!(v[0]["file"].as_str().unwrap(), "a.png");
    assert_eq!(v[0]["original_size"].as_str().unwrap(), "1200x900");
    assert_eq!(v[0]["optimized_size"].as_str().unwrap(), "800x600");
    assert_eq!(v[0]["original_bytes"].as_i64().unwrap(), orig_len);
    let opt = v[0]["optimized_bytes"].as_i64().unwrap();
    assert_eq!(v[0]["bytes_saved"].as_i64().unwrap(), orig_len - opt);
    // the original bytes were persisted, then overwritten by the re-encode
    assert_eq!(writes.len(), 2);
    assert_eq!(writes[0].0, "./tmp/a.png");
    assert_eq!(writes[1].0, "./tmp/a.png");
    assert_eq!(writes[0].1.len() as i64, orig_len);
    assert_eq!(writes[1].1.len() as i64, opt);
    // the write-back really is a smaller 800x600 image
    let d = probe_dimensions(&writes[1].1).unwrap();
    assert_eq!((d.width, d.height), (800, 600));
}

#[test]
fn fitting_png_keeps_dimensions_but_still_reencodes() {
    let png = png_bytes(400, 300);
    let (status, resp, writes) = run_request(body_of(vec![part("b.png", &png)]));
    assert_eq!(status, 200);
    let v: serde_json::Value = serde_json::from_str(&resp).unwrap();
    assert_eq!(v[0]["original_size"].as_str().unwrap(), "400x300");
    assert_eq!(v[0]["optimized_size"].as_str().unwrap(), "400x300");
    // re-encoding happened: the file was written back a second time
    assert_eq!(writes.len(), 2);
}

#[test]
fn two_sequential_requests_report_each_file() {
    let (s1, r1, _) = run_request(body_of(vec![part("a.png", &png_bytes(1200, 900))]));
    let (s2, r2, _) = run_request(body_of(vec![part("b.png", &png_bytes(400, 300))]));
    assert_eq!((s1, s2), (200, 200));
    let v1: serde_json::Value = serde_json::from_str(&r1).unwrap();
    let v2: serde_json::Value = serde_json::from_str(&r2).unwrap();
    assert_eq!(v1[0]["optimized_size"].as_str().unwrap(), "800x600");
    assert_ne!(
        v1[0]["original_bytes"].as_i64().unwrap(),
        v1[0]["optimized_bytes"].as_i64().unwrap()
    );
    assert_eq!(v2[0]["optimized_size"].as_str().unwrap(), "400x300");
}

#[test]
fn two_parts_give_two_results_in_order() {
    let body = body_of(vec![
        part("x.png", &png_bytes(100, 50)),
        part("y.png", &png_bytes(30, 30)),
    ]);
    let (status, resp, writes) = run_request(body);
    assert_eq!(status, 200);
    let v: serde_json::Value = serde_json::from_str(&resp).unwrap();
    assert_eq!(v.as_array().unwrap().len(), 2);
    assert_eq!(v[0]["file"].as_str().unwrap(), "x.png");
    assert_eq!(v[1]["file"].as_str().unwrap(), "y.png");
    assert_eq!(writes.len(), 4);
}

#[test]
fn missing_filename_yields_client_error() {
    let mut raw = Vec::new();
    raw.extend_from_slice(b"--bndry7\r\n");
    raw.extend_from_slice(b"Content-Disposition: form-data; name=\"file\"\r\n\r\n");
    raw.extend_from_slice(&png_bytes(20, 20));
    raw.extend_from_slice(b"\r\n");
    let (status, resp, writes) = run_request(close_body(raw));
    assert_eq!(status, 400);
    assert!(!resp.starts_with('['));
    assert!(writes.is_empty());
}

#[test]
fn undecodable_part_yields_server_error_and_no_array() {
    // a valid image first, then garbage: the whole request fails
    let body = body_of(vec![
        part("ok.png", &png_bytes(40, 40)),
        part("junk.png", b"this is not an image"),
    ]);
    let (status, resp, _) = run_request(body);
    assert_eq!(status, 500);
    assert_eq!(resp, UploadError::DecodeError.message());
    assert!(!resp.starts_with('['));
}

#[test]
fn empty_body_yields_empty_array() {
    let (status, resp, writes) = run_request(close_body(Vec::new()));
    assert_eq!(status, 200);
    assert_eq!(resp, "[]");
    assert!(writes.is_empty());
}

#[test]
fn failed_persist_yields_storage_error() {
    let body = body_of(vec![part("a.png", &png_bytes(20, 20))]);
    let (mut pl, act) =
        Pipeline::start(b"./tmp".to_vec(), default_bounds(), &body, &BOUNDARY.to_vec());
    assert!(matches!(act, Action::WriteFile { .. }));
    match pl.step(Event::WriteFailed) {
        Action::Respond { status, body } => {
            assert_eq!(status, 500);
            assert_eq!(body, UploadError::StorageError.message());
        }
        _ => panic!("expected a response"),
    }
}

#[test]
fn failed_write_back_yields_encode_error() {
    let body = body_of(vec![part("a.png", &png_bytes(20, 20))]);
    let (mut pl, act) =
        Pipeline::start(b"./tmp".to_vec(), default_bounds(), &body, &BOUNDARY.to_vec());
    assert!(matches!(act, Action::WriteFile { .. }));
    let act2 = pl.step(Event::WriteOk);
    assert!(matches!(act2, Action::WriteFile { .. }));
    match pl.step(Event::WriteFailed) {
        Action::Respond { status, body } => {
            assert_eq!(status, 500);
            assert_eq!(body, UploadError::EncodeError.message());
        }
        _ => panic!("expected a response"),
    }
}

#[test]
fn unknown_extension_yields_encode_error() {
    let body = body_of(vec![part("picture.xyz", &png_bytes(20, 20))]);
    let (status, resp, _) = run_request(body);
    assert_eq!(status, 500);
    assert_eq!(resp, UploadError::EncodeError.message());
}

#[test]
fn stream_fault_is_a_server_abort() {
    let (status, msg) = stream_failure_response();
    assert_eq!(status, 500);
    assert_eq!(msg, UploadError::StreamError.message());
}
