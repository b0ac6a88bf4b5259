use imgup::errors::UploadError;
use imgup::geometry::Bounds;
use imgup::imaging::{format_for_filename, optimize_image, probe_dimensions, OutputFormat};

fn png_bytes(w: u32, h: u32) -> Vec<u8> {
    let mut img = image::RgbImage::new(w, h);
    for (x, y, p) in img.enumerate_pixels_mut() {
        *p = image::Rgb([(x % 200) as u8, (y % 150) as u8, 7]);
    }
    let mut cur = std::io::Cursor::new(Vec::new());
    image::DynamicImage::ImageRgb8(img)
        .write_to(&mut cur, image::ImageFormat::Png)
        .unwrap();
    cur.into_inner()
}

#[test]
fn probe_reports_pixel_dimensions() {
    let d = probe_dimensions(&png_bytes(123, 45)).unwrap();
    assert_eq!((d.width, d.height), (123, 45));
}

#[test]
fn probe_rejects_non_images() {
    let r = probe_dimensions(&b"definitely not an image".to_vec());
    assert_eq!(r.unwrap_err(), UploadError::DecodeError);
}

#[test]
fn optimize_downscales_and_reencodes() {
    let bounds = Bounds { max_width: 800, max_height: 600 };
    let (orig, opt, enc) =
        optimize_image(&png_bytes(1600, 600), &b"wide.png".to_vec(), bounds).unwrap();
    assert_eq!((orig.width, orig.height), (1600, 600));
    assert_eq!((opt.width, opt.height), (800, 300));
    let d = probe_dimensions(&enc).unwrap();
    assert_eq!((d.width, d.height), (800, 300));
}

#[test]
fn optimize_honors_the_extension_format() {
    let bounds = Bounds { max_width: 800, max_height: 600 };
    let (_, _, enc) =
        optimize_image(&png_bytes(50, 40), &b"photo.jpg".to_vec(), bounds).unwrap();
    // JPEG magic bytes: the write-back really switched encodings
    assert_eq!(&enc[0..2], &[0xff, 0xd8]);
}

#[test]
fn optimize_rejects_undecodable_content() {
    let bounds = Bounds { max_width: 800, max_height: 600 };
    let r = optimize_image(&b"garbage".to_vec(), &b"a.png".to_vec(), bounds);
    assert_eq!(r.unwrap_err(), UploadError::DecodeError);
}

#[test]
fn extension_picks_the_encoder_case_insensitively() {
    assert_eq!(format_for_filename(&b"a.PNG".to_vec()), Some(OutputFormat::Png));
    assert_eq!(format_for_filename(&b"a.apng".to_vec()), Some(OutputFormat::Png));
    assert_eq!(format_for_filename(&b"a.jpeg".to_vec()), Some(OutputFormat::Jpeg));
    assert_eq!(format_for_filename(&b"a.jfif".to_vec()), Some(OutputFormat::Jpeg));
    assert_eq!(format_for_filename(&b"shot.with.dots.gif".to_vec()), Some(OutputFormat::Gif));
    assert_eq!(format_for_filename(&b"a.webp".to_vec()), Some(OutputFormat::WebP));
    assert_eq!(format_for_filename(&b"a.bmp".to_vec()), Some(OutputFormat::Bmp));
    assert_eq!(format_for_filename(&b"a.tiff".to_vec()), Some(OutputFormat::Tiff));
    assert_eq!(format_for_filename(&b"a.ico".to_vec()), Some(OutputFormat::Ico));
    assert_eq!(format_for_filename(&b"a.tga".to_vec()), Some(OutputFormat::Tga));
    assert_eq!(format_for_filename(&b"a.qoi".to_vec()), Some(OutputFormat::Qoi));
    assert_eq!(format_for_filename(&b"a.ppm".to_vec()), Some(OutputFormat::Pnm));
    assert_eq!(format_for_filename(&b"a.hdr".to_vec()), Some(OutputFormat::Hdr));
    assert_eq!(format_for_filename(&b"a.EXR".to_vec()), Some(OutputFormat::OpenExr));
    assert_eq!(format_for_filename(&b"a.ff".to_vec()), Some(OutputFormat::Farbfeld));
    assert_eq!(format_for_filename(&b"a.avif".to_vec()), Some(OutputFormat::Avif));
    assert_eq!(format_for_filename(&b"a.dds".to_vec()), Some(OutputFormat::Dds));
    assert_eq!(format_for_filename(&b"noextension".to_vec()), None);
    assert_eq!(format_for_filename(&b"a.docx".to_vec()), None);
}

#[test]
fn jfif_reencodes_as_jpeg() {
    let bounds = Bounds { max_width: 800, max_height: 600 };
    let (_, _, enc) =
        optimize_image(&png_bytes(50, 40), &b"photo.jfif".to_vec(), bounds).unwrap();
    assert_eq!(&enc[0..2], &[0xff, 0xd8]);
}

#[test]
fn encoderless_format_fails_as_encode_error() {
    // dds is in the extension table but the crate ships no dds encoder
    let bounds = Bounds { max_width: 800, max_height: 600 };
    let r = optimize_image(&png_bytes(50, 40), &b"tex.dds".to_vec(), bounds);
    assert_eq!(r.unwrap_err(), UploadError::EncodeError);
}
