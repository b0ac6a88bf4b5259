//! Image probing and bounded re-encoding.
//!
//! Decoding and re-encoding are done by the `image` crate.  Both are
//! functions of their byte arguments alone, so their results are named by
//! uninterpreted spec functions that the trusted wrappers apply; the choice
//! of target size and output format, and all sequencing around the calls,
//! are verified against those names.

use crate::errors::UploadError;
use crate::geometry::{bounded_dimensions, target_height, target_width, Bounds, Dimensions};
use vstd::prelude::*;

verus! {

#[verifier::external_type_specification]
#[verifier::external_body]
pub struct ExImageFormat(image::ImageFormat);

/// The encodings the optimizer can write back, one per extension the
/// crate's own save path recognizes.
#[derive(Clone, Copy, Debug, PartialEq, Eq, Structural)]
pub enum OutputFormat {
    Avif,
    Jpeg,
    Png,
    Gif,
    WebP,
    Tiff,
    Tga,
    Dds,
    Bmp,
    Ico,
    Hdr,
    OpenExr,
    Pnm,
    Farbfeld,
    Qoi,
}

/// A distinct code for each output format, so format-dependent named
/// results range over plain values.
pub open spec fn format_code(f: OutputFormat) -> int {
    match f {
        OutputFormat::Avif => 0,
        OutputFormat::Jpeg => 1,
        OutputFormat::Png => 2,
        OutputFormat::Gif => 3,
        OutputFormat::WebP => 4,
        OutputFormat::Tiff => 5,
        OutputFormat::Tga => 6,
        OutputFormat::Dds => 7,
        OutputFormat::Bmp => 8,
        OutputFormat::Ico => 9,
        OutputFormat::Hdr => 10,
        OutputFormat::OpenExr => 11,
        OutputFormat::Pnm => 12,
        OutputFormat::Farbfeld => 13,
        OutputFormat::Qoi => 14,
    }
}

/// The pixel dimensions a byte buffer decodes to, or `None` when no
/// decoder accepts it.  Decoding is a function of the bytes alone.
pub uninterp spec fn spec_decode_dims(data: Seq<u8>) -> Option<(u32, u32)>;

/// The bytes produced by decoding `data`, resampling to `w` by `h` with
/// the Lanczos3 filter, and encoding in the format with code `format`; or
/// `None` when the decode or the encode fails.  The result is a function
/// of these arguments alone.
pub uninterp spec fn spec_reencode(data: Seq<u8>, w: u32, h: u32, format: int) -> Option<Seq<u8>>;

/// Relies on `image::load_from_memory` and `GenericImageView::dimensions`:
/// decodes an in-memory buffer and measures it, succeeding exactly when the
/// bytes are a supported raster image.
#[verifier::external_body]
fn decode_dims(data: &Vec<u8>) -> (r: Option<(u32, u32)>)
    ensures
        r == spec_decode_dims(data@),
{
    match image::load_from_memory(data.as_slice()) {
        Ok(img) => Some(image::GenericImageView::dimensions(&img)),
        Err(_) => None,
    }
}

/// Relies on the variants of `image::ImageFormat`: maps each supported
/// output format to the crate's own format value, one for one.
#[verifier::external_body]
fn raw_format(format: OutputFormat) -> (r: image::ImageFormat) {
    match format {
        OutputFormat::Avif => image::ImageFormat::Avif, OutputFormat::Jpeg => image::ImageFormat::Jpeg,
        OutputFormat::Png => image::ImageFormat::Png, OutputFormat::Gif => image::ImageFormat::Gif,
        OutputFormat::WebP => image::ImageFormat::WebP, OutputFormat::Tiff => image::ImageFormat::Tiff,
        OutputFormat::Tga => image::ImageFormat::Tga, OutputFormat::Dds => image::ImageFormat::Dds,
        OutputFormat::Bmp => image::ImageFormat::Bmp, OutputFormat::Ico => image::ImageFormat::Ico,
        OutputFormat::Hdr => image::ImageFormat::Hdr, OutputFormat::OpenExr => image::ImageFormat::OpenExr,
        OutputFormat::Pnm => image::ImageFormat::Pnm, OutputFormat::Qoi => image::ImageFormat::Qoi,
        OutputFormat::Farbfeld => image::ImageFormat::Farbfeld,
    }
}

/// Relies on `image::load_from_memory`, `DynamicImage::resize_exact` with
/// the Lanczos3 filter, and `DynamicImage::write_to`: decodes the buffer,
/// resamples it to exactly `w` by `h`, and encodes the result into a fresh
/// buffer.  A successful encode is an ordinary Rust allocation, so its
/// length stays below the signed 64-bit limit; a buffer that does not
/// decode yields `None` before anything is resampled or encoded.
#[verifier::external_body]
fn reencode_image(data: &Vec<u8>, w: u32, h: u32, format: OutputFormat) -> (r: Option<Vec<u8>>)
    ensures
        r is Some <==> spec_reencode(data@, w, h, format_code(format)) is Some,
        r matches Some(v) ==> v@ == spec_reencode(data@, w, h, format_code(format)).unwrap()
            && v@.len() < 0x8000_0000_0000_0000,
        spec_decode_dims(data@) is None ==> r is None,
{
    let img = match image::load_from_memory(data.as_slice()) {
        Ok(i) => i,
        Err(_) => return None,
    };
    let resized = img.resize_exact(w, h, image::imageops::FilterType::Lanczos3);
    let mut cursor = std::io::Cursor::new(Vec::new());
    match resized.write_to(&mut cursor, raw_format(format)) {
        Ok(()) => Some(cursor.into_inner()),
        Err(_) => None,
    }
}

/// The index of the last `.` in `s`, if any.
pub open spec fn last_dot(s: Seq<u8>) -> Option<int>
    decreases s.len(),
{
    if s.len() == 0 {
        None
    } else if s[s.len() - 1] == 46u8 {
        Some(s.len() - 1)
    } else {
        last_dot(s.drop_last())
    }
}

/// ASCII upper-case letters folded to lower case.
pub open spec fn lower(s: Seq<u8>) -> Seq<u8> {
    s.map_values(
        |b: u8|
            if 65 <= b <= 90 {
                (b + 32) as u8
            } else {
                b
            },
    )
}

/// The lower-cased extension of a filename: the bytes after its last dot.
pub open spec fn spec_ext(name: Seq<u8>) -> Option<Seq<u8>> {
    match last_dot(name) {
        None => None,
        Some(d) => Some(lower(name.subrange(d + 1, name.len() as int))),
    }
}

/// The output format a filename's extension selects — the extension table
/// of the crate's own save-by-path — or `None` for an extension it does
/// not know.
pub open spec fn spec_format_for(name: Seq<u8>) -> Option<OutputFormat> {
    match spec_ext(name) {
        None => None,
        Some(e) => {
            if e == seq![97u8, 118u8, 105u8, 102u8] {  // avif
                Some(OutputFormat::Avif)
            } else if e == seq![106u8, 112u8, 103u8] || e == seq![106u8, 112u8, 101u8, 103u8]
                || e == seq![106u8, 102u8, 105u8, 102u8] {  // jpg jpeg jfif
                Some(OutputFormat::Jpeg)
            } else if e == seq![112u8, 110u8, 103u8] || e == seq![97u8, 112u8, 110u8, 103u8] {  // png apng
                Some(OutputFormat::Png)
            } else if e == seq![103u8, 105u8, 102u8] {  // gif
                Some(OutputFormat::Gif)
            } else if e == seq![119u8, 101u8, 98u8, 112u8] {  // webp
                Some(OutputFormat::WebP)
            } else if e == seq![116u8, 105u8, 102u8] || e == seq![116u8, 105u8, 102u8, 102u8] {  // tif tiff
                Some(OutputFormat::Tiff)
            } else if e == seq![116u8, 103u8, 97u8] {  // tga
                Some(OutputFormat::Tga)
            } else if e == seq![100u8, 100u8, 115u8] {  // dds
                Some(OutputFormat::Dds)
            } else if e == seq![98u8, 109u8, 112u8] {  // bmp
                Some(OutputFormat::Bmp)
            } else if e == seq![105u8, 99u8, 111u8] {  // ico
                Some(OutputFormat::Ico)
            } else if e == seq![104u8, 100u8, 114u8] {  // hdr
                Some(OutputFormat::Hdr)
            } else if e == seq![101u8, 120u8, 114u8] {  // exr
                Some(OutputFormat::OpenExr)
            } else if e == seq![112u8, 98u8, 109u8] || e == seq![112u8, 97u8, 109u8]
                || e == seq![112u8, 112u8, 109u8] || e == seq![112u8, 103u8, 109u8]
                || e == seq![112u8, 110u8, 109u8] {  // pbm pam ppm pgm pnm
                Some(OutputFormat::Pnm)
            } else if e == seq![102u8, 102u8] {  // ff
                Some(OutputFormat::Farbfeld)
            } else if e == seq![113u8, 111u8, 105u8] {  // qoi
                Some(OutputFormat::Qoi)
            } else {
                None
            }
        },
    }
}

fn find_last_dot(name: &Vec<u8>) -> (r: Option<usize>)
    ensures
        match r {
            Some(d) => last_dot(name@) == Some(d as int) && d < name@.len(),
            None => last_dot(name@) is None,
        },
{
    proof {
        assert(name@.take(name@.len() as int) =~= name@);
    }
    let mut k: usize = name.len();
    while k > 0
        invariant
            k <= name.len(),
            last_dot(name@) == last_dot(name@.take(k as int)),
        decreases k,
    {
        if name[k - 1] == 46 {
            proof {
                let t = name@.take(k as int);
                assert(t.len() == k && t[k - 1] == 46u8);
                assert(last_dot(t) == Some(k - 1 as int));
            }
            return Some(k - 1);
        }
        proof {
            let t = name@.take(k as int);
            assert(t.len() == k && t[k - 1] != 46u8);
            assert(t.drop_last() =~= name@.take(k - 1 as int));
            assert(last_dot(t) == last_dot(name@.take(k - 1 as int)));
        }
        k = k - 1;
    }
    proof {
        assert(name@.take(0) =~= Seq::<u8>::empty());
    }
    None
}

fn bytes_eq(a: &Vec<u8>, b: &Vec<u8>) -> (r: bool)
    ensures
        r == (a@ == b@),
{
    if a.len() != b.len() {
        return false;
    }
    let mut i: usize = 0;
    while i < a.len()
        invariant
            i <= a.len(),
            a@.len() == b@.len(),
            forall|k: int| 0 <= k < i ==> a@[k] == b@[k],
        decreases a.len() - i,
    {
        if a[i] != b[i] {
            return false;
        }
        i = i + 1;
    }
    proof {
        assert(a@ =~= b@);
    }
    true
}

/// Picks the output format a filename's extension selects.
pub fn format_for_filename(name: &Vec<u8>) -> (r: Option<OutputFormat>)
    ensures
        r == spec_format_for(name@),
{
    match find_last_dot(name) {
        None => None,
        Some(d) => {
            let nlen: usize = name.len();
            proof {
                assert(d + 1 <= nlen);
            }
            let mut ext: Vec<u8> = Vec::new();
            let mut i: usize = d + 1;
            while i < name.len()
                invariant
                    d + 1 <= i <= name.len(),
                    ext@ == lower(name@.subrange(d + 1 as int, i as int)),
                decreases name.len() - i,
            {
                let b = name[i];
                let lowered: u8 = if b >= 65 && b <= 90 {
                    b + 32
                } else {
                    b
                };
                ext.push(lowered);
                proof {
                    assert(name@.subrange(d + 1 as int, i + 1 as int) =~= name@.subrange(
                        d + 1 as int,
                        i as int,
                    ).push(name@[i as int]));
                }
                i = i + 1;
            }
            let c_avif: Vec<u8> = vec![97u8, 118u8, 105u8, 102u8];
            let c_jpg: Vec<u8> = vec![106u8, 112u8, 103u8];
            let c_jpeg: Vec<u8> = vec![106u8, 112u8, 101u8, 103u8];
            let c_jfif: Vec<u8> = vec![106u8, 102u8, 105u8, 102u8];
            let c_png: Vec<u8> = vec![112u8, 110u8, 103u8];
            let c_apng: Vec<u8> = vec![97u8, 112u8, 110u8, 103u8];
            let c_gif: Vec<u8> = vec![103u8, 105u8, 102u8];
            let c_webp: Vec<u8> = vec![119u8, 101u8, 98u8, 112u8];
            let c_tif: Vec<u8> = vec![116u8, 105u8, 102u8];
            let c_tiff: Vec<u8> = vec![116u8, 105u8, 102u8, 102u8];
            let c_tga: Vec<u8> = vec![116u8, 103u8, 97u8];
            let c_dds: Vec<u8> = vec![100u8, 100u8, 115u8];
            let c_bmp: Vec<u8> = vec![98u8, 109u8, 112u8];
            let c_ico: Vec<u8> = vec![105u8, 99u8, 111u8];
            let c_hdr: Vec<u8> = vec![104u8, 100u8, 114u8];
            let c_exr: Vec<u8> = vec![101u8, 120u8, 114u8];
            let c_pbm: Vec<u8> = vec![112u8, 98u8, 109u8];
            let c_pam: Vec<u8> = vec![112u8, 97u8, 109u8];
            let c_ppm: Vec<u8> = vec![112u8, 112u8, 109u8];
            let c_pgm: Vec<u8> = vec![112u8, 103u8, 109u8];
            let c_pnm: Vec<u8> = vec![112u8, 110u8, 109u8];
            let c_ff: Vec<u8> = vec![102u8, 102u8];
            let c_qoi: Vec<u8> = vec![113u8, 111u8, 105u8];
            if bytes_eq(&ext, &c_avif) {
                Some(OutputFormat::Avif)
            } else if bytes_eq(&ext, &c_jpg) || bytes_eq(&ext, &c_jpeg) || bytes_eq(
                &ext,
                &c_jfif,
            ) {
                Some(OutputFormat::Jpeg)
            } else if bytes_eq(&ext, &c_png) || bytes_eq(&ext, &c_apng) {
                Some(OutputFormat::Png)
            } else if bytes_eq(&ext, &c_gif) {
                Some(OutputFormat::Gif)
            } else if bytes_eq(&ext, &c_webp) {
                Some(OutputFormat::WebP)
            } else if bytes_eq(&ext, &c_tif) || bytes_eq(&ext, &c_tiff) {
                Some(OutputFormat::Tiff)
            } else if bytes_eq(&ext, &c_tga) {
                Some(OutputFormat::Tga)
            } else if bytes_eq(&ext, &c_dds) {
                Some(OutputFormat::Dds)
            } else if bytes_eq(&ext, &c_bmp) {
                Some(OutputFormat::Bmp)
            } else if bytes_eq(&ext, &c_ico) {
                Some(OutputFormat::Ico)
            } else if bytes_eq(&ext, &c_hdr) {
                Some(OutputFormat::Hdr)
            } else if bytes_eq(&ext, &c_exr) {
                Some(OutputFormat::OpenExr)
            } else if bytes_eq(&ext, &c_pbm) || bytes_eq(&ext, &c_pam) || bytes_eq(&ext, &c_ppm)
                || bytes_eq(&ext, &c_pgm) || bytes_eq(&ext, &c_pnm) {
                Some(OutputFormat::Pnm)
            } else if bytes_eq(&ext, &c_ff) {
                Some(OutputFormat::Farbfeld)
            } else if bytes_eq(&ext, &c_qoi) {
                Some(OutputFormat::Qoi)
            } else {
                None
            }
        },
    }
}

/// Decodes a persisted part's bytes and reports its pixel dimensions:
/// exactly the named decode result when it exists with both axes positive,
/// and a decode failure otherwise.
pub fn probe_dimensions(data: &Vec<u8>) -> (r: Result<Dimensions, UploadError>)
    ensures
        match spec_decode_dims(data@) {
            Some(wh) => {
                if wh.0 >= 1 && wh.1 >= 1 {
                    r == Result::<Dimensions, UploadError>::Ok(
                        Dimensions { width: wh.0, height: wh.1 },
                    )
                } else {
                    r == Result::<Dimensions, UploadError>::Err(UploadError::DecodeError)
                }
            },
            None => r == Result::<Dimensions, UploadError>::Err(UploadError::DecodeError),
        },
{
    match decode_dims(data) {
        None => Err(UploadError::DecodeError),
        Some((w, h)) => {
            if w == 0 || h == 0 {
                Err(UploadError::DecodeError)
            } else {
                Ok(Dimensions { width: w, height: h })
            }
        },
    }
}

/// What optimizing a part must yield: a decode failure exactly when the
/// probe would fail on the same bytes; an encode failure exactly when the
/// extension is unrecognized or the named re-encode at the planned target
/// size fails; otherwise the decoded dimensions, the planned target, and
/// the named re-encoded bytes.
pub open spec fn spec_optimize(data: Seq<u8>, filename: Seq<u8>, bounds: Bounds) -> Result<
    (Dimensions, Dimensions, Seq<u8>),
    UploadError,
> {
    match spec_decode_dims(data) {
        None => Err(UploadError::DecodeError),
        Some(wh) => {
            if wh.0 < 1 || wh.1 < 1 {
                Err(UploadError::DecodeError)
            } else {
                let orig = Dimensions { width: wh.0, height: wh.1 };
                let tgt = Dimensions {
                    width: target_width(orig, bounds) as u32,
                    height: target_height(orig, bounds) as u32,
                };
                match spec_format_for(filename) {
                    None => Err(UploadError::EncodeError),
                    Some(f) => match spec_reencode(data, tgt.width, tgt.height, format_code(f)) {
                        None => Err(UploadError::EncodeError),
                        Some(enc) => Ok((orig, tgt, enc)),
                    },
                }
            }
        },
    }
}

/// Decodes an image, plans its bounding-box resize, resamples it, and
/// re-encodes it in the format its filename extension selects — exactly as
/// `spec_optimize` describes, with re-encoding happening even when the
/// image already fits the bounds.
pub fn optimize_image(data: &Vec<u8>, filename: &Vec<u8>, bounds: Bounds) -> (r: Result<
    (Dimensions, Dimensions, Vec<u8>),
    UploadError,
>)
    requires
        bounds.wf(),
    ensures
        match spec_optimize(data@, filename@, bounds) {
            Ok(s) => r matches Ok(v) && v.0 == s.0 && v.1 == s.1 && v.2@ == s.2 && v.0.wf()
                && v.1.wf() && crate::geometry::fits(v.1, bounds) && (crate::geometry::fits(
                v.0,
                bounds,
            ) ==> v.1 == v.0) && v.2@.len() < 0x8000_0000_0000_0000,
            Err(e) => r == Result::<(Dimensions, Dimensions, Vec<u8>), UploadError>::Err(e),
        },
{
    match decode_dims(data) {
        None => Err(UploadError::DecodeError),
        Some((w, h)) => {
            if w == 0 || h == 0 {
                return Err(UploadError::DecodeError);
            }
            let orig = Dimensions { width: w, height: h };
            let target = bounded_dimensions(orig, bounds);
            match format_for_filename(filename) {
                None => Err(UploadError::EncodeError),
                Some(fmt) => {
                    match reencode_image(data, target.width, target.height, fmt) {
                        None => Err(UploadError::EncodeError),
                        Some(enc) => Ok((orig, target, enc)),
                    }
                },
            }
        },
    }
}

} // verus!
