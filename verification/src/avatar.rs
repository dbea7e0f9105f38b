//! The avatar normalizer.
//!
//! A candidate image comes in as raw bytes (already read from a file or
//! fetched from a URL by the caller); it is decoded with the container
//! format sniffed from the leading bytes, validated to be square within
//! tolerance, and rendered at the three fixed sizes. The renditions come
//! back as encoded PNG bytes with their target directory and file name;
//! writing them, in order and stopping at the first failure, is the
//! caller's part.
use vstd::prelude::*;

use crate::text::{clone_bytes, concat2, sbytes, str_bytes};

verus! {

/// Where a candidate avatar comes from.
#[derive(Debug)]
pub enum PictureSource {
    /// A file under the configured avatar input directory.
    Local(Vec<u8>),
    /// A remote URL, fetched best-effort.
    Remote(Vec<u8>),
}

/// Model of [`PictureSource`].
pub enum PictureSourceM {
    Local(Seq<u8>),
    Remote(Seq<u8>),
}

/// The model of a picture source.
pub open spec fn picture_source_m(s: PictureSource) -> PictureSourceM {
    match s {
        PictureSource::Local(p) => PictureSourceM::Local(p@),
        PictureSource::Remote(u) => PictureSourceM::Remote(u@),
    }
}

/// An avatar conversion a mapper has asked for: the source to read and the
/// file name the renditions are to be stored under.
#[derive(Debug)]
pub struct PictureJob {
    pub source: PictureSource,
    pub name: Vec<u8>,
}

/// Model of [`PictureJob`].
pub struct PictureJobM {
    pub source: PictureSourceM,
    pub name: Seq<u8>,
}

impl View for PictureJob {
    type V = PictureJobM;

    open spec fn view(&self) -> PictureJobM {
        PictureJobM { source: picture_source_m(self.source), name: self.name@ }
    }
}

/// The model of an optional picture job.
pub open spec fn opt_job_m(j: Option<PictureJob>) -> Option<PictureJobM> {
    match j {
        Some(job) => Some(job@),
        None => None,
    }
}

/// One rendition of an avatar: the encoded PNG for one target size,
/// destined for `<output root>/<dir>/<file_name>`.
#[derive(Debug)]
pub struct Rendition {
    pub size: u32,
    pub dir: Vec<u8>,
    pub file_name: Vec<u8>,
    pub png: Vec<u8>,
}

#[verifier::external_type_specification]
#[verifier::external_body]
pub struct ExDynamicImage(image::DynamicImage);

/// Relies on `image::load_from_memory`: decodes an image from bytes,
/// sniffing the container format from the leading bytes; fails on
/// undecodable input. What comes back depends on the bytes alone, but is
/// opaque here; nothing is promised of either outcome.
#[verifier::external_body]
fn decode_image(buf: &Vec<u8>) -> (r: Result<image::DynamicImage, Vec<u8>>)
    ensures
        r is Ok || r is Err,
{
    match image::load_from_memory(buf.as_slice()) {
        Ok(img) => Ok(img),
        Err(e) => Err(format!("{}", e).into_bytes()),
    }
}

/// Relies on `image::DynamicImage::width` and `height`: the pixel
/// dimensions of the decoded image.
#[verifier::external_body]
fn image_dims(img: &image::DynamicImage) -> (r: (u32, u32))
    ensures
        true,
{
    (img.width(), img.height())
}

/// Relies on `image::DynamicImage::resize_to_fill` with the Catmull-Rom
/// filter: a square crop-and-fill rendition of the given size.
#[verifier::external_body]
fn resize_square(img: &image::DynamicImage, size: u32) -> (r: image::DynamicImage)
    ensures
        true,
{
    img.resize_to_fill(size, size, image::imageops::FilterType::CatmullRom)
}

/// Relies on `image::DynamicImage::write_to` with the PNG format: the
/// image encoded as PNG bytes, in memory.
#[verifier::external_body]
fn encode_png(img: &image::DynamicImage) -> (r: Result<Vec<u8>, Vec<u8>>)
    ensures
        r is Ok || r is Err,
{
    let mut buf: Vec<u8> = Vec::new();
    match img.write_to(&mut std::io::Cursor::new(&mut buf), image::ImageFormat::Png) {
        Ok(()) => Ok(buf),
        Err(e) => Err(format!("{}", e).into_bytes()),
    }
}

/// Is a `width : height` ratio within the accepted tolerance of square?
/// The bounds are `0.95` and `1.05` exclusive, which over the integers is
/// `19h <= 20w <= 21h`; a degenerate all-zero image passes, as division
/// yields no verdict on it.
pub open spec fn ratio_ok_m(w: u32, h: u32) -> bool {
    !(20 * w < 19 * h) && !(20 * w > 21 * h)
}

/// Check an aspect ratio, exactly as [`ratio_ok_m`] states it.
pub fn aspect_ratio_ok(w: u32, h: u32) -> (r: bool)
    ensures
        r <==> ratio_ok_m(w, h),
{
    let w20: u64 = 20 * (w as u64);
    !(w20 < 19 * (h as u64)) && !(w20 > 21 * (h as u64))
}

/// The three fixed rendition sizes, largest first.
pub open spec fn rendition_sizes() -> Seq<u32> {
    seq![230u32, 100u32, 40u32]
}

/// What a successful conversion hands back for a file name: exactly one
/// rendition per fixed size, in order, each destined for the size's own
/// subdirectory under that file name.
pub open spec fn renditions_ok(v: Seq<Rendition>, name: Seq<u8>) -> bool {
    v.len() == 3 && v[0].size == 230 && v[1].size == 100 && v[2].size == 40 && v[0].dir@ == sbytes(
        "230",
    ) && v[1].dir@ == sbytes("100") && v[2].dir@ == sbytes("40") && v[0].file_name@ == name
        && v[1].file_name@ == name && v[2].file_name@ == name
}

/// Render the three square renditions of a decoded image.
///
/// The image is rejected, and nothing rendered, unless its aspect ratio is
/// within tolerance of square; on success there are exactly three
/// renditions, one per fixed size, all under the given file name, so that
/// a caller that writes them in order and stops at the first failure
/// writes all three or reports the failure. The pixel contents come from
/// the outside image code and are not specified here.
pub fn convert(img: &image::DynamicImage, name: &Vec<u8>) -> (r: Result<Vec<Rendition>, Vec<u8>>)
    ensures
        r matches Ok(v) ==> renditions_ok(v@, name@),
{
    let (w, h) = image_dims(img);
    if !aspect_ratio_ok(w, h) {
        return Err(str_bytes("wrong aspect ratio"));
    }
    let mut out: Vec<Rendition> = Vec::new();
    let r230 = resize_square(img, 230);
    let png230 = match encode_png(&r230) {
        Ok(p) => p,
        Err(e) => {
            return Err(e);
        },
    };
    out.push(
        Rendition {
            size: 230,
            dir: str_bytes("230"),
            file_name: clone_bytes(name),
            png: png230,
        },
    );
    let r100 = resize_square(img, 100);
    let png100 = match encode_png(&r100) {
        Ok(p) => p,
        Err(e) => {
            return Err(e);
        },
    };
    out.push(
        Rendition {
            size: 100,
            dir: str_bytes("100"),
            file_name: clone_bytes(name),
            png: png100,
        },
    );
    let r40 = resize_square(img, 40);
    let png40 = match encode_png(&r40) {
        Ok(p) => p,
        Err(e) => {
            return Err(e);
        },
    };
    out.push(
        Rendition { size: 40, dir: str_bytes("40"), file_name: clone_bytes(name), png: png40 },
    );
    Ok(out)
}

/// Decode an image from raw bytes and render it, as [`convert`] does.
pub fn convert_buf(buf: &Vec<u8>, name: &Vec<u8>) -> (r: Result<Vec<Rendition>, Vec<u8>>)
    ensures
        r matches Ok(v) ==> renditions_ok(v@, name@),
{
    match decode_image(buf) {
        Ok(img) => convert(&img, name),
        Err(e) => Err(e),
    }
}

/// Decode the bytes read from a file and render them, as [`convert`]
/// does; a decode failure names the offending path in the message.
pub fn convert_path(path: &Vec<u8>, bytes: &Vec<u8>, name: &Vec<u8>) -> (r: Result<
    Vec<Rendition>,
    Vec<u8>,
>)
    ensures
        r matches Ok(v) ==> renditions_ok(v@, name@),
{
    match decode_image(bytes) {
        Ok(img) => convert(&img, name),
        Err(e) => {
            let mut msg = str_bytes("(");
            msg = concat2(&msg, path);
            msg = concat2(&msg, &str_bytes(") "));
            msg = concat2(&msg, &e);
            Err(msg)
        },
    }
}

} // verus!
