//! Media files on their way to and from the CDN.
//!
//! A file to upload is encrypted under a key of its own, and described by its size and digest before
//! and its size after encryption. A file that was downloaded is decrypted, told by its first bytes
//! and given a name.

use super::api::{ILinkError, UploadParams};
use super::crypto::{
    decrypt, detect_mime_from_magic, encrypt, md5_hex, mime_to_ext, AesKey, CryptoError,
};
#[allow(unused_imports)]
use super::crypto::{
    block_count, ecb_decrypted, ecb_encrypted, extension_of, key_in, keys_read_back, md5_digest,
    mime_of, zero_trimmed,
};
#[allow(unused_imports)]
use crate::encoding::{base64_text, hex_text};
use crate::random::random_uuid;
#[allow(unused_imports)]
use crate::random::uuid_shaped;
use crate::text::{
    chars_of, print_u64, same_but_for_case, same_text, text_between, to_lowercase,
};
#[allow(unused_imports)]
use crate::text::{ascii_lowered, decimal, lowercase, text_opt, texts};
use vstd::prelude::*;

verus! {

/// A picture in memory.
#[verifier::external_type_specification]
#[verifier::external_body]
pub struct ExDynamicImage(image::DynamicImage);

/// An error of the `image` crate.
#[verifier::external_type_specification]
#[verifier::external_body]
pub struct ExImageError(image::ImageError);

/// What the decoders that `image::load_from_memory` asks can find in a file: a picture, or none.
pub uninterp spec fn decoders_find(file: Seq<u8>, picture: Option<image::DynamicImage>) -> bool;

/// The width of a picture in pixels, as `image::DynamicImage::width` tells it.
pub uninterp spec fn picture_width(picture: image::DynamicImage) -> u32;

/// The height of a picture in pixels, as `image::DynamicImage::height` tells it.
pub uninterp spec fn picture_height(picture: image::DynamicImage) -> u32;

/// The bytes that a pixel of a picture takes, as `image::ColorType::bytes_per_pixel` tells it of the
/// picture's colours.
pub uninterp spec fn pixel_bytes(picture: image::DynamicImage) -> u8;

/// The samples that a pixel of a picture has, as `image::ColorType::channel_count` tells it of the
/// picture's colours.
pub uninterp spec fn pixel_samples(picture: image::DynamicImage) -> u8;

/// A picture whose buffer holds its pixels and nothing else.
pub uninterp spec fn tight(picture: image::DynamicImage) -> bool;

/// A picture as `image::DynamicImage::thumbnail` fits it into the given bounds.
pub uninterp spec fn fitted(
    picture: image::DynamicImage,
    width: u32,
    height: u32,
) -> image::DynamicImage;

/// The JPEG file that `image::DynamicImage::write_to` makes of a picture, `None` where it fails.
pub uninterp spec fn jpeg_file(picture: image::DynamicImage) -> Option<Seq<u8>>;

/// `image::load_from_memory`: what it finds in a file is something that the decoders can find there.
/// Two calls on one file may differ: the decoders to ask can be changed while the program runs, and how
/// a JPEG is decoded is up to the machine.
#[verifier::external_body]
fn load_picture(file: &[u8]) -> (r: Result<image::DynamicImage, image::ImageError>)
    ensures
        r matches Ok(picture) ==> decoders_find(file@, Some(picture)),
        r is Err ==> decoders_find(file@, None),
{
    image::load_from_memory(file)
}

/// `image::DynamicImage::width`: gives the width of a picture a name.
#[verifier::external_body]
fn width_of(picture: &image::DynamicImage) -> (r: u32)
    ensures
        r == picture_width(*picture),
{
    picture.width()
}

/// `image::DynamicImage::height`: gives the height of a picture a name.
#[verifier::external_body]
fn height_of(picture: &image::DynamicImage) -> (r: u32)
    ensures
        r == picture_height(*picture),
{
    picture.height()
}

/// `image::ColorType::bytes_per_pixel` of a picture's `image::DynamicImage::color`: gives the bytes
/// that a pixel takes a name.
#[verifier::external_body]
fn pixel_bytes_of(picture: &image::DynamicImage) -> (r: u8)
    ensures
        r == pixel_bytes(*picture),
{
    picture.color().bytes_per_pixel()
}

/// `image::ColorType::channel_count` of a picture's `image::DynamicImage::color`: gives the samples
/// that a pixel has a name.
#[verifier::external_body]
fn pixel_samples_of(picture: &image::DynamicImage) -> (r: u8)
    ensures
        r == pixel_samples(*picture),
{
    picture.color().channel_count()
}

/// The largest block of pixels that becomes one pixel when a picture is fitted into a square of 200 by
/// 200 pixels or more. The long side is scaled to the side of the square, so that a block takes a
/// 200th of it, or less. The short side is scaled alike and then rounded to whole pixels, to two
/// thirds of that at the least, so that a block takes half as much again, and never more than there
/// is. Divisors of 199 and 398 in place of 200 and 400 make up for ratios that are rounded.
pub open spec fn largest_block(width: u32, height: u32) -> int {
    let long: int = if width < height {
        height as int
    } else {
        width as int
    };
    let short: int = if width < height {
        width as int
    } else {
        height as int
    };
    let across: int = 3 * long / 398 + 1;
    (if short < across {
        short
    } else {
        across
    }) * (long / 199 + 1)
}

/// The largest sample of a picture whose samples are whole numbers of 8 or 16 bits; 0 where they are
/// floating-point numbers, which add up without overflow.
pub open spec fn largest_sample(picture: image::DynamicImage) -> int {
    if pixel_bytes(picture) == pixel_samples(picture) {
        255
    } else if pixel_bytes(picture) == 2 * pixel_samples(picture) {
        65_535
    } else {
        0
    }
}

/// A picture that can be fitted into a square of 200 by 200 pixels or more: the number of pixels in a
/// block, and their sum with half that number for rounding, stay below 2^32.
pub open spec fn can_be_fitted(picture: image::DynamicImage) -> bool {
    let block = largest_block(picture_width(picture), picture_height(picture));
    block <= u32::MAX && block * largest_sample(picture) + block / 2 <= u32::MAX
}

/// A picture that lies within the given bounds.
pub open spec fn within(picture: image::DynamicImage, width: u32, height: u32) -> bool {
    picture_width(picture) <= width && picture_height(picture) <= height
}

/// `image::DynamicImage::thumbnail`: gives the picture that fits the bounds a name. It does lie within
/// them. Its buffer is new and just as large as its pixels need. The call panics if the length of that
/// buffer does not fit `usize` and, where overflow is checked, if the sum over a block of pixels does
/// not fit 32 bits: hence the limits on the bounds and on the picture.
#[verifier::external_body]
fn fit_picture(picture: &image::DynamicImage, width: u32, height: u32) -> (r: image::DynamicImage)
    requires
        200 <= width <= 1_000,
        height == width,
        can_be_fitted(*picture),
    ensures
        r == fitted(*picture, width, height),
        within(r, width, height),
        tight(r),
{
    picture.thumbnail(width, height)
}

/// `image::DynamicImage::write_to` with the JPEG format, into memory: gives the file a name. It panics
/// on a picture whose buffer holds more than its pixels.
#[verifier::external_body]
fn write_jpeg(picture: &image::DynamicImage) -> (r: Result<Vec<u8>, image::ImageError>)
    requires
        tight(*picture),
    ensures
        r matches Ok(file) ==> jpeg_file(*picture) == Some(file@),
        r is Err ==> jpeg_file(*picture) is None,
{
    let mut file: Vec<u8> = Vec::new();
    match picture.write_to(&mut std::io::Cursor::new(&mut file), image::ImageFormat::Jpeg) {
        Ok(()) => Ok(file),
        Err(e) => Err(e),
    }
}

/// Why a picture has no thumbnail.
#[derive(Debug, Clone, Copy, PartialEq, Eq, Structural)]
pub enum ThumbnailError {
    /// The file holds no picture
    Decode,
    /// The picture is too large to be fitted
    TooLarge,
    /// The thumbnail cannot be written
    Encode,
}

impl ThumbnailError {
    /// The error in words.
    pub fn message(&self) -> (r: &'static str)
        ensures
            r@ == (match self {
                ThumbnailError::Decode => "decode image for thumbnail"@,
                ThumbnailError::TooLarge => "image too large for thumbnail"@,
                ThumbnailError::Encode => "encode thumbnail as JPEG"@,
            }),
    {
        match self {
            ThumbnailError::Decode => "decode image for thumbnail",
            ThumbnailError::TooLarge => "image too large for thumbnail",
            ThumbnailError::Encode => "encode thumbnail as JPEG",
        }
    }
}

/// The thumbnail of the picture that was found in a file, if any: a JPEG of the picture as fitted into
/// 200 by 200 pixels.
pub open spec fn thumbnail_of(picture: Option<image::DynamicImage>) -> Result<
    Seq<u8>,
    ThumbnailError,
> {
    match picture {
        Some(picture) => if can_be_fitted(picture) {
            match jpeg_file(fitted(picture, 200, 200)) {
                Some(jpeg) => Ok(jpeg),
                None => Err(ThumbnailError::Encode),
            }
        } else {
            Err(ThumbnailError::TooLarge)
        },
        None => Err(ThumbnailError::Decode),
    }
}

/// The MD5 digest of bytes, as requests carry it.
pub open spec fn md5_text(data: Seq<u8>) -> Seq<char> {
    hex_text(md5_digest(data))
}

/// A picture gives a thumbnail and its MD5 digest, or an error. What the thumbnail shows lies within 200
/// by 200 pixels.
pub open spec fn gives(
    picture: Option<image::DynamicImage>,
    r: Result<(Vec<u8>, String), ThumbnailError>,
) -> bool {
    match thumbnail_of(picture) {
        Ok(jpeg) => {
            &&& r matches Ok((data, md5)) && data@ == jpeg && md5@ == md5_text(jpeg)
            &&& picture matches Some(picture) && within(fitted(picture, 200, 200), 200, 200)
        },
        Err(e) => r == Err::<(Vec<u8>, String), ThumbnailError>(e),
    }
}

/// The largest block of pixels that becomes one pixel when a picture of the given size is fitted.
fn block_of(width: u32, height: u32) -> (r: u64)
    ensures
        r == largest_block(width, height),
{
    let long: u64 = if width < height {
        height as u64
    } else {
        width as u64
    };
    let short: u64 = if width < height {
        width as u64
    } else {
        height as u64
    };
    let along: u64 = long / 199 + 1;
    let across: u64 = 3 * long / 398 + 1;
    let least: u64 = if short < across {
        short
    } else {
        across
    };
    assert(least * along <= 100_000_000 * 100_000_000) by (nonlinear_arith)
        requires
            least <= 100_000_000,
            along <= 100_000_000,
    ;
    least * along
}

/// Whether a picture can be fitted.
fn is_fittable(picture: &image::DynamicImage) -> (r: bool)
    ensures
        r == can_be_fitted(*picture),
{
    let block: u64 = block_of(width_of(picture), height_of(picture));
    if block > u32::MAX as u64 {
        return false;
    }
    let bytes: u16 = pixel_bytes_of(picture) as u16;
    let samples: u16 = pixel_samples_of(picture) as u16;
    let sum: u64 = if bytes == samples {
        block * 255
    } else if bytes == 2 * samples {
        block * 65_535
    } else {
        0
    };
    sum + block / 2 <= u32::MAX as u64
}

/// Makes a thumbnail for the picture that was found in a file, if any, and the thumbnail's MD5 digest.
pub fn thumbnail_of_picture(picture: Option<image::DynamicImage>) -> (r: Result<
    (Vec<u8>, String),
    ThumbnailError,
>)
    ensures
        gives(picture, r),
{
    let picture = match picture {
        Some(picture) => picture,
        None => return Err(ThumbnailError::Decode),
    };
    if !is_fittable(&picture) {
        return Err(ThumbnailError::TooLarge);
    }
    match write_jpeg(&fit_picture(&picture, 200, 200)) {
        Ok(jpeg) => {
            let md5 = md5_hex(jpeg.as_slice());
            Ok((jpeg, md5))
        },
        Err(_) => Err(ThumbnailError::Encode),
    }
}

/// Makes a thumbnail for the picture in a file, and the thumbnail's MD5 digest. Which picture is found
/// in the file, if any, is up to the decoders.
pub fn generate_thumbnail(image_data: &[u8]) -> (r: Result<(Vec<u8>, String), ThumbnailError>)
    ensures
        exists|picture: Option<image::DynamicImage>|
            decoders_find(image_data@, picture) && #[trigger] gives(picture, r),
{
    let picture = match load_picture(image_data) {
        Ok(picture) => Some(picture),
        Err(_) => None,
    };
    thumbnail_of_picture(picture)
}

/// A file ready to be uploaded.
#[derive(Debug, Clone)]
pub struct PreparedUpload {
    /// What the API is told about the file
    pub params: UploadParams,
    /// What goes to the CDN
    pub ciphertext: Vec<u8>,
    /// The key in base64, for the receiver
    pub aes_key: String,
}

/// What the API is told about a file before encryption: its receiver and kind, its size and digest.
pub open spec fn describes(
    params: UploadParams,
    filekey: Seq<char>,
    media_type: u8,
    to_user_id: Seq<char>,
    file: Seq<u8>,
) -> bool {
    &&& params.filekey@ == filekey
    &&& params.media_type == media_type
    &&& params.to_user_id@ == to_user_id
    &&& params.rawsize == file.len()
    &&& params.rawfilemd5@ == md5_text(file)
}

/// What the API is told about a thumbnail: its size and digest, and its size after encryption.
pub open spec fn describes_thumbnail(params: UploadParams, thumbnail: Option<Seq<u8>>) -> bool {
    match thumbnail {
        Some(file) => {
            &&& params.thumb_rawsize matches Some(n) && n == file.len()
            &&& params.thumb_rawfilemd5 matches Some(md5) && md5@ == md5_text(file)
            &&& params.thumb_filesize matches Some(n) && n == block_count(file.len()) * 16
        },
        None => {
            &&& params.thumb_rawsize is None
            &&& params.thumb_rawfilemd5 is None
            &&& params.thumb_filesize is None
        },
    }
}

/// A plaintext encrypted under a key, with the size after encryption told to the API and the key given
/// to the receiver, who can decrypt it again.
pub open spec fn sealed(upload: PreparedUpload, key: Seq<u8>, plaintext: Seq<u8>) -> bool {
    &&& upload.ciphertext@ == ecb_encrypted(key, plaintext)
    &&& upload.params.filesize == upload.ciphertext@.len()
    &&& upload.ciphertext@.len() == block_count(plaintext.len()) * 16
    &&& upload.aes_key@ == base64_text(key)
    &&& key_in(upload.aes_key@) == Ok::<Seq<u8>, CryptoError>(key)
    &&& ecb_decrypted(key, upload.ciphertext@) == zero_trimmed(plaintext)
}

/// Encrypts a plaintext under a key. The key has 16 bytes, so this cannot fail.
fn encrypted(key: &AesKey, plaintext: &[u8]) -> (r: Vec<u8>)
    ensures
        r@ == ecb_encrypted(key@, plaintext@),
        r@.len() == block_count(plaintext@.len()) * 16,
        ecb_decrypted(key@, r@) == zero_trimmed(plaintext@),
{
    match encrypt(key.as_bytes(), plaintext) {
        Ok(ciphertext) => ciphertext,
        Err(_) => Vec::new(),
    }
}

/// Seals a file and describes it, without a thumbnail.
fn seal(
    filekey: String,
    media_type: u8,
    to_user_id: &str,
    file_len: usize,
    file_md5: String,
    key: &AesKey,
    plaintext: &[u8],
) -> (r: PreparedUpload)
    ensures
        sealed(r, key@, plaintext@),
        r.params.filekey@ == filekey@,
        r.params.media_type == media_type,
        r.params.to_user_id@ == to_user_id@,
        r.params.rawsize == file_len,
        r.params.rawfilemd5@ == file_md5@,
        describes_thumbnail(r.params, None),
{
    proof {
        key.has_sixteen_bytes();
        keys_read_back(key@);
    }
    let ciphertext = encrypted(key, plaintext);
    let filesize: u64 = ciphertext.len() as u64;
    PreparedUpload {
        params: UploadParams {
            filekey,
            media_type,
            to_user_id: to_user_id.to_string(),
            rawsize: file_len as u64,
            rawfilemd5: file_md5,
            filesize,
            thumb_rawsize: None,
            thumb_rawfilemd5: None,
            thumb_filesize: None,
        },
        ciphertext,
        aes_key: key.to_base64_string(),
    }
}

/// A thumbnail and its MD5 digest, as a pair tells them.
pub open spec fn thumbnail_file(thumbnail: Option<(Vec<u8>, String)>) -> Option<Seq<u8>> {
    match thumbnail {
        Some((file, _)) => Some(file@),
        None => None,
    }
}

/// The digest of a thumbnail is its own.
pub open spec fn digest_fits(thumbnail: Option<(Vec<u8>, String)>) -> bool {
    thumbnail matches Some((file, md5)) ==> md5@ == md5_text(file@)
}

/// Adds a thumbnail to the description of a file, with its size as encrypted under the key of the
/// file.
fn describe_thumbnail(
    params: &mut UploadParams,
    key: &AesKey,
    thumbnail: &Option<(Vec<u8>, String)>,
)
    requires
        digest_fits(*thumbnail),
        describes_thumbnail(*old(params), None),
    ensures
        describes_thumbnail(*final(params), thumbnail_file(*thumbnail)),
        final(params).filekey == old(params).filekey,
        final(params).media_type == old(params).media_type,
        final(params).to_user_id == old(params).to_user_id,
        final(params).rawsize == old(params).rawsize,
        final(params).rawfilemd5 == old(params).rawfilemd5,
        final(params).filesize == old(params).filesize,
{
    if let Some((file, md5)) = thumbnail {
        let ciphertext = encrypted(key, file.as_slice());
        params.thumb_rawsize = Some(file.len() as u64);
        params.thumb_rawfilemd5 = Some(md5.clone());
        params.thumb_filesize = Some(ciphertext.len() as u64);
    }
}

/// Makes an image ready to be uploaded under a key, with a thumbnail if there is one.
pub fn image_upload(
    to_user_id: &str,
    data: &[u8],
    key: &AesKey,
    filekey: String,
    thumbnail: &Option<(Vec<u8>, String)>,
) -> (r: PreparedUpload)
    requires
        digest_fits(*thumbnail),
    ensures
        sealed(r, key@, data@),
        describes(r.params, filekey@, 1, to_user_id@, data@),
        describes_thumbnail(r.params, thumbnail_file(*thumbnail)),
{
    let mut upload = seal(filekey, 1, to_user_id, data.len(), md5_hex(data), key, data);
    describe_thumbnail(&mut upload.params, key, thumbnail);
    upload
}

/// Makes an image ready to be uploaded, under a new key, with a thumbnail if one can be made.
pub fn prepare_image(to_user_id: &str, data: &[u8]) -> (r: PreparedUpload)
    ensures
        exists|key: Seq<u8>| key.len() == 16 && #[trigger] sealed(r, key, data@),
        uuid_shaped(r.params.filekey@),
        describes(r.params, r.params.filekey@, 1, to_user_id@, data@),
        exists|picture: Option<image::DynamicImage>|
            decoders_find(data@, picture) && describes_thumbnail(
                r.params,
                (#[trigger] thumbnail_of(picture)).ok(),
            ),
{
    let key = AesKey::random();
    let thumbnail = match generate_thumbnail(data) {
        Ok(thumbnail) => Some(thumbnail),
        Err(_) => None,
    };
    assert(exists|picture: Option<image::DynamicImage>|
        decoders_find(data@, picture) && thumbnail_file(thumbnail) == (#[trigger] thumbnail_of(
            picture,
        )).ok());
    let upload = image_upload(to_user_id, data, &key, random_uuid(), &thumbnail);
    assert(sealed(upload, key@, data@));
    upload
}

/// Makes a voice message ready to be uploaded under a key. It goes out as a file.
pub fn voice_upload(to_user_id: &str, data: &[u8], key: &AesKey, filekey: String) -> (r:
    PreparedUpload)
    ensures
        sealed(r, key@, data@),
        describes(r.params, filekey@, 3, to_user_id@, data@),
        describes_thumbnail(r.params, None),
{
    seal(filekey, 3, to_user_id, data.len(), md5_hex(data), key, data)
}

/// Makes a voice message ready to be uploaded, under a new key.
pub fn prepare_voice(to_user_id: &str, data: &[u8]) -> (r: PreparedUpload)
    ensures
        exists|key: Seq<u8>| key.len() == 16 && #[trigger] sealed(r, key, data@),
        uuid_shaped(r.params.filekey@),
        describes(r.params, r.params.filekey@, 3, to_user_id@, data@),
        describes_thumbnail(r.params, None),
{
    let key = AesKey::random();
    let upload = voice_upload(to_user_id, data, &key, random_uuid());
    assert(sealed(upload, key@, data@));
    upload
}

/// The kind that a file of some MIME type is uploaded as: video or file.
pub open spec fn file_kind(mime: Seq<char>) -> u8 {
    if mime == "video/mp4"@ || mime == "video/avi"@ || mime == "video/quicktime"@ || mime
        == "video/x-matroska"@ {
        2
    } else {
        3
    }
}

/// The kind that a file of some MIME type is uploaded as.
pub fn file_media_type(mime: &str) -> (r: u8)
    ensures
        r == file_kind(mime@),
{
    if same_text(mime, "video/mp4") || same_text(mime, "video/avi") || same_text(
        mime,
        "video/quicktime",
    ) || same_text(mime, "video/x-matroska") {
        2
    } else {
        3
    }
}

/// Makes a file ready to be uploaded under a key; its first bytes decide on the kind.
pub fn file_upload(to_user_id: &str, data: &[u8], key: &AesKey, filekey: String) -> (r:
    PreparedUpload)
    ensures
        sealed(r, key@, data@),
        describes(r.params, filekey@, file_kind(mime_of(data@)), to_user_id@, data@),
        describes_thumbnail(r.params, None),
{
    let media_type: u8 = file_media_type(detect_mime_from_magic(data));
    seal(filekey, media_type, to_user_id, data.len(), md5_hex(data), key, data)
}

/// Makes a file ready to be uploaded, under a new key.
pub fn prepare_file(to_user_id: &str, data: &[u8]) -> (r: PreparedUpload)
    ensures
        exists|key: Seq<u8>| key.len() == 16 && #[trigger] sealed(r, key, data@),
        uuid_shaped(r.params.filekey@),
        describes(r.params, r.params.filekey@, file_kind(mime_of(data@)), to_user_id@, data@),
        describes_thumbnail(r.params, None),
{
    let key = AesKey::random();
    let upload = file_upload(to_user_id, data, &key, random_uuid());
    assert(sealed(upload, key@, data@));
    upload
}

/// Makes a video ready to be uploaded under a key, with a thumbnail if there is one.
pub fn video_upload(
    to_user_id: &str,
    data: &[u8],
    key: &AesKey,
    filekey: String,
    thumbnail: &Option<(Vec<u8>, String)>,
) -> (r: PreparedUpload)
    requires
        digest_fits(*thumbnail),
    ensures
        sealed(r, key@, data@),
        describes(r.params, filekey@, 2, to_user_id@, data@),
        describes_thumbnail(r.params, thumbnail_file(*thumbnail)),
{
    let mut upload = seal(filekey, 2, to_user_id, data.len(), md5_hex(data), key, data);
    describe_thumbnail(&mut upload.params, key, thumbnail);
    upload
}

/// Makes the thumbnail of a video ready to be uploaded by itself, as an image, under a key of its
/// own.
pub fn thumbnail_upload(
    to_user_id: &str,
    thumbnail: &(Vec<u8>, String),
    key: &AesKey,
    filekey: String,
) -> (r: PreparedUpload)
    requires
        digest_fits(Some(*thumbnail)),
    ensures
        sealed(r, key@, thumbnail.0@),
        describes(r.params, filekey@, 1, to_user_id@, thumbnail.0@),
        describes_thumbnail(r.params, None),
{
    let file = thumbnail.0.as_slice();
    seal(filekey, 1, to_user_id, file.len(), thumbnail.1.clone(), key, file)
}

/// Makes a video and its thumbnail ready to be uploaded, each under a new key. The picture for the
/// thumbnail is taken from the video elsewhere.
pub fn prepare_video(to_user_id: &str, data: &[u8], thumbnail: Option<Vec<u8>>) -> (r: (
    PreparedUpload,
    Option<PreparedUpload>,
))
    ensures
        exists|key: Seq<u8>| key.len() == 16 && #[trigger] sealed(r.0, key, data@),
        uuid_shaped(r.0.params.filekey@),
        describes(r.0.params, r.0.params.filekey@, 2, to_user_id@, data@),
        match thumbnail {
            Some(file) => {
                &&& describes_thumbnail(r.0.params, Some(file@))
                &&& r.1 matches Some(small) && {
                    &&& exists|key: Seq<u8>| key.len() == 16 && #[trigger] sealed(small, key, file@)
                    &&& uuid_shaped(small.params.filekey@)
                    &&& describes(small.params, small.params.filekey@, 1, to_user_id@, file@)
                    &&& describes_thumbnail(small.params, None)
                }
            },
            None => {
                &&& describes_thumbnail(r.0.params, None)
                &&& r.1 is None
            },
        },
{
    let key = AesKey::random();
    match thumbnail {
        Some(file) => {
            let md5 = md5_hex(file.as_slice());
            let pair = (file, md5);
            let small_key = AesKey::random();
            let small = thumbnail_upload(to_user_id, &pair, &small_key, random_uuid());
            let upload = video_upload(to_user_id, data, &key, random_uuid(), &Some(pair));
            assert(sealed(small, small_key@, file@));
            assert(sealed(upload, key@, data@));
            (upload, Some(small))
        },
        None => {
            let upload = video_upload(to_user_id, data, &key, random_uuid(), &None);
            assert(sealed(upload, key@, data@));
            (upload, None)
        },
    }
}

/// The kinds of media that the messages of a channel carry.
#[derive(Debug, Clone, Copy, PartialEq, Eq, Structural)]
pub enum MediaKind {
    Image,
    Voice,
    File,
    Video,
}

impl MediaKind {
    /// The word for a kind.
    pub open spec fn word(self) -> Seq<char> {
        match self {
            MediaKind::Image => "image"@,
            MediaKind::Voice => "voice"@,
            MediaKind::File => "file"@,
            MediaKind::Video => "video"@,
        }
    }

    /// The error for a file that the CDN refused, with its answer.
    pub fn upload_failed(self, answer: &str) -> (r: ILinkError)
        ensures
            r@ == "CDN "@ + self.word() + " upload failed: "@ + answer@,
    {
        let word: &str = match self {
            MediaKind::Image => "image",
            MediaKind::Voice => "voice",
            MediaKind::File => "file",
            MediaKind::Video => "video",
        };
        let mut message = "CDN ".to_string();
        message.append(word);
        message.append(" upload failed: ");
        message.append(answer);
        ILinkError { message }
    }
}

/// The largest file to download, in bytes: 100 MB.
pub const MAX_FILE_SIZE: u64 = 104_857_600;

/// Why what was downloaded cannot be used.
#[derive(Debug, Clone, Copy, PartialEq, Eq, Structural)]
pub enum MediaError {
    /// An image of this many bytes, where this many are allowed
    ImageTooLarge(u64, u64),
    /// A file of this many bytes, where this many are allowed
    FileTooLarge(u64, u64),
    /// The text of the key stands for no key
    Key(CryptoError),
    /// It cannot be decrypted
    Cipher(CryptoError),
}

impl MediaError {
    /// The error in words, for media of some kind.
    pub open spec fn words(self, kind: MediaKind) -> Seq<char> {
        match self {
            MediaError::ImageTooLarge(len, max) => "WeXin: image too large ("@ + decimal(len as nat)
                + " bytes, max "@ + decimal(max as nat) + " bytes)"@,
            MediaError::FileTooLarge(len, max) => "WeXin: file too large ("@ + decimal(len as nat)
                + " bytes, max "@ + decimal(max as nat) + " bytes)"@,
            MediaError::Key(_) => match kind {
                MediaKind::Image => "parse AES key"@,
                MediaKind::Voice => "parse voice AES key"@,
                _ => "parse file AES key"@,
            },
            MediaError::Cipher(_) => match kind {
                MediaKind::Image => "AES decrypt"@,
                MediaKind::Voice => "AES decrypt voice"@,
                _ => "AES decrypt file"@,
            },
        }
    }

    /// The error in words, for media of some kind.
    pub fn message(&self, kind: MediaKind) -> (r: String)
        ensures
            r@ == self.words(kind),
    {
        match self {
            MediaError::ImageTooLarge(len, max) => {
                let mut out = "WeXin: image too large (".to_string();
                out.append(print_u64(*len).as_str());
                out.append(" bytes, max ");
                out.append(print_u64(*max).as_str());
                out.append(" bytes)");
                out
            },
            MediaError::FileTooLarge(len, max) => {
                let mut out = "WeXin: file too large (".to_string();
                out.append(print_u64(*len).as_str());
                out.append(" bytes, max ");
                out.append(print_u64(*max).as_str());
                out.append(" bytes)");
                out
            },
            MediaError::Key(_) => match kind {
                MediaKind::Image => "parse AES key".to_string(),
                MediaKind::Voice => "parse voice AES key".to_string(),
                _ => "parse file AES key".to_string(),
            },
            MediaError::Cipher(_) => match kind {
                MediaKind::Image => "AES decrypt".to_string(),
                MediaKind::Voice => "AES decrypt voice".to_string(),
                _ => "AES decrypt file".to_string(),
            },
        }
    }
}

/// What a ciphertext from the CDN holds under a key in base64, or why it cannot be read.
pub open spec fn opened(ciphertext: Seq<u8>, aes_key: Seq<char>) -> Result<Seq<u8>, MediaError> {
    match key_in(aes_key) {
        Err(e) => Err(MediaError::Key(e)),
        Ok(key) => if ciphertext.len() % 16 != 0 {
            Err(MediaError::Cipher(CryptoError::CiphertextLength(ciphertext.len() as usize)))
        } else {
            Ok(ecb_decrypted(key, ciphertext))
        },
    }
}

/// Decrypts what was downloaded, whatever its size: voice messages.
pub fn open_voice(ciphertext: &[u8], aes_key_b64: &str) -> (r: Result<Vec<u8>, MediaError>)
    ensures
        match opened(ciphertext@, aes_key_b64@) {
            Ok(data) => r matches Ok(v) && v@ == data,
            Err(e) => r == Err::<Vec<u8>, MediaError>(e),
        },
{
    let key = match AesKey::from_base64(aes_key_b64) {
        Ok(key) => key,
        Err(e) => return Err(MediaError::Key(e)),
    };
    match decrypt(key.as_bytes(), ciphertext) {
        Ok(data) => Ok(data),
        Err(e) => Err(MediaError::Cipher(e)),
    }
}

/// Decrypts an image that was downloaded and tells its MIME type. One that is larger than allowed
/// is refused before anything else.
pub fn open_image(ciphertext: &[u8], aes_key_b64: &str, max_bytes: u64) -> (r: Result<
    (Vec<u8>, &'static str),
    MediaError,
>)
    ensures
        ciphertext@.len() > max_bytes ==> r == Err::<(Vec<u8>, &'static str), MediaError>(
            MediaError::ImageTooLarge(ciphertext@.len() as u64, max_bytes),
        ),
        ciphertext@.len() <= max_bytes ==> match opened(ciphertext@, aes_key_b64@) {
            Ok(data) => r matches Ok((v, mime)) && v@ == data && mime@ == mime_of(data),
            Err(e) => r == Err::<(Vec<u8>, &'static str), MediaError>(e),
        },
{
    let size: u64 = ciphertext.len() as u64;
    if size > max_bytes {
        return Err(MediaError::ImageTooLarge(size, max_bytes));
    }
    match open_voice(ciphertext, aes_key_b64) {
        Ok(data) => {
            let mime = detect_mime_from_magic(data.as_slice());
            Ok((data, mime))
        },
        Err(e) => Err(e),
    }
}

/// Decrypts a file that was downloaded and tells its MIME type. One of more than 100 MB is refused
/// before anything else.
pub fn open_file(ciphertext: &[u8], aes_key_b64: &str) -> (r: Result<
    (Vec<u8>, &'static str),
    MediaError,
>)
    ensures
        ciphertext@.len() > MAX_FILE_SIZE ==> r == Err::<(Vec<u8>, &'static str), MediaError>(
            MediaError::FileTooLarge(ciphertext@.len() as u64, MAX_FILE_SIZE),
        ),
        ciphertext@.len() <= MAX_FILE_SIZE ==> match opened(ciphertext@, aes_key_b64@) {
            Ok(data) => r matches Ok((v, mime)) && v@ == data && mime@ == mime_of(data),
            Err(e) => r == Err::<(Vec<u8>, &'static str), MediaError>(e),
        },
{
    let size: u64 = ciphertext.len() as u64;
    if size > MAX_FILE_SIZE {
        return Err(MediaError::FileTooLarge(size, MAX_FILE_SIZE));
    }
    match open_voice(ciphertext, aes_key_b64) {
        Ok(data) => {
            let mime = detect_mime_from_magic(data.as_slice());
            Ok((data, mime))
        },
        Err(e) => Err(e),
    }
}

/// What was uploaded opens again, with the key that the receiver is given: the file without the
/// zeros at its end.
pub proof fn uploads_open_again(upload: PreparedUpload, key: Seq<u8>, file: Seq<u8>)
    requires
        sealed(upload, key, file),
    ensures
        opened(upload.ciphertext@, upload.aes_key@) == Ok::<Seq<u8>, MediaError>(
            zero_trimmed(file),
        ),
{
}

/// A path without what does not count at its end: slashes, and dots that stand for the directory
/// itself.
pub open spec fn without_tail(path: Seq<char>) -> Seq<char>
    decreases path.len(),
{
    if path.len() > 0 && path.last() == '/' {
        without_tail(path.drop_last())
    } else if path.len() > 1 && path.last() == '.' && path[path.len() - 2] == '/' {
        without_tail(path.drop_last())
    } else {
        path
    }
}

/// The last part of a path.
pub open spec fn last_part(path: Seq<char>) -> Seq<char> {
    match without_tail(path).index_of_last('/') {
        Some(i) => without_tail(path).skip(i + 1),
        None => without_tail(path),
    }
}

/// The extension of a file name: what follows its last dot, unless the name begins with that dot
/// or is two dots.
pub open spec fn name_extension(name: Seq<char>) -> Option<Seq<char>> {
    match name.index_of_last('.') {
        Some(i) => if i > 0 && name != seq!['.', '.'] {
            Some(name.skip(i + 1))
        } else {
            None
        },
        None => None,
    }
}

/// The last place of a character in a stretch of text.
fn last_place(chars: &Vec<char>, from: usize, to: usize, c: char) -> (r: Option<usize>)
    requires
        from <= to <= chars@.len(),
    ensures
        match chars@.subrange(from as int, to as int).index_of_last(c) {
            Some(i) => r matches Some(place) && from <= place < to && place == from + i,
            None => r is None,
        },
{
    let ghost stretch = chars@.subrange(from as int, to as int);
    proof {
        stretch.index_of_last_ensures(c);
    }
    let mut end: usize = to;
    while end > from
        invariant
            from <= end <= to <= chars@.len(),
            stretch == chars@.subrange(from as int, to as int),
            match stretch.index_of_last(c) {
                Some(i) => 0 <= i < end - from && stretch[i] == c && forall|j: int|
                    i < j < stretch.len() ==> stretch[j] != c,
                None => forall|j: int| 0 <= j < stretch.len() ==> stretch[j] != c,
            },
        decreases end,
    {
        assert(stretch[end - 1 - from] == chars@[end - 1]);
        if chars[end - 1] == c {
            return Some(end - 1);
        }
        end = end - 1;
    }
    None
}

/// Where the last part of a path begins and where what counts of it ends.
fn last_part_bounds(chars: &Vec<char>) -> (r: (usize, usize))
    ensures
        r.0 <= r.1 <= chars@.len(),
        chars@.subrange(r.0 as int, r.1 as int) == last_part(chars@),
{
    let mut end: usize = chars.len();
    assert(chars@.take(end as int) =~= chars@);
    while end > 0 && (chars[end - 1] == '/' || (end > 1 && chars[end - 1] == '.' && chars[end - 2]
        == '/'))
        invariant
            end <= chars@.len(),
            without_tail(chars@.take(end as int)) == without_tail(chars@),
        ensures
            end <= chars@.len(),
            chars@.take(end as int) == without_tail(chars@),
        decreases end,
    {
        assert(chars@.take(end as int).drop_last() =~= chars@.take(end - 1));
        end = end - 1;
    }
    assert(chars@.take(end as int) =~= chars@.subrange(0, end as int));
    let start: usize = match last_place(chars, 0, end, '/') {
        Some(slash) => slash + 1,
        None => 0,
    };
    assert(without_tail(chars@).skip(start as int) =~= chars@.subrange(start as int, end as int));
    (start, end)
}

/// The extension of the file name that a stretch of text spells.
fn extension_between(chars: &Vec<char>, start: usize, end: usize) -> (r: Option<String>)
    requires
        start <= end <= chars@.len(),
    ensures
        text_opt(r) == name_extension(chars@.subrange(start as int, end as int)),
{
    let ghost name = chars@.subrange(start as int, end as int);
    if end - start == 2 && chars[start] == '.' && chars[start + 1] == '.' {
        assert(name =~= seq!['.', '.']);
        return None;
    }
    proof {
        if name == seq!['.', '.'] {
            assert(name[0] == '.' && name[1] == '.');
        }
    }
    match last_place(chars, start, end, '.') {
        Some(dot) => {
            if dot > start {
                assert(name.skip(dot - start + 1) =~= chars@.subrange(dot + 1, end as int));
                Some(text_between(chars, dot + 1, end))
            } else {
                None
            }
        },
        None => None,
    }
}

/// The extension of the file that a path names, its parts separated by slashes.
pub open spec fn extension_in(path: Seq<char>) -> Option<Seq<char>> {
    name_extension(last_part(path))
}

/// The extension of the file that a path names, its parts separated by slashes.
pub fn extension(path: &str) -> (r: Option<String>)
    ensures
        text_opt(r) == extension_in(path@),
{
    let chars = chars_of(path);
    let (start, end) = last_part_bounds(&chars);
    extension_between(&chars, start, end)
}

/// The extension to save a downloaded file with: that of its address in lower case, or else the
/// usual one of its MIME type.
pub open spec fn saved_extension(url: Seq<char>, mime: Seq<char>) -> Seq<char> {
    match extension_in(url) {
        Some(ext) => lowercase(ext),
        None => extension_of(mime),
    }
}

/// The extension to save a file with, given the extension of its address in lower case.
pub fn extension_or_default(lowered: Option<String>, mime: &str) -> (r: String)
    ensures
        r@ == (match lowered {
            Some(ext) => ext@,
            None => extension_of(mime@),
        }),
{
    match lowered {
        Some(ext) => ext,
        None => mime_to_ext(mime).to_string(),
    }
}

/// The extension to save a file with that was downloaded from an address.
pub fn download_extension(url: &str, mime: &str) -> (r: String)
    ensures
        r@ == saved_extension(url@, mime@),
{
    let lowered = match extension(url) {
        Some(ext) => Some(to_lowercase(ext.as_str())),
        None => None,
    };
    extension_or_default(lowered, mime)
}

/// A file name: a prefix, an identifier, a dot and an extension.
pub open spec fn file_name(prefix: Seq<char>, id: Seq<char>, ext: Seq<char>) -> Seq<char> {
    prefix + id + "."@ + ext
}

/// The name to save a downloaded file under.
pub fn temp_file_name(prefix: &str, id: &str, ext: &str) -> (r: String)
    ensures
        r@ == file_name(prefix@, id@, ext@),
{
    let mut name = prefix.to_string();
    name.append(id);
    name.append(".");
    name.append(ext);
    name
}

/// A new name to save an image under, with the usual extension of its MIME type.
pub fn image_file_name(mime: &str) -> (r: String)
    ensures
        exists|id: Seq<char>|
            uuid_shaped(id) && r@ == #[trigger] file_name(
                "weixin_img_"@,
                id,
                extension_of(mime@),
            ),
{
    temp_file_name("weixin_img_", random_uuid().as_str(), mime_to_ext(mime))
}

/// A new name to save a voice message under.
pub fn voice_file_name() -> (r: String)
    ensures
        exists|id: Seq<char>|
            uuid_shaped(id) && r@ == #[trigger] file_name("weixin_voice_"@, id, "silk"@),
{
    temp_file_name("weixin_voice_", random_uuid().as_str(), "silk")
}

/// A new name to save a file under that was downloaded from an address.
pub fn download_file_name(url: &str, mime: &str) -> (r: String)
    ensures
        exists|id: Seq<char>|
            uuid_shaped(id) && r@ == #[trigger] file_name(
                "weixin_file_"@,
                id,
                saved_extension(url@, mime@),
            ),
{
    temp_file_name(
        "weixin_file_",
        random_uuid().as_str(),
        download_extension(url, mime).as_str(),
    )
}

/// A new name for the thumbnail of a video.
pub fn thumbnail_file_name() -> (r: String)
    ensures
        exists|id: Seq<char>|
            uuid_shaped(id) && r@ == #[trigger] file_name("weixin_thumb_"@, id, "jpg"@),
{
    temp_file_name("weixin_thumb_", random_uuid().as_str(), "jpg")
}

/// The name that an image has as an attachment.
pub fn attachment_name(mime: &str) -> (r: String)
    ensures
        r@ == "weixin_image."@ + extension_of(mime@),
{
    "weixin_image.".to_string().concat(mime_to_ext(mime))
}

/// Whether a voice message is in the SILK format already, by the extension of its file.
pub fn is_silk_file(path: &str) -> (r: bool)
    ensures
        r == (extension_in(path@) matches Some(ext) && ascii_lowered(ext) == ascii_lowered(
            "silk"@,
        )),
{
    match extension(path) {
        Some(ext) => same_but_for_case(ext.as_str(), "silk"),
        None => false,
    }
}

/// Where a voice message is after it was saved: the converted file, or the saved one where the
/// conversion failed, and the saved one.
pub fn voice_paths(converted: Option<String>, saved: String) -> (r: (String, String))
    ensures
        r.0@ == (match converted {
            Some(path) => path@,
            None => saved@,
        }),
        r.1@ == saved@,
{
    match converted {
        Some(path) => (path, saved),
        None => (saved.clone(), saved),
    }
}

/// Arguments for `ffmpeg` to turn a sound file into 16-bit PCM, 16 kHz, mono.
pub open spec fn pcm_args(input: Seq<char>, output: Seq<char>) -> Seq<Seq<char>> {
    seq![
        "-y"@,
        "-i"@,
        input,
        "-acodec"@,
        "pcm_s16le"@,
        "-ar"@,
        "16000"@,
        "-ac"@,
        "1"@,
        output,
    ]
}

/// Arguments for `ffmpeg` to encode PCM, 16 kHz, mono.
pub open spec fn silk_args(input: Seq<char>, output: Seq<char>) -> Seq<Seq<char>> {
    seq!["-y"@, "-i"@, input, "-c:a"@, "libopus"@, "-ar"@, "16000"@, "-ac"@, "1"@, output]
}

/// Arguments for `ffmpeg` to take a picture of 200 by 200 pixels from a video, two seconds in.
pub open spec fn thumbnail_args(video: Seq<char>, output: Seq<char>) -> Seq<Seq<char>> {
    seq![
        "-y"@,
        "-ss"@,
        "00:00:02"@,
        "-i"@,
        video,
        "-vframes"@,
        "1"@,
        "-q:v"@,
        "2"@,
        "-s"@,
        "200x200"@,
        output,
    ]
}

/// Arguments for `ffmpeg` to turn a sound file into 16-bit PCM, 16 kHz, mono.
pub fn pcm_arguments(input: &str, output: &str) -> (r: Vec<String>)
    ensures
        texts(r@) == pcm_args(input@, output@),
{
    let mut args: Vec<String> = Vec::new();
    args.push("-y".to_string());
    args.push("-i".to_string());
    args.push(input.to_string());
    args.push("-acodec".to_string());
    args.push("pcm_s16le".to_string());
    args.push("-ar".to_string());
    args.push("16000".to_string());
    args.push("-ac".to_string());
    args.push("1".to_string());
    args.push(output.to_string());
    assert(texts(args@) =~= pcm_args(input@, output@));
    args
}

/// Arguments for `ffmpeg` to encode PCM, 16 kHz, mono.
pub fn silk_arguments(input: &str, output: &str) -> (r: Vec<String>)
    ensures
        texts(r@) == silk_args(input@, output@),
{
    let mut args: Vec<String> = Vec::new();
    args.push("-y".to_string());
    args.push("-i".to_string());
    args.push(input.to_string());
    args.push("-c:a".to_string());
    args.push("libopus".to_string());
    args.push("-ar".to_string());
    args.push("16000".to_string());
    args.push("-ac".to_string());
    args.push("1".to_string());
    args.push(output.to_string());
    assert(texts(args@) =~= silk_args(input@, output@));
    args
}

/// Arguments for `ffmpeg` to take a picture from a video, two seconds in.
pub fn thumbnail_arguments(video: &str, output: &str) -> (r: Vec<String>)
    ensures
        texts(r@) == thumbnail_args(video@, output@),
{
    let mut args: Vec<String> = Vec::new();
    args.push("-y".to_string());
    args.push("-ss".to_string());
    args.push("00:00:02".to_string());
    args.push("-i".to_string());
    args.push(video.to_string());
    args.push("-vframes".to_string());
    args.push("1".to_string());
    args.push("-q:v".to_string());
    args.push("2".to_string());
    args.push("-s".to_string());
    args.push("200x200".to_string());
    args.push(output.to_string());
    assert(texts(args@) =~= thumbnail_args(video@, output@));
    args
}

/// Which file to upload after encoding: the encoded one, or the input as it is where the encoding
/// failed.
pub fn encoded_or_input(success: bool, encoded: String, input: String) -> (r: String)
    ensures
        r == (if success { encoded } else { input }),
{
    if success {
        encoded
    } else {
        input
    }
}

/// Place and key of a media item, if the item tells both.
pub fn fetchable<'a>(param: &'a Option<String>, key: &'a Option<String>) -> (r: Option<
    (&'a str, &'a str),
>)
    ensures
        match r {
            Some((p, k)) => text_opt(*param) == Some(p@) && text_opt(*key) == Some(k@),
            None => *param is None || *key is None,
        },
{
    match (param, key) {
        (Some(p), Some(k)) => Some((p.as_str(), k.as_str())),
        _ => None,
    }
}

/// A file is uploaded encrypted, in whole blocks: the API is told the size of what goes to the CDN, and
/// the receiver is given the key in base64.
pub proof fn uploads_hold_the_encrypted_file(
    upload: PreparedUpload,
    key: Seq<u8>,
    file: Seq<u8>,
)
    requires
        sealed(upload, key, file),
    ensures
        upload.ciphertext@ == ecb_encrypted(key, file),
        upload.aes_key@ == base64_text(key),
        upload.params.filesize == upload.ciphertext@.len(),
        upload.ciphertext@.len() % 16 == 0,
        file.len() <= upload.ciphertext@.len() < file.len() + 16,
{
}

/// The API is told the receiver, the kind, the size of the file before encryption and its MD5 digest in
/// hexadecimal digits.
pub proof fn files_are_described_as_they_are(
    params: UploadParams,
    filekey: Seq<char>,
    media_type: u8,
    to_user_id: Seq<char>,
    file: Seq<u8>,
)
    requires
        describes(params, filekey, media_type, to_user_id, file),
    ensures
        params.filekey@ == filekey,
        params.media_type == media_type,
        params.to_user_id@ == to_user_id,
        params.rawsize == file.len(),
        params.rawfilemd5@ == hex_text(md5_digest(file)),
{
}

/// With a thumbnail the API is told its size before encryption, its MD5 digest and its size after
/// encryption, in whole blocks; without one it is told none of these.
pub proof fn thumbnails_are_described_as_they_are(
    params: UploadParams,
    thumbnail: Option<Seq<u8>>,
)
    requires
        describes_thumbnail(params, thumbnail),
    ensures
        thumbnail matches Some(file) ==> {
            &&& params.thumb_rawsize is Some && params.thumb_rawsize->0 == file.len()
            &&& params.thumb_rawfilemd5 is Some && (params.thumb_rawfilemd5->0)@ == hex_text(
                md5_digest(file),
            )
            &&& params.thumb_filesize is Some && params.thumb_filesize->0 % 16 == 0
            &&& file.len() <= params.thumb_filesize->0 < file.len() + 16
        },
        thumbnail is None ==> params.thumb_rawsize is None && params.thumb_rawfilemd5 is None
            && params.thumb_filesize is None,
{
}

/// A picture has a thumbnail exactly when it can be fitted and the fitted one can be written as a JPEG,
/// and the thumbnail is that JPEG; each other case has an error of its own.
pub proof fn thumbnails_show_the_fitted_picture(picture: Option<image::DynamicImage>, jpeg: Seq<u8>)
    ensures
        thumbnail_of(picture) == Ok::<Seq<u8>, ThumbnailError>(jpeg) <==> picture is Some
            && can_be_fitted(picture->0) && jpeg_file(fitted(picture->0, 200, 200)) == Some(jpeg),
        thumbnail_of(picture) == Err::<Seq<u8>, ThumbnailError>(ThumbnailError::Decode)
            <==> picture is None,
        thumbnail_of(picture) == Err::<Seq<u8>, ThumbnailError>(ThumbnailError::TooLarge)
            <==> picture is Some && !can_be_fitted(picture->0),
{
}

/// Videos of four types go out as videos, whatever else as a file.
pub proof fn videos_go_out_as_videos(mime: Seq<char>)
    ensures
        file_kind(mime) == 2 <==> mime == "video/mp4"@ || mime == "video/avi"@ || mime
            == "video/quicktime"@ || mime == "video/x-matroska"@,
        file_kind(mime) == 2 || file_kind(mime) == 3,
{
}

/// What comes from the CDN is decrypted with the key that came with it; what does not consist of whole
/// blocks is refused, and so is a text that stands for no key.
pub proof fn downloads_are_opened_with_their_key(ciphertext: Seq<u8>, aes_key: Seq<char>)
    ensures
        match key_in(aes_key) {
            Ok(key) => if ciphertext.len() % 16 == 0 {
                opened(ciphertext, aes_key) == Ok::<Seq<u8>, MediaError>(
                    ecb_decrypted(key, ciphertext),
                )
            } else {
                opened(ciphertext, aes_key) == Err::<Seq<u8>, MediaError>(
                    MediaError::Cipher(CryptoError::CiphertextLength(ciphertext.len() as usize)),
                )
            },
            Err(e) => opened(ciphertext, aes_key) == Err::<Seq<u8>, MediaError>(MediaError::Key(e)),
        },
{
}

/// The name at the end of a path.
proof fn name_at_the_end(dir: Seq<char>, name: Seq<char>)
    requires
        dir.len() == 0 || dir.last() == '/',
        name.len() > 0,
        !name.contains('/'),
        name != seq!['.'],
    ensures
        last_part(dir + name) == name,
{
    let path = dir + name;
    assert(path.last() == name.last());
    assert(name.contains(name.last()));
    if name.len() > 1 {
        assert(path[path.len() - 2] == name[name.len() - 2]);
        assert(name.contains(name[name.len() - 2]));
    } else {
        assert(name.last() != '.') by {
            if name.last() == '.' {
                assert(name =~= seq!['.']);
            }
        }
    }
    assert(without_tail(path) == path);
    path.index_of_last_ensures('/');
    assert forall|i: int| dir.len() <= i < path.len() implies path[i] != '/' by {
        assert(path[i] == name[i - dir.len()]);
        assert(name.contains(name[i - dir.len()]));
    }
    if dir.len() > 0 {
        assert(path[dir.len() - 1] == '/');
        assert(path.contains('/'));
        assert(path.index_of_last('/') == Some(dir.len() - 1));
    } else {
        assert(!path.contains('/'));
    }
    assert(path.skip(dir.len() as int) =~= name);
    assert(path.skip(0) =~= path);
}

/// The extension of a file is what follows the last dot of its name, in whatever directory the file
/// is, as long as something stands before that dot.
pub proof fn extensions_follow_the_last_dot(dir: Seq<char>, stem: Seq<char>, ext: Seq<char>)
    requires
        dir.len() == 0 || dir.last() == '/',
        stem.len() > 0,
        !stem.contains('/'),
        !ext.contains('/'),
        !ext.contains('.'),
        stem != seq!['.'] || ext.len() > 0,
    ensures
        extension_in(dir + stem + seq!['.'] + ext) == Some(ext),
{
    let name = stem + seq!['.'] + ext;
    let dot: int = stem.len() as int;
    assert(dir + stem + seq!['.'] + ext =~= dir + name);
    assert(!name.contains('/')) by {
        if name.contains('/') {
            let i = choose|i: int| 0 <= i < name.len() && name[i] == '/';
            if i < dot {
                assert(stem[i] == '/');
            } else if i > dot {
                assert(ext[i - dot - 1] == '/');
            }
        }
    }
    name_at_the_end(dir, name);
    name.index_of_last_ensures('.');
    assert(name[dot] == '.');
    assert(name.contains('.'));
    assert forall|i: int| dot < i < name.len() implies name[i] != '.' by {
        assert(name[i] == ext[i - dot - 1]);
        assert(ext.contains(ext[i - dot - 1]));
    }
    assert(name.index_of_last('.') == Some(dot));
    assert(name.skip(dot + 1) =~= ext);
    if name == seq!['.', '.'] {
        assert(name.len() == 2);
        assert(stem.len() == 1 && ext.len() == 0);
        assert(name[0] == stem[0]);
        assert(stem =~= seq!['.']);
    }
}

/// A name without a dot has no extension, nor has one whose only dot stands in front, nor the parent
/// directory.
pub proof fn names_without_extension(dir: Seq<char>, name: Seq<char>)
    requires
        dir.len() == 0 || dir.last() == '/',
        name.len() > 0,
        !name.contains('/'),
        !name.contains('.'),
    ensures
        extension_in(dir + name) is None,
        extension_in(dir + (seq!['.'] + name)) is None,
        extension_in(dir + seq!['.', '.']) is None,
{
    name_at_the_end(dir, name);
    name.index_of_last_ensures('.');
    let hidden = seq!['.'] + name;
    assert(!hidden.contains('/')) by {
        if hidden.contains('/') {
            let i = choose|i: int| 0 <= i < hidden.len() && hidden[i] == '/';
            assert(name[i - 1] == '/');
        }
    }
    assert(hidden.len() > 1);
    name_at_the_end(dir, hidden);
    hidden.index_of_last_ensures('.');
    assert(hidden[0] == '.');
    assert(hidden.contains('.'));
    assert forall|i: int| 0 < i < hidden.len() implies hidden[i] != '.' by {
        assert(hidden[i] == name[i - 1]);
        assert(name.contains(name[i - 1]));
    }
    assert(hidden.index_of_last('.') == Some(0int));
    let parent = seq!['.', '.'];
    assert(!parent.contains('/'));
    name_at_the_end(dir, parent);
}

/// Slashes at the end of a path, and a dot behind one, do not count; a path of nothing else names no file
/// with an extension.
pub proof fn slashes_at_the_end_do_not_count(path: Seq<char>)
    ensures
        extension_in(path + seq!['/']) == extension_in(path),
        extension_in(path + seq!['/', '.']) == extension_in(path),
        extension_in(Seq::empty()) is None,
        extension_in(seq!['.']) is None,
{
    let empty = Seq::<char>::empty();
    empty.index_of_last_ensures('/');
    empty.index_of_last_ensures('.');
    let dot = seq!['.'];
    dot.index_of_last_ensures('/');
    dot.index_of_last_ensures('.');
    let slashed = path + seq!['/'];
    assert(slashed.drop_last() =~= path);
    assert(without_tail(slashed) == without_tail(path));
    let dotted = path + seq!['/', '.'];
    assert(dotted.drop_last() =~= slashed);
    assert(dotted.last() == '.' && dotted[dotted.len() - 2] == '/');
    assert(without_tail(dotted) == without_tail(slashed));
}

/// A downloaded file is saved with the extension of its address in lower case, or the usual one of its
/// type where the address has none, and the name that it is saved under begins with its prefix and has
/// that extension.
pub proof fn saved_files_have_their_extension(
    url: Seq<char>,
    mime: Seq<char>,
    prefix: Seq<char>,
    id: Seq<char>,
    ext: Seq<char>,
)
    ensures
        extension_in(url) is Some ==> saved_extension(url, mime) == lowercase(
            extension_in(url)->0,
        ),
        extension_in(url) is None ==> saved_extension(url, mime) == extension_of(mime),
        file_name(prefix, id, ext).take(prefix.len() as int) == prefix,
        file_name(prefix, id, ext).subrange(
            prefix.len() as int,
            prefix.len() + id.len() as int,
        ) == id,
        prefix.len() > 1 && !prefix.contains('/') && !id.contains('/') && !ext.contains('/')
            && !ext.contains('.') ==> extension_in(file_name(prefix, id, ext)) == Some(ext),
{
    reveal_strlit(".");
    assert("."@ =~= seq!['.']);
    let name = file_name(prefix, id, ext);
    assert(name.take(prefix.len() as int) =~= prefix);
    assert(name.subrange(prefix.len() as int, prefix.len() + id.len() as int) =~= id);
    if prefix.len() > 1 && !prefix.contains('/') && !id.contains('/') && !ext.contains('/')
        && !ext.contains('.') {
        let none = Seq::<char>::empty();
        let stem = prefix + id;
        assert(!stem.contains('/')) by {
            if stem.contains('/') {
                let i = choose|i: int| 0 <= i < stem.len() && stem[i] == '/';
                if i < prefix.len() {
                    assert(prefix[i] == '/');
                } else {
                    assert(id[i - prefix.len()] == '/');
                }
            }
        }
        extensions_follow_the_last_dot(none, stem, ext);
        assert(none + stem + seq!['.'] + ext =~= name);
    }
}

/// Each call of `ffmpeg` may overwrite its output, reads the input that follows `-i` and writes to the
/// last argument. Sound is made mono at 16 kHz, as 16-bit PCM first; of a video one picture is taken
/// two seconds in, 200 by 200 pixels large.
pub proof fn ffmpeg_is_told_input_and_output(input: Seq<char>, output: Seq<char>)
    ensures
        ({
            let pcm = pcm_args(input, output);
            &&& pcm.len() == 10
            &&& pcm[0] == "-y"@
            &&& pcm[1] == "-i"@ && pcm[2] == input
            &&& pcm[3] == "-acodec"@ && pcm[4] == "pcm_s16le"@
            &&& pcm[5] == "-ar"@ && pcm[6] == "16000"@
            &&& pcm[7] == "-ac"@ && pcm[8] == "1"@
            &&& pcm[9] == output
        }),
        ({
            let silk = silk_args(input, output);
            &&& silk.len() == 10
            &&& silk[0] == "-y"@
            &&& silk[1] == "-i"@ && silk[2] == input
            &&& silk[3] == "-c:a"@ && silk[4] == "libopus"@
            &&& silk[5] == "-ar"@ && silk[6] == "16000"@
            &&& silk[7] == "-ac"@ && silk[8] == "1"@
            &&& silk[9] == output
        }),
        ({
            let picture = thumbnail_args(input, output);
            &&& picture.len() == 12
            &&& picture[0] == "-y"@
            &&& picture[1] == "-ss"@ && picture[2] == "00:00:02"@
            &&& picture[3] == "-i"@ && picture[4] == input
            &&& picture[5] == "-vframes"@ && picture[6] == "1"@
            &&& picture[7] == "-q:v"@ && picture[8] == "2"@
            &&& picture[9] == "-s"@ && picture[10] == "200x200"@
            &&& picture[11] == output
        }),
{
}

/// A thumbnail comes with the MD5 digest of its own bytes, and is told to the API as the file that it
/// is. What fails in making one is what is reported.
pub proof fn thumbnails_come_with_their_digest(
    picture: Option<image::DynamicImage>,
    r: Result<(Vec<u8>, String), ThumbnailError>,
    pair: (Vec<u8>, String),
)
    ensures
        gives(picture, r) ==> (r is Ok <==> thumbnail_of(picture) is Ok),
        gives(picture, r) && r is Ok ==> (r->Ok_0).0@ == thumbnail_of(picture)->Ok_0 && (
        r->Ok_0).1@ == hex_text(md5_digest((r->Ok_0).0@)),
        gives(picture, r) && r is Err ==> thumbnail_of(picture) == Err::<
            Seq<u8>,
            ThumbnailError,
        >(r->Err_0),
        thumbnail_file(Some(pair)) == Some(pair.0@),
        thumbnail_file(None) is None,
        digest_fits(Some(pair)) <==> pair.1@ == hex_text(md5_digest(pair.0@)),
        digest_fits(None),
{
}

/// Pictures up to 600,000 pixels wide and high can be fitted where their samples have 8 bits, and up to
/// 40,000 where they have 16.
pub proof fn ordinary_pictures_can_be_fitted(picture: image::DynamicImage)
    ensures
        pixel_bytes(picture) == pixel_samples(picture) && picture_width(picture) <= 600_000
            && picture_height(picture) <= 600_000 ==> can_be_fitted(picture),
        pixel_bytes(picture) == 2 * pixel_samples(picture) && picture_width(picture) <= 40_000
            && picture_height(picture) <= 40_000 ==> can_be_fitted(picture),
{
    let width = picture_width(picture);
    let height = picture_height(picture);
    let long: int = if width < height {
        height as int
    } else {
        width as int
    };
    let short: int = if width < height {
        width as int
    } else {
        height as int
    };
    let along: int = long / 199 + 1;
    let least: int = if short < 3 * long / 398 + 1 {
        short
    } else {
        3 * long / 398 + 1
    };
    assert(largest_block(width, height) == least * along);
    if long <= 600_000 {
        assert(0 <= least * along <= 4_523 * 3_016) by (nonlinear_arith)
            requires
                0 <= least <= 4_523,
                0 <= along <= 3_016,
        ;
    }
    if long <= 40_000 {
        assert(0 <= least * along <= 302 * 202) by (nonlinear_arith)
            requires
                0 <= least <= 302,
                0 <= along <= 202,
        ;
    }
}

} // verus!
