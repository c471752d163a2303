use zeroclaw::channels::weixin::crypto::{decrypt, encrypt, md5_hex, AesKey, CryptoError};
use zeroclaw::channels::weixin::media::{
    attachment_name, download_extension, download_file_name, encoded_or_input, extension,
    extension_or_default, fetchable, file_media_type, file_upload, generate_thumbnail,
    image_file_name, image_upload, is_silk_file, open_file, open_image, open_voice,
    pcm_arguments, prepare_file, prepare_image, prepare_video, prepare_voice, silk_arguments,
    temp_file_name, thumbnail_arguments, thumbnail_file_name, thumbnail_of_picture,
    thumbnail_upload, video_upload, voice_file_name, voice_paths, voice_upload, MediaError,
    MediaKind, ThumbnailError, MAX_FILE_SIZE,
};

fn png(width: u32, height: u32) -> Vec<u8> {
    let picture = image::DynamicImage::new_rgb8(width, height);
    let mut file: Vec<u8> = Vec::new();
    picture
        .write_to(&mut std::io::Cursor::new(&mut file), image::ImageFormat::Png)
        .unwrap();
    file
}

fn open(ciphertext: &[u8], key: &str) -> Vec<u8> {
    open_voice(ciphertext, key).unwrap()
}

#[test]
fn thumbnails_fit_two_hundred_pixels() {
    let (jpeg, md5) = generate_thumbnail(&png(600, 300)).unwrap();
    assert_eq!(&jpeg[..3], &[0xFF, 0xD8, 0xFF]);
    assert_eq!(md5, md5_hex(&jpeg));
    let small = image::load_from_memory(&jpeg).unwrap();
    assert_eq!((small.width(), small.height()), (200, 100));
}

#[test]
fn what_is_no_picture_has_no_thumbnail() {
    let err = generate_thumbnail(b"hello").unwrap_err();
    assert_eq!(err, ThumbnailError::Decode);
    assert_eq!(err.message(), "decode image for thumbnail");
    assert_eq!(ThumbnailError::Encode.message(), "encode thumbnail as JPEG");
    assert_eq!(thumbnail_of_picture(None).unwrap_err(), ThumbnailError::Decode);
}

#[test]
fn picture_at_hand_has_a_thumbnail() {
    let (jpeg, md5) = thumbnail_of_picture(Some(image::DynamicImage::new_rgba8(50, 400))).unwrap();
    assert_eq!(md5, md5_hex(&jpeg));
    let small = image::load_from_memory(&jpeg).unwrap();
    assert_eq!((small.width(), small.height()), (25, 200));
    let file = png(600, 300);
    let found = image::load_from_memory(&file).ok();
    assert_eq!(thumbnail_of_picture(found), generate_thumbnail(&file));
}

#[test]
fn long_pictures_have_thumbnails() {
    let size = |picture: image::DynamicImage| {
        let (jpeg, _) = thumbnail_of_picture(Some(picture)).unwrap();
        let small = image::load_from_memory(&jpeg).unwrap();
        (small.width(), small.height())
    };
    assert_eq!(size(image::DynamicImage::new_luma8(3_000_000, 1)), (200, 1));
    assert_eq!(size(image::DynamicImage::new_rgba8(2, 65_535)), (1, 200));
    assert_eq!(size(image::DynamicImage::new_luma16(40_001, 1)), (200, 1));
    assert_eq!(size(image::DynamicImage::new_rgb16(1, 1_000_000)), (1, 200));
    assert_eq!(size(image::DynamicImage::new_rgb32f(100_000, 1)), (200, 1));
    assert_eq!(size(image::DynamicImage::new_luma8(0, 0)), (1, 1));
}

#[test]
fn blocks_of_a_picture_are_bounded() {
    // 13,041,663 / 199 + 1 is 65,536, the most samples of 16 bits whose sum fits 32 bits.
    let fits = |picture: image::DynamicImage| thumbnail_of_picture(Some(picture)).is_ok();
    assert!(fits(image::DynamicImage::new_luma16(13_041_663, 1)));
    assert_eq!(
        thumbnail_of_picture(Some(image::DynamicImage::new_luma16(13_041_664, 1))),
        Err(ThumbnailError::TooLarge)
    );
    assert_eq!(
        thumbnail_of_picture(Some(image::DynamicImage::new_luma16(1, 13_041_664))),
        Err(ThumbnailError::TooLarge)
    );
    assert!(fits(image::DynamicImage::new_luma8(13_041_664, 1)));
    assert_eq!(ThumbnailError::TooLarge.message(), "image too large for thumbnail");
}

#[test]
fn wide_samples_are_averaged() {
    let white = image::Luma([u16::MAX]);
    let picture = image::ImageBuffer::from_pixel(40_000, 299, white);
    let (jpeg, _) = thumbnail_of_picture(Some(image::DynamicImage::ImageLuma16(picture))).unwrap();
    let small = image::load_from_memory(&jpeg).unwrap().to_luma8();
    assert_eq!((small.width(), small.height()), (200, 1));
    assert!(small.pixels().all(|p| p.0[0] >= 250));
}

#[test]
fn image_is_sealed_with_its_thumbnail() {
    let data = png(10, 10);
    let upload = prepare_image("bob", &data);
    assert_eq!(upload.params.media_type, 1);
    assert_eq!(upload.params.to_user_id, "bob");
    assert_eq!(upload.params.rawsize, data.len() as u64);
    assert_eq!(upload.params.rawfilemd5, md5_hex(&data));
    assert_eq!(upload.params.filesize, upload.ciphertext.len() as u64);
    assert_eq!(upload.params.filekey.len(), 36);
    assert_ne!(upload.ciphertext, data);
    let (thumb, md5) = generate_thumbnail(&data).unwrap();
    assert_eq!(upload.params.thumb_rawsize, Some(thumb.len() as u64));
    assert_eq!(upload.params.thumb_rawfilemd5, Some(md5));
    assert_eq!(upload.params.thumb_filesize, Some((thumb.len() as u64 + 15) / 16 * 16));
}

#[test]
fn image_without_thumbnail_is_sealed_too() {
    let key = AesKey::from_slice(&[4; 16]).unwrap();
    let upload = image_upload("bob", b"data", &key, "id".to_string(), &None);
    assert_eq!(upload.params.filekey, "id");
    assert_eq!(upload.params.filesize, 16);
    assert_eq!(upload.params.thumb_rawsize, None);
    assert_eq!(upload.params.thumb_rawfilemd5, None);
    assert_eq!(upload.params.thumb_filesize, None);
    assert_eq!(upload.aes_key, key.to_base64_string());
    assert_eq!(upload.ciphertext, encrypt(&[4; 16], b"data").unwrap());
}

#[test]
fn uploads_can_be_opened_with_their_key() {
    let data = b"some data".to_vec();
    for upload in [
        prepare_image("u", &data),
        prepare_voice("u", &data),
        prepare_file("u", &data),
        prepare_video("u", &data, None).0,
    ] {
        assert_eq!(open(&upload.ciphertext, &upload.aes_key), data);
    }
}

#[test]
fn keys_are_new_each_time() {
    let a = prepare_voice("u", b"x");
    let b = prepare_voice("u", b"x");
    assert_ne!(a.aes_key, b.aes_key);
    assert_ne!(a.params.filekey, b.params.filekey);
}

#[test]
fn voice_and_files_go_out_as_files() {
    let key = AesKey::from_slice(&[1; 16]).unwrap();
    assert_eq!(voice_upload("u", b"x", &key, "k".to_string()).params.media_type, 3);
    assert_eq!(file_upload("u", b"x", &key, "k".to_string()).params.media_type, 3);
    assert_eq!(file_media_type("video/mp4"), 2);
    assert_eq!(file_media_type("video/x-matroska"), 2);
    assert_eq!(file_media_type("application/pdf"), 3);
}

#[test]
fn video_carries_its_thumbnail() {
    let key = AesKey::from_slice(&[2; 16]).unwrap();
    let thumb = (vec![9u8; 20], md5_hex(&[9u8; 20]));
    let upload = video_upload("u", b"video", &key, "k".to_string(), &Some(thumb.clone()));
    assert_eq!(upload.params.media_type, 2);
    assert_eq!(upload.params.thumb_rawsize, Some(20));
    assert_eq!(upload.params.thumb_rawfilemd5, Some(thumb.1.clone()));
    assert_eq!(upload.params.thumb_filesize, Some(32));
    let small_key = AesKey::from_slice(&[3; 16]).unwrap();
    let small = thumbnail_upload("u", &thumb, &small_key, "k2".to_string());
    assert_eq!(small.params.media_type, 1);
    assert_eq!(small.params.filekey, "k2");
    assert_eq!(small.params.rawsize, 20);
    assert_eq!(small.params.rawfilemd5, thumb.1);
    assert_eq!(small.params.filesize, 32);
    assert_eq!(decrypt(&[3; 16], &small.ciphertext).unwrap(), thumb.0);
}

#[test]
fn video_thumbnail_opens_with_its_key() {
    let (video, small) = prepare_video("u", b"video", Some(vec![7; 5]));
    let small = small.unwrap();
    assert_eq!(open(&video.ciphertext, &video.aes_key), b"video");
    assert_eq!(open(&small.ciphertext, &small.aes_key), vec![7; 5]);
    assert_ne!(video.aes_key, small.aes_key);
    assert_eq!(small.params.rawfilemd5, md5_hex(&[7; 5]));
    assert!(prepare_video("u", b"video", None).1.is_none());
}

#[test]
fn downloads_are_opened() {
    let key = AesKey::from_slice(&[5; 16]).unwrap();
    let text = key.to_base64_string();
    let gif = b"GIF89a".to_vec();
    let sealed = encrypt(key.as_bytes(), &gif).unwrap();
    assert_eq!(open_image(&sealed, &text, 16).unwrap(), (gif.clone(), "image/gif"));
    assert_eq!(open_file(&sealed, &text).unwrap(), (gif, "image/gif"));
    let plain = encrypt(key.as_bytes(), b"plain").unwrap();
    assert_eq!(open_file(&plain, &text).unwrap().1, "application/octet-stream");
}

#[test]
fn large_downloads_are_refused_first() {
    let err = open_image(&[0; 17], "no key", 16).unwrap_err();
    assert_eq!(err, MediaError::ImageTooLarge(17, 16));
    assert_eq!(err.message(MediaKind::Image), "WeXin: image too large (17 bytes, max 16 bytes)");
    assert_eq!(MAX_FILE_SIZE, 100 * 1024 * 1024);
    assert_eq!(
        MediaError::FileTooLarge(104_857_601, MAX_FILE_SIZE).message(MediaKind::File),
        "WeXin: file too large (104857601 bytes, max 104857600 bytes)"
    );
}

#[test]
fn largest_file_is_let_through() {
    let data = vec![0u8; MAX_FILE_SIZE as usize + 16];
    assert_eq!(
        open_file(&data, "AAAA").unwrap_err(),
        MediaError::FileTooLarge(MAX_FILE_SIZE + 16, MAX_FILE_SIZE)
    );
    assert_eq!(
        open_file(&data[16..], "AAAA").unwrap_err(),
        MediaError::Key(CryptoError::KeyLength(3))
    );
}

#[test]
fn broken_downloads_are_refused() {
    let text = AesKey::from_slice(&[5; 16]).unwrap().to_base64_string();
    let err = open_voice(&[0; 5], &text).unwrap_err();
    assert_eq!(err, MediaError::Cipher(CryptoError::CiphertextLength(5)));
    assert_eq!(err.message(MediaKind::Image), "AES decrypt");
    assert_eq!(err.message(MediaKind::Voice), "AES decrypt voice");
    assert_eq!(err.message(MediaKind::Video), "AES decrypt file");
    let err = open_voice(&[], "?").unwrap_err();
    assert_eq!(err, MediaError::Key(CryptoError::NotBase64));
    assert_eq!(err.message(MediaKind::Image), "parse AES key");
    assert_eq!(err.message(MediaKind::Voice), "parse voice AES key");
    assert_eq!(err.message(MediaKind::File), "parse file AES key");
}

#[test]
fn extensions_are_those_of_paths() {
    for path in [
        "https://cdn.example/a/b.JPG",
        "https://cdn.example/a.b/c",
        "https://cdn.example/a.b/",
        "x.tar.gz",
        "x.",
        ".hidden",
        "a/.hidden",
        "a/.hidden.txt",
        "..",
        "a/..",
        "a..",
        ".",
        "./",
        "/",
        "",
        "a.b/.",
        "a.b//",
        "a.b/./",
        "a.b/..",
        "url.jpg?token=a.b",
    ] {
        let expected = std::path::Path::new(path).extension().and_then(|e| e.to_str());
        assert_eq!(extension(path).as_deref(), expected, "{path}");
    }
}

#[test]
fn files_are_named_after_their_address() {
    assert_eq!(download_extension("https://cdn/a.PDF", "image/png"), "pdf");
    assert_eq!(download_extension("https://cdn/a.ÄB", "image/png"), "äb");
    assert_eq!(download_extension("cdn", "image/png"), "png");
    assert_eq!(extension_or_default(Some("zip".to_string()), "image/png"), "zip");
    assert_eq!(extension_or_default(None, "text/html"), "bin");
    let name = download_file_name("https://cdn/a.PDF", "image/png");
    assert!(name.starts_with("weixin_file_") && name.ends_with(".pdf"));
    assert_eq!(name.len(), 12 + 36 + 4);
}

#[test]
fn names_have_prefix_and_extension() {
    assert_eq!(temp_file_name("weixin_img_", "7", "jpg"), "weixin_img_7.jpg");
    assert!(image_file_name("image/gif").ends_with(".gif"));
    assert!(voice_file_name().starts_with("weixin_voice_"));
    assert!(voice_file_name().ends_with(".silk"));
    assert!(thumbnail_file_name().starts_with("weixin_thumb_"));
    assert_ne!(thumbnail_file_name(), thumbnail_file_name());
    assert_eq!(attachment_name("image/jpeg"), "weixin_image.jpg");
}

#[test]
fn silk_files_are_told_by_their_extension() {
    assert!(is_silk_file("/tmp/a.silk"));
    assert!(is_silk_file("a.SiLk"));
    assert!(!is_silk_file("a.wav"));
    assert!(!is_silk_file("silk"));
    assert!(!is_silk_file(".silk"));
}

#[test]
fn voice_falls_back_to_the_saved_file() {
    assert_eq!(
        voice_paths(Some("a.wav".to_string()), "a.silk".to_string()),
        ("a.wav".to_string(), "a.silk".to_string())
    );
    assert_eq!(
        voice_paths(None, "a.silk".to_string()),
        ("a.silk".to_string(), "a.silk".to_string())
    );
    assert_eq!(encoded_or_input(true, "e".to_string(), "i".to_string()), "e");
    assert_eq!(encoded_or_input(false, "e".to_string(), "i".to_string()), "i");
}

#[test]
fn ffmpeg_gets_its_arguments() {
    assert_eq!(
        pcm_arguments("in", "out").join(" "),
        "-y -i in -acodec pcm_s16le -ar 16000 -ac 1 out"
    );
    assert_eq!(
        silk_arguments("in", "out").join(" "),
        "-y -i in -c:a libopus -ar 16000 -ac 1 out"
    );
    assert_eq!(
        thumbnail_arguments("v", "t").join(" "),
        "-y -ss 00:00:02 -i v -vframes 1 -q:v 2 -s 200x200 t"
    );
}

#[test]
fn media_need_place_and_key() {
    let some = Some("x".to_string());
    assert_eq!(fetchable(&some, &some), Some(("x", "x")));
    assert_eq!(fetchable(&some, &None), None);
    assert_eq!(fetchable(&None, &some), None);
}

#[test]
fn refused_uploads_name_the_kind() {
    assert_eq!(MediaKind::Image.upload_failed("no").message, "CDN image upload failed: no");
    assert_eq!(MediaKind::Voice.upload_failed("no").message, "CDN voice upload failed: no");
    assert_eq!(MediaKind::File.upload_failed("no").message, "CDN file upload failed: no");
    assert_eq!(MediaKind::Video.upload_failed("no").message, "CDN video upload failed: no");
}
