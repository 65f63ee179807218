use fuzzysearch::error::Error;
use fuzzysearch::extract::{can_decode, extract, farbfeld_size, fingerprint_of_grid, may_decode};
use fuzzysearch::extract::{LumaGrid, Undecodable};
use fuzzysearch::heads::{fits_screen, gif_head, ico_directory_fits, GifHead};
use fuzzysearch::fingerprint::hamming_distance;

fn shade(x: u32, y: u32, seed: u32) -> u8 {
    ((x * 7 + y * 13 + (x * y) % 31 + seed * 5) % 256) as u8
}

fn picture(width: u32, height: u32, seed: u32) -> image::DynamicImage {
    let mut buffer = image::RgbImage::new(width, height);
    for y in 0..height {
        for x in 0..width {
            let v = shade(x, y, seed);
            buffer.put_pixel(x, y, image::Rgb([v, v.wrapping_mul(3), v.wrapping_add(40)]));
        }
    }
    image::DynamicImage::ImageRgb8(buffer)
}

fn encoded(picture: &image::DynamicImage, format: image::ImageOutputFormat) -> Vec<u8> {
    let mut bytes: Vec<u8> = Vec::new();
    picture.write_to(&mut bytes, format).unwrap();
    bytes
}

fn probe(bytes: &[u8]) -> Option<(u32, u32)> {
    let reader = image::io::Reader::new(std::io::Cursor::new(bytes)).with_guessed_format().ok()?;
    reader.into_dimensions().ok()
}

fn decode(bytes: &[u8]) -> Result<LumaGrid, Undecodable> {
    if !may_decode(bytes, probe(bytes)) {
        return Err(Undecodable);
    }
    match image::load_from_memory(bytes) {
        Ok(decoded) => {
            let luma = decoded.to_luma8();
            Ok(LumaGrid { width: luma.width(), height: luma.height(), pixels: luma.into_raw() })
        }
        Err(_) => Err(Undecodable),
    }
}

fn fingerprint(bytes: &[u8]) -> Result<u64, Error> {
    extract(decode(bytes))
}

fn reference_hash(picture: &image::DynamicImage) -> u64 {
    let hasher = img_hash::HasherConfig::with_bytes_type::<[u8; 8]>()
        .hash_alg(img_hash::HashAlg::Gradient)
        .hash_size(8, 8)
        .preproc_dct()
        .to_hasher();
    let hash = hasher.hash_image(picture);
    let mut bytes = [0u8; 8];
    bytes.copy_from_slice(hash.as_bytes());
    u64::from_be_bytes(bytes)
}

#[test]
fn extract_gives_the_gradient_hash_of_the_image() {
    let picture = picture(64, 48, 1);
    let bytes = encoded(&picture, image::ImageOutputFormat::Png);
    let fingerprint = fingerprint(&bytes).unwrap();
    assert_eq!(fingerprint, reference_hash(&picture));
    assert_ne!(fingerprint.to_be_bytes().to_vec(), bytes);
}

#[test]
fn extract_reads_more_than_one_format() {
    let picture = picture(40, 40, 2);
    let png = fingerprint(&encoded(&picture, image::ImageOutputFormat::Png)).unwrap();
    let bmp = fingerprint(&encoded(&picture, image::ImageOutputFormat::Bmp)).unwrap();
    assert_eq!(png, bmp);
    assert_eq!(png, reference_hash(&picture));
}

#[test]
fn extract_is_deterministic() {
    let bytes = encoded(&picture(33, 57, 3), image::ImageOutputFormat::Png);
    let first = fingerprint(&bytes);
    let second = fingerprint(&bytes);
    let third = fingerprint(&bytes.clone());
    assert!(first.is_ok());
    assert_eq!(first, second);
    assert_eq!(first, third);
}

#[test]
fn extract_tells_different_images_apart() {
    let flat = image::DynamicImage::ImageRgb8(image::RgbImage::from_pixel(32, 32, image::Rgb([9, 9, 9])));
    let a = fingerprint(&encoded(&picture(32, 32, 4), image::ImageOutputFormat::Png)).unwrap();
    let b = fingerprint(&encoded(&flat, image::ImageOutputFormat::Png)).unwrap();
    assert_ne!(a, b);
    assert!(hamming_distance(a, b) > 0);
}

#[test]
fn extract_refuses_bytes_that_are_no_image() {
    assert_eq!(fingerprint(&[]), Err(Error::Decode));
    assert_eq!(fingerprint(b"this is not an image"), Err(Error::Decode));
    assert_eq!(fingerprint(&[0u8; 64]), Err(Error::Decode));
}

#[test]
fn extract_refuses_a_truncated_image() {
    let bytes = encoded(&picture(64, 64, 5), image::ImageOutputFormat::Png);
    assert!(fingerprint(&bytes).is_ok());
    assert_eq!(fingerprint(&bytes[..bytes.len() / 2]), Err(Error::Decode));
    assert_eq!(fingerprint(&bytes[..12]), Err(Error::Decode));
}

#[test]
fn grid_fingerprint_is_the_hash_of_the_grey_image() {
    let picture = picture(20, 10, 6);
    let luma = picture.to_luma8();
    let grid = LumaGrid { width: 20, height: 10, pixels: luma.clone().into_raw() };
    let fingerprint = fingerprint_of_grid(grid).unwrap();
    assert_eq!(fingerprint, reference_hash(&image::DynamicImage::ImageLuma8(luma)));
    assert_eq!(fingerprint, reference_hash(&picture));
}

#[test]
fn grid_without_pixels_has_no_fingerprint() {
    assert_eq!(fingerprint_of_grid(LumaGrid { width: 0, height: 0, pixels: Vec::new() }), Err(Error::Decode));
    assert_eq!(fingerprint_of_grid(LumaGrid { width: 0, height: 4, pixels: vec![1; 16] }), Err(Error::Decode));
    assert_eq!(fingerprint_of_grid(LumaGrid { width: 4, height: 0, pixels: vec![1; 16] }), Err(Error::Decode));
}

#[test]
fn grid_with_too_few_pixels_has_no_fingerprint() {
    assert_eq!(fingerprint_of_grid(LumaGrid { width: 4, height: 4, pixels: vec![1; 15] }), Err(Error::Decode));
    assert!(fingerprint_of_grid(LumaGrid { width: 4, height: 4, pixels: vec![1; 16] }).is_ok());
    assert_eq!(
        fingerprint_of_grid(LumaGrid { width: u32::MAX, height: u32::MAX, pixels: vec![1; 16] }),
        Err(Error::Decode)
    );
}

fn dds_header(width: u32, height: u32) -> Vec<u8> {
    let mut bytes: Vec<u8> = Vec::new();
    bytes.extend_from_slice(b"DDS ");
    bytes.extend_from_slice(&124u32.to_le_bytes());
    bytes.extend_from_slice(&0x1007u32.to_le_bytes());
    bytes.extend_from_slice(&height.to_le_bytes());
    bytes.extend_from_slice(&width.to_le_bytes());
    bytes.extend_from_slice(&[0u8; 12]);
    bytes.extend_from_slice(&[0u8; 44]);
    bytes.extend_from_slice(&32u32.to_le_bytes());
    bytes.extend_from_slice(&4u32.to_le_bytes());
    bytes.extend_from_slice(b"DXT1");
    bytes.extend_from_slice(&[0u8; 20]);
    bytes.extend_from_slice(&[0u8; 20]);
    bytes
}

fn farbfeld(width: u32, height: u32, pixels: usize) -> Vec<u8> {
    let mut bytes: Vec<u8> = Vec::new();
    bytes.extend_from_slice(b"farbfeld");
    bytes.extend_from_slice(&width.to_be_bytes());
    bytes.extend_from_slice(&height.to_be_bytes());
    for i in 0..pixels {
        let v = ((i * 2654435761) % 65536) as u16;
        bytes.extend_from_slice(&v.to_be_bytes());
        bytes.extend_from_slice(&v.wrapping_mul(3).to_be_bytes());
        bytes.extend_from_slice(&v.wrapping_add(977).to_be_bytes());
        bytes.extend_from_slice(&u16::MAX.to_be_bytes());
    }
    bytes
}

#[test]
fn extract_refuses_a_dds_image_without_width() {
    let bytes = dds_header(0, 4);
    assert_eq!(bytes.len(), 128);
    assert_eq!(fingerprint(&bytes), Err(Error::Decode));
    assert_eq!(fingerprint(&dds_header(0, 0)), Err(Error::Decode));
    assert_eq!(fingerprint(&dds_header(4, 0)), Err(Error::Decode));
}

#[test]
fn extract_refuses_an_image_too_large_to_allocate() {
    assert_eq!(fingerprint(&farbfeld(0x4000_0000, 0x4000_0000, 0)), Err(Error::Decode));
    assert_eq!(fingerprint(&farbfeld(u32::MAX, u32::MAX, 4)), Err(Error::Decode));
    assert_eq!(fingerprint(&dds_header(0x8000_0000, 0x8000_0000)), Err(Error::Decode));
}

#[test]
fn extract_refuses_a_farbfeld_image_without_pixels() {
    assert_eq!(fingerprint(&farbfeld(0, 0, 0)), Err(Error::Decode));
    assert_eq!(fingerprint(&farbfeld(0, 7, 0)), Err(Error::Decode));
    assert_eq!(fingerprint(&farbfeld(7, 0, 0)), Err(Error::Decode));
}

#[test]
fn extract_reads_a_farbfeld_image() {
    let bytes = farbfeld(12, 9, 12 * 9);
    let picture = image::load_from_memory(&bytes).unwrap();
    assert_eq!(fingerprint(&bytes), Ok(reference_hash(&picture)));
    assert_eq!(fingerprint(&bytes[..bytes.len() - 5]), Err(Error::Decode));
}

#[test]
fn farbfeld_size_reads_the_head() {
    assert_eq!(farbfeld_size(&farbfeld(12, 9, 0)), Some((12, 9)));
    assert_eq!(farbfeld_size(&farbfeld(0x0102_0304, 0xfffe_fdfc, 1)), Some((0x0102_0304, 0xfffe_fdfc)));
    assert_eq!(farbfeld_size(&farbfeld(12, 9, 0)[..15]), None);
    assert_eq!(farbfeld_size(b"farbfelt\0\0\0\x01\0\0\0\x01"), None);
    assert_eq!(farbfeld_size(b"Farbfeld\0\0\0\x01\0\0\0\x01"), None);
    assert_eq!(farbfeld_size(&[]), None);
    assert_eq!(farbfeld_size(&dds_header(4, 4)), None);
}

#[test]
fn sizes_that_are_decoded() {
    assert!(can_decode(1, 1));
    assert!(can_decode(20000, 20000));
    assert!(can_decode(0x1fff_ffff, 1));
    assert!(can_decode(1, 0x1fff_ffff));
    assert!(!can_decode(0x2000_0000, 1));
    assert!(!can_decode(65536, 65536));
    assert!(!can_decode(0, 1));
    assert!(!can_decode(1, 0));
    assert!(!can_decode(0, 0));
    assert!(!can_decode(u32::MAX, u32::MAX));
}

#[test]
fn decoding_is_not_attempted_on_a_size_that_is_not_decoded() {
    assert!(may_decode(b"anything", None));
    assert!(may_decode(b"anything", Some((3, 4))));
    assert!(!may_decode(b"anything", Some((0, 4))));
    assert!(!may_decode(b"anything", Some((u32::MAX, u32::MAX))));
    assert!(may_decode(&farbfeld(3, 4, 0), None));
    assert!(may_decode(&farbfeld(3, 4, 0), Some((0, 0))));
    assert!(!may_decode(&farbfeld(0, 4, 0), None));
    assert!(!may_decode(&farbfeld(0, 4, 0), Some((3, 4))));
    assert!(!may_decode(&farbfeld(0x4000_0000, 0x4000_0000, 0), None));
}

#[test]
fn a_grey_map_whose_size_wraps_is_not_decoded() {
    let bytes = b"P5 65536 65536 255\n";
    assert_eq!(probe(bytes), Some((65536, 65536)));
    assert!(!may_decode(bytes, probe(bytes)));
    assert_eq!(fingerprint(bytes), Err(Error::Decode));
}

#[test]
fn bytes_that_did_not_decode_have_no_fingerprint() {
    assert_eq!(extract(Err(Undecodable)), Err(Error::Decode));
}

#[test]
fn extract_is_the_fingerprint_of_the_grid() {
    let luma = picture(20, 10, 8).to_luma8();
    let grid = LumaGrid { width: 20, height: 10, pixels: luma.into_raw() };
    assert_eq!(extract(Ok(grid.clone())), fingerprint_of_grid(grid.clone()));
    assert_eq!(extract(Ok(grid.clone())), extract(Ok(grid)));
    assert_eq!(extract(Ok(LumaGrid { width: 0, height: 0, pixels: Vec::new() })), Err(Error::Decode));
}

fn gif(screen: (u16, u16), table: bool, extensions: usize, frame: (u16, u16, u16, u16)) -> Vec<u8> {
    let mut bytes: Vec<u8> = Vec::new();
    bytes.extend_from_slice(b"GIF89a");
    bytes.extend_from_slice(&screen.0.to_le_bytes());
    bytes.extend_from_slice(&screen.1.to_le_bytes());
    bytes.extend_from_slice(&[if table { 0x80 } else { 0x00 }, 0, 0]);
    if table {
        bytes.extend_from_slice(&[0, 0, 0, 255, 255, 255]);
    }
    for _ in 0..extensions {
        bytes.extend_from_slice(&[0x21, 0xf9, 4, 0, 0, 0, 0, 0]);
        bytes.extend_from_slice(&[0x21, 0xfe, 2, 0x2c, 0x2c, 1, 0x2c, 0]);
    }
    bytes.push(0x2c);
    bytes.extend_from_slice(&frame.0.to_le_bytes());
    bytes.extend_from_slice(&frame.1.to_le_bytes());
    bytes.extend_from_slice(&frame.2.to_le_bytes());
    bytes.extend_from_slice(&frame.3.to_le_bytes());
    bytes.extend_from_slice(&[0, 2, 1]);
    bytes
}

fn ico(entries: &[(u32, u32)]) -> Vec<u8> {
    let mut bytes: Vec<u8> = vec![0, 0, 1, 0];
    bytes.extend_from_slice(&(entries.len() as u16).to_le_bytes());
    for (length, offset) in entries {
        bytes.extend_from_slice(&[1, 1, 0, 0, 1, 0, 32, 0]);
        bytes.extend_from_slice(&length.to_le_bytes());
        bytes.extend_from_slice(&offset.to_le_bytes());
    }
    bytes
}

#[test]
fn gif_head_is_read_up_to_the_first_frame() {
    assert_eq!(
        gif_head(&gif((1, 1), true, 0, (0, 0, 2, 2))),
        Some(GifHead { screen_width: 1, screen_height: 1, left: 0, top: 0, width: 2, height: 2 })
    );
    assert_eq!(
        gif_head(&gif((0x0102, 0x0304), false, 3, (5, 6, 0x0708, 0x090a))),
        Some(GifHead {
            screen_width: 0x0102,
            screen_height: 0x0304,
            left: 5,
            top: 6,
            width: 0x0708,
            height: 0x090a,
        })
    );
}

#[test]
fn gif_head_of_other_bytes() {
    assert_eq!(gif_head(&[]), None);
    assert_eq!(gif_head(b"GIF89a"), None);
    assert_eq!(gif_head(b"GIF88a\x01\0\x01\0\0\0\0\x2c\0\0\0\0\x01\0\x01\0\0"), None);
    assert_eq!(gif_head(b"GIF89a\x01\0\x01\0\0\0\0\x3b"), None);
    let whole = gif((4, 4), true, 1, (0, 0, 4, 4));
    assert!(gif_head(&whole).is_some());
    assert_eq!(gif_head(&whole[..whole.len() - 4]), None);
    assert_eq!(gif_head(&whole[..20]), None);
    assert_eq!(gif_head(&farbfeld(3, 4, 0)), None);
}

#[test]
fn frame_larger_than_the_screen_does_not_fit() {
    let head = |screen: (u16, u16), frame: (u16, u16, u16, u16)| GifHead {
        screen_width: screen.0,
        screen_height: screen.1,
        left: frame.0,
        top: frame.1,
        width: frame.2,
        height: frame.3,
    };
    assert!(!fits_screen(&head((1, 1), (0, 0, 2, 2))));
    assert!(!fits_screen(&head((4, 4), (0, 0, 2, 9))));
    assert!(fits_screen(&head((4, 4), (0, 0, 4, 4))));
    assert!(fits_screen(&head((4, 4), (0, 0, 2, 8))));
    assert!(fits_screen(&head((4, 4), (0, 0, 3, 3))));
    assert!(fits_screen(&head((1, 1), (1, 0, 2, 2))));
    assert!(fits_screen(&head((u16::MAX, u16::MAX), (0, 0, u16::MAX, u16::MAX))));
    assert!(!fits_screen(&head((u16::MAX, u16::MAX - 1), (0, 0, u16::MAX, u16::MAX))));
}

#[test]
fn a_gif_whose_frame_is_larger_than_its_screen_is_not_decoded() {
    let bytes = gif((1, 1), true, 0, (0, 0, 2, 2));
    assert_eq!(probe(&bytes), Some((1, 1)));
    assert!(!may_decode(&bytes, probe(&bytes)));
    assert_eq!(fingerprint(&bytes), Err(Error::Decode));
}

#[test]
fn a_gif_is_read() {
    let picture = picture(24, 16, 9);
    let mut bytes: Vec<u8> = Vec::new();
    {
        let mut encoder = image::gif::GifEncoder::new(&mut bytes);
        encoder.encode_frame(image::Frame::new(picture.to_rgba8())).unwrap();
    }
    let head = gif_head(&bytes).unwrap();
    assert_eq!((head.screen_width, head.screen_height), (24, 16));
    assert_eq!((head.left, head.top, head.width, head.height), (0, 0, 24, 16));
    assert!(may_decode(&bytes, probe(&bytes)));
    let decoded = image::load_from_memory(&bytes).unwrap();
    assert_eq!(fingerprint(&bytes), Ok(reference_hash(&decoded)));
}

#[test]
fn icon_directory_with_an_entry_that_overruns() {
    assert!(!ico_directory_fits(&ico(&[(0xffff_fff0, 0x20)])));
    assert!(!ico_directory_fits(&ico(&[(40, 22), (1, u32::MAX)])));
    assert!(ico_directory_fits(&ico(&[(u32::MAX, 0)])));
    assert!(ico_directory_fits(&ico(&[(40, 22), (0x7fff_ffff, 0x8000_0000)])));
    assert!(ico_directory_fits(&ico(&[])));
}

#[test]
fn icon_directory_of_other_bytes() {
    assert!(ico_directory_fits(&[]));
    assert!(ico_directory_fits(b"not an icon at all, but long enough to hold a directory"));
    let cut = ico(&[(0xffff_fff0, 0x20)]);
    assert!(ico_directory_fits(&cut[..cut.len() - 1]));
    let mut short = ico(&[(40, 22)]);
    short[4] = 9;
    assert!(ico_directory_fits(&short));
}

#[test]
fn an_icon_with_an_entry_that_overruns_is_not_decoded() {
    let bytes = ico(&[(0xffff_fff0, 0x20)]);
    assert!(!may_decode(&bytes, None));
    assert!(!may_decode(&bytes, Some((1, 1))));
    assert_eq!(fingerprint(&bytes), Err(Error::Decode));
}

#[test]
fn an_icon_is_read() {
    let picture = image::DynamicImage::ImageRgba8(picture(32, 32, 10).to_rgba8());
    let bytes = encoded(&picture, image::ImageOutputFormat::Ico);
    assert!(ico_directory_fits(&bytes));
    assert!(may_decode(&bytes, probe(&bytes)));
    let decoded = image::load_from_memory(&bytes).unwrap();
    assert_eq!(fingerprint(&bytes), Ok(reference_hash(&decoded)));
}
