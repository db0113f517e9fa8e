use cloud_p2p::codec::{CodecError, Raster};
use cloud_p2p::encoder::{
    carrier_capacity, embed_bytes, embed_text_bytes, extract_bytes, extract_text_bytes, image_kind, ImageKind,
    ServerCore,
};

fn raster(width: u32, height: u32, fill: u8) -> Raster {
    Raster { width, height, pixels: vec![fill; (width * height * 4) as usize] }
}

fn png(width: u32, height: u32) -> Vec<u8> {
    let image = image::RgbaImage::from_fn(width, height, |x, y| {
        image::Rgba([(x * 7 + y) as u8, (x + y * 13) as u8, (x * y) as u8, 255])
    });
    let mut out = Vec::new();
    image.write_to(&mut std::io::Cursor::new(&mut out), image::ImageFormat::Png).unwrap();
    out
}

#[test]
fn bits_go_into_the_lowest_bit_of_red_green_and_blue() {
    // 4 x 4 pixels carry 48 bits: the length and two bytes of payload.
    let mut image = raster(4, 4, 0xFE);
    assert_eq!(image.embed_payload(&[0xAB, 0x01]), Ok(()));
    let lows: Vec<u8> = image.pixels.chunks(4).flat_map(|p| p[..3].iter().map(|b| b & 1)).collect();
    let mut expected = vec![0u8; 48];
    expected[30] = 1; // length 2 = ...0000_0010
    for (i, bit) in [1, 0, 1, 0, 1, 0, 1, 1].iter().enumerate() {
        expected[32 + i] = *bit; // 0xAB
    }
    expected[47] = 1; // 0x01
    assert_eq!(lows, expected);
    // Alpha and the upper seven bits of every byte are as they were.
    assert!(image.pixels.chunks(4).all(|p| p[3] == 0xFE));
    assert!(image.pixels.iter().all(|b| b & 0xFE == 0xFE));
}

#[test]
fn embedding_sets_and_clears_bits() {
    let mut image = raster(4, 4, 0xFF);
    assert_eq!(image.embed_payload(&[0x00, 0xFF]), Ok(()));
    assert_eq!(image.extract_payload(), Ok(vec![0x00, 0xFF]));
    assert_eq!(image.pixels[0], 0xFE);
    assert_eq!(image.pixels[3], 0xFF);
}

#[test]
fn payload_comes_back_as_it_went_in() {
    let payload: Vec<u8> = (0..=255u8).collect();
    let mut image = raster(30, 30, 0x5A);
    assert_eq!(image.embed_payload(&payload), Ok(()));
    assert_eq!(image.extract_payload(), Ok(payload));
    let mut empty = raster(4, 3, 0x00);
    assert_eq!(empty.embed_payload(&[]), Ok(()));
    assert_eq!(empty.extract_payload(), Ok(vec![]));
}

#[test]
fn a_payload_that_does_not_fit_is_refused_and_the_carrier_untouched() {
    // 4 x 4 pixels: 48 bits, room for the length and 2 bytes.
    let mut image = raster(4, 4, 0x33);
    assert_eq!(image.capacity(), Some(2));
    assert_eq!(image.usable_bits(), 48);
    assert_eq!(image.embed_payload(&[1, 2, 3]), Err(CodecError::TooSmall));
    assert_eq!(image.pixels, vec![0x33; 64]);
    assert_eq!(image.embed_payload(&[1, 2]), Ok(()));
    let mut tiny = raster(3, 3, 0);
    assert_eq!(tiny.capacity(), None);
    assert_eq!(tiny.embed_payload(&[]), Err(CodecError::TooSmall));
    assert_eq!(raster(0, 0, 0).capacity(), None);
}

#[test]
fn an_image_that_announces_too_much_is_refused() {
    let all_ones = raster(4, 4, 0xFF);
    assert_eq!(all_ones.extract_payload(), Err(CodecError::Length));
    assert_eq!(raster(3, 3, 0).extract_payload(), Err(CodecError::Length));
    assert_eq!(raster(4, 4, 0).extract_payload(), Ok(vec![]));
}

#[test]
fn a_raster_with_missing_pixels_is_no_image() {
    let mut short = Raster { width: 4, height: 4, pixels: vec![0; 63] };
    assert!(!short.is_well_formed());
    assert_eq!(short.embed_payload(&[1]), Err(CodecError::Format));
    assert_eq!(short.extract_payload(), Err(CodecError::Format));
    assert!(raster(4, 4, 0).is_well_formed());
    assert_eq!(raster(5, 7, 0).pixel_count(), 35);
}

#[test]
fn errors_have_short_classifiers() {
    assert_eq!(CodecError::TooSmall.classifier(), "too_small");
    assert_eq!(CodecError::Format.classifier(), "format");
    assert_eq!(CodecError::Length.classifier(), "length");
}

#[test]
fn secret_survives_the_trip_through_a_png() {
    let carrier = png(64, 48);
    let secret: Vec<u8> = (0..500u32).map(|i| (i * 31 % 251) as u8).collect();
    let stego = embed_bytes(&carrier, &secret).expect("encoded");
    assert_ne!(stego, carrier);
    assert_eq!(&stego[..8], &[0x89, b'P', b'N', b'G', 0x0D, 0x0A, 0x1A, 0x0A]);
    assert_eq!(extract_bytes(&stego), Ok(secret));
    let decoded = image::load_from_memory(&stego).unwrap();
    assert_eq!((decoded.width(), decoded.height()), (64, 48));
}

#[test]
fn text_survives_the_trip_through_a_png() {
    let carrier = png(40, 40);
    let stego = embed_text_bytes(&carrier, "username:alice,views:5 \u{2713}").expect("encoded");
    assert_eq!(extract_text_bytes(&stego), Ok("username:alice,views:5 \u{2713}".to_string()));
    let binary = embed_bytes(&carrier, &[0xFF, 0xFE]).expect("encoded");
    assert_eq!(extract_text_bytes(&binary), Err(CodecError::Format));
}

#[test]
fn bytes_that_are_no_image_are_refused() {
    assert_eq!(embed_bytes(b"not an image", &[1]), Err(CodecError::Format));
    assert_eq!(extract_bytes(b"not an image"), Err(CodecError::Format));
    assert_eq!(extract_bytes(&[]), Err(CodecError::Format));
    assert_eq!(carrier_capacity(b"not an image"), Err(CodecError::Format));
}

#[test]
fn capacity_is_three_bits_a_pixel_less_the_length() {
    assert_eq!(carrier_capacity(&png(64, 48)), Ok(64 * 48 * 3 / 8 - 4));
    assert_eq!(carrier_capacity(&png(4, 4)), Ok(2));
    assert_eq!(carrier_capacity(&png(3, 3)), Err(CodecError::TooSmall));
}

#[test]
fn a_secret_that_cannot_fit_the_carrier_is_reported_as_too_small() {
    let core = ServerCore::from_bytes(2, png(4, 4));
    assert_eq!(core.server_id(), 2);
    assert_eq!(core.capacity(), Ok(2));
    let encoded = core.encrypt_image(1, "C1".to_string(), vec![0xAB; 3]);
    assert_eq!(encoded, Err(CodecError::TooSmall));
    assert_eq!(ServerCore::outcome(encoded), Err("too_small".to_string()));
    let fits = core.encrypt_image(1, "C1".to_string(), vec![0xAB; 2]).expect("encoded");
    assert_eq!(extract_bytes(&fits), Ok(vec![0xAB; 2]));
    assert_eq!(ServerCore::outcome(Ok(vec![1, 2])), Ok(vec![1, 2]));
}

#[test]
fn text_can_be_hidden_in_an_image_of_the_client() {
    let core = ServerCore::from_bytes(1, png(4, 4));
    let stego = core
        .encrypt_image_with_text(9, "C1".to_string(), png(32, 32), "hello".to_string())
        .expect("encoded");
    assert_eq!(extract_text_bytes(&stego), Ok("hello".to_string()));
}

fn jpeg(width: u32, height: u32) -> Vec<u8> {
    let image = image::RgbImage::from_fn(width, height, |x, y| image::Rgb([(x * 5) as u8, (y * 3) as u8, 128]));
    let mut out = Vec::new();
    image.write_to(&mut std::io::Cursor::new(&mut out), image::ImageFormat::Jpeg).unwrap();
    out
}

#[test]
fn the_first_bytes_tell_the_kind_of_image() {
    assert_eq!(image_kind(&png(4, 4)), Some(ImageKind::Png));
    assert_eq!(image_kind(&jpeg(8, 8)), Some(ImageKind::Jpeg));
    assert_eq!(image_kind(&[0x89, b'P', b'N', b'G', 0x0D, 0x0A, 0x1A, 0x0A]), Some(ImageKind::Png));
    assert_eq!(image_kind(&[0x89, b'P', b'N', b'G', 0x0D, 0x0A, 0x1A]), None);
    assert_eq!(image_kind(&[0xFF, 0xD8, 0xFF]), Some(ImageKind::Jpeg));
    assert_eq!(image_kind(&[0xFF, 0xD8]), None);
    assert_eq!(image_kind(b"GIF89a......"), None);
    assert_eq!(image_kind(b"BM......"), None);
    assert_eq!(image_kind(&[]), None);
}

#[test]
fn a_jpeg_carrier_is_read_and_a_png_is_written() {
    let carrier = jpeg(32, 32);
    let secret = b"kept in a photo".to_vec();
    let stego = embed_bytes(&carrier, &secret).expect("encoded");
    assert_eq!(image_kind(&stego), Some(ImageKind::Png));
    assert_eq!(extract_bytes(&stego), Ok(secret));
    assert_eq!(carrier_capacity(&carrier), Ok(32 * 32 * 3 / 8 - 4));
}

#[test]
fn a_signature_without_an_image_behind_it_is_refused() {
    assert_eq!(extract_bytes(&[0x89, b'P', b'N', b'G', 0x0D, 0x0A, 0x1A, 0x0A, 1, 2, 3]), Err(CodecError::Format));
    assert_eq!(embed_bytes(&[0xFF, 0xD8, 0xFF, 0xE0, 0, 0], &[1]), Err(CodecError::Format));
    let mut cut_short = png(16, 16);
    cut_short.truncate(40);
    assert_eq!(extract_bytes(&cut_short), Err(CodecError::Format));
}
