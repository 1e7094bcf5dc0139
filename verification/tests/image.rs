use raytrs::color::Color;
use raytrs::image::{deliver, encode_png, to_rgb, ImageError};

#[test]
fn rgb_samples_drop_the_alpha() {
    let pixels = vec![Color::new(1, 2, 3, 4), Color::new(5, 6, 7, 8)];
    assert_eq!(to_rgb(&pixels), vec![1, 2, 3, 5, 6, 7]);
    assert_eq!(to_rgb(&vec![]), Vec::<u8>::new());
}

#[test]
fn encoding_rejects_an_empty_image() {
    assert_eq!(encode_png(&vec![], 0, 0), Err(ImageError::Empty));
    assert_eq!(encode_png(&vec![], 0, 5), Err(ImageError::Empty));
    assert_eq!(encode_png(&vec![Color::new(0, 0, 0, 255)], 1, 0), Err(ImageError::Empty));
}

#[test]
fn encoding_rejects_sides_beyond_32_bits() {
    let pixels = vec![Color::new(0, 0, 0, 255)];
    assert_eq!(encode_png(&pixels, 1usize << 32, 1), Err(ImageError::TooLarge));
    assert_eq!(encode_png(&pixels, 1, 1usize << 32), Err(ImageError::TooLarge));
}

#[test]
fn encoding_rejects_a_wrong_pixel_count() {
    let pixels = vec![Color::new(0, 0, 0, 255); 5];
    assert_eq!(encode_png(&pixels, 2, 3), Err(ImageError::SizeMismatch));
    assert_eq!(encode_png(&pixels, 5, 2), Err(ImageError::SizeMismatch));
    assert_eq!(encode_png(&pixels, u32::MAX as usize, u32::MAX as usize), Err(ImageError::SizeMismatch));
}

#[test]
fn encoded_image_decodes_to_the_same_samples() {
    let pixels = vec![
        Color::new(255, 0, 0, 255),
        Color::new(0, 255, 0, 10),
        Color::new(0, 0, 255, 255),
        Color::new(9, 8, 7, 0),
        Color::new(100, 50, 100, 255),
        Color::new(1, 2, 3, 255),
    ];
    let bytes = encode_png(&pixels, 3, 2).unwrap();
    assert_eq!(&bytes[..8], &[137u8, 80, 78, 71, 13, 10, 26, 10]);
    assert_ne!(bytes, to_rgb(&pixels));
    let decoder = png::Decoder::new(&bytes[..]);
    let mut reader = decoder.read_info().unwrap();
    let mut buf = vec![0u8; reader.output_buffer_size()];
    let info = reader.next_frame(&mut buf).unwrap();
    assert_eq!((info.width, info.height), (3, 2));
    assert!(matches!(info.color_type, png::ColorType::Rgb));
    assert!(matches!(info.bit_depth, png::BitDepth::Eight));
    assert_eq!(&buf[..info.buffer_size()], &to_rgb(&pixels)[..]);
}

#[test]
fn encoding_twice_gives_the_same_stream() {
    let pixels = vec![Color::new(3, 1, 4, 255); 12];
    assert_eq!(encode_png(&pixels, 4, 3), encode_png(&pixels, 4, 3));
}

#[test]
fn deliver_passes_a_stream_on() {
    assert_eq!(deliver(Ok(vec![1, 2, 3])), Ok(vec![1, 2, 3]));
}

#[test]
fn deliver_names_an_encoder_failure() {
    let mut out: Vec<u8> = Vec::new();
    let encoder = png::Encoder::new(&mut out, 0, 1);
    let failure = encoder.write_header().err().unwrap();
    assert_eq!(deliver(Err(failure)), Err(ImageError::Encoder));
}
