use raytracer::{Color, EncodeError, Image, Position};

fn bytes_of(image: &Image) -> Vec<u8> {
    image.to_vec()
}

#[test]
fn color_new_keeps_channels() {
    let c = Color::new(1, 2, 3);
    assert_eq!(c.red, 1);
    assert_eq!(c.green, 2);
    assert_eq!(c.blue, 3);
}

#[test]
fn color_to_vec_is_red_green_blue() {
    assert_eq!(Color::new(255, 0, 7).to_vec(), vec![255, 0, 7]);
}

#[test]
fn new_image_is_dark_grey() {
    let image = Image::new(3, 5);
    assert_eq!(image.width(), 3);
    assert_eq!(image.height(), 5);
    let bytes = bytes_of(&image);
    assert_eq!(bytes.len(), 45);
    assert!(bytes.iter().all(|b| *b == 30));
}

#[test]
fn empty_image_has_no_bytes() {
    assert!(Image::new(0, 4).to_vec().is_empty());
    assert!(Image::new(4, 0).to_vec().is_empty());
}

#[test]
fn set_pixel_uses_centred_y_up_coordinates() {
    let mut image = Image::new(3, 3);
    image.set_pixel(Position { x: -1, y: 1 }, Color::new(1, 1, 1));
    image.set_pixel(Position { x: 0, y: 0 }, Color::new(2, 2, 2));
    image.set_pixel(Position { x: 1, y: -1 }, Color::new(3, 3, 3));
    let bytes = bytes_of(&image);
    assert_eq!(&bytes[0..3], &[1, 1, 1]);
    assert_eq!(&bytes[12..15], &[2, 2, 2]);
    assert_eq!(&bytes[24..27], &[3, 3, 3]);
    assert_eq!(&bytes[3..6], &[30, 30, 30]);
    assert_eq!(image.get_pixel(Position { x: 0, y: 0 }), Color::new(2, 2, 2));
}

#[test]
fn set_all_pixels_paints_each_position() {
    let mut image = Image::new(3, 3);
    image.set_all_pixels(|p: Position| Color::new((p.x + 1) as u8, (p.y + 1) as u8, 9));
    // top row first: y == 1, x from -1 to 1
    assert_eq!(
        bytes_of(&image),
        vec![
            0, 2, 9, 1, 2, 9, 2, 2, 9, //
            0, 1, 9, 1, 1, 9, 2, 1, 9, //
            0, 0, 9, 1, 0, 9, 2, 0, 9,
        ]
    );
}

#[test]
fn set_all_pixels_on_even_width() {
    let mut image = Image::new(4, 1);
    image.set_all_pixels(|p: Position| Color::new((p.x + 10) as u8, p.y as u8, 0));
    assert_eq!(bytes_of(&image), vec![8, 0, 0, 9, 0, 0, 10, 0, 0, 11, 0, 0]);
}

#[test]
fn set_all_pixels_on_empty_image_does_nothing() {
    let mut image = Image::new(0, 2);
    image.set_all_pixels(|_p: Position| Color::new(0, 0, 0));
    assert!(bytes_of(&image).is_empty());
}

#[test]
fn encode_png_round_trips_through_a_decoder() {
    let mut image = Image::new(3, 3);
    image.set_all_pixels(|p: Position| Color::new((p.x + 1) as u8 * 100, (p.y + 1) as u8 * 50, 7));
    let encoded = image.encode_png().unwrap();
    assert_eq!(&encoded[0..8], &[137, 80, 78, 71, 13, 10, 26, 10]);
    let decoder = png::Decoder::new(&encoded[..]);
    let mut reader = decoder.read_info().unwrap();
    let mut buf = vec![0; reader.output_buffer_size()];
    let info = reader.next_frame(&mut buf).unwrap();
    assert_eq!(info.width, 3);
    assert_eq!(info.height, 3);
    assert_eq!(info.color_type, png::ColorType::Rgb);
    assert_eq!(info.bit_depth, png::BitDepth::Eight);
    buf.truncate(info.buffer_size());
    assert_eq!(buf, image.to_vec());
}

#[test]
fn encode_png_refuses_an_empty_picture() {
    assert_eq!(Image::new(0, 3).encode_png(), Err(EncodeError::Encoding));
    assert_eq!(Image::new(3, 0).encode_png(), Err(EncodeError::Encoding));
}
