use relay::imaging::{convert_to_png, ImageConvertError};
use relay::message::MessageType;
use relay::session::image_message;
use std::io::Cursor;

const PNG_SIGNATURE: [u8; 8] = [137, 80, 78, 71, 13, 10, 26, 10];

fn tiny_image_bytes(format: image::ImageFormat) -> Vec<u8> {
    let img = image::DynamicImage::ImageRgb8(image::RgbImage::from_pixel(
        2,
        2,
        image::Rgb([10, 200, 30]),
    ));
    let mut out = Cursor::new(Vec::new());
    img.write_to(&mut out, format).unwrap();
    out.into_inner()
}

#[test]
fn non_png_input_becomes_png() {
    let bmp = tiny_image_bytes(image::ImageFormat::Bmp);
    assert_ne!(&bmp[0..8], &PNG_SIGNATURE);
    let out = convert_to_png(bmp).unwrap();
    assert_eq!(&out[0..8], &PNG_SIGNATURE);
    // the produced bytes decode again, as a PNG
    assert_eq!(image::guess_format(&out).unwrap(), image::ImageFormat::Png);
    image::load_from_memory(&out).unwrap();
}

#[test]
fn png_input_passes_through_unchanged() {
    let png = tiny_image_bytes(image::ImageFormat::Png);
    assert_eq!(&png[0..8], &PNG_SIGNATURE);
    let out = convert_to_png(png.clone()).unwrap();
    assert_eq!(out, png);
}

#[test]
fn undecodable_input_is_refused() {
    assert_eq!(
        convert_to_png(vec![1, 2, 3, 4, 5, 6, 7, 8, 9]),
        Err(ImageConvertError::Undecodable)
    );
}

#[test]
fn image_message_carries_png_bytes() {
    let bmp = tiny_image_bytes(image::ImageFormat::Bmp);
    match image_message(bmp).unwrap() {
        MessageType::Image(data) => assert_eq!(&data[0..8], &PNG_SIGNATURE),
        other => panic!("expected an image message, got {:?}", other),
    }
}
