use fridge_monitor::picture::{
    decode_image_bytes, shown_picture, snapshot_or_empty, RgbaPicture,
};

#[test]
fn decodes_encoded_image_bytes_to_slint_image() {
    let image = decode_image_bytes(b"P6\n1 1\n255\n\xff\x00\x00").expect("PNM image should decode");
    let pixels = image
        .to_rgba8()
        .expect("decoded image should expose RGBA pixels");

    assert_eq!(pixels.width(), 1);
    assert_eq!(pixels.height(), 1);
}

#[test]
fn decoded_pixels_are_shown_as_rgba() {
    let image = decode_image_bytes(b"P6\n2 1\n255\n\xff\x00\x00\x01\x02\x03").unwrap();
    let pixels = image.to_rgba8().unwrap();
    assert_eq!((pixels.width(), pixels.height()), (2, 1));
    assert_eq!(pixels.as_bytes(), &[255, 0, 0, 255, 1, 2, 3, 255]);
}

#[test]
fn gray_picture_is_converted() {
    let image = decode_image_bytes(b"P5\n1 2\n255\n\x07\x09").unwrap();
    let pixels = image.to_rgba8().unwrap();
    assert_eq!((pixels.width(), pixels.height()), (1, 2));
    assert_eq!(pixels.as_bytes(), &[7, 7, 7, 255, 9, 9, 9, 255]);
}

#[test]
fn bytes_without_a_picture_are_refused() {
    assert!(decode_image_bytes(b"").is_err());
    assert!(decode_image_bytes(b"not a picture").is_err());
    assert!(decode_image_bytes(b"P6\n1 1\n255\n\xff").is_err());
}

#[test]
fn refusal_keeps_what_the_decoder_said() {
    let said = image::load_from_memory(b"not a picture").unwrap_err().to_string();
    let refusal = decode_image_bytes(b"not a picture").unwrap_err();
    assert_eq!(refusal.cause.to_string(), said);
}

#[test]
fn picture_in_memory_is_shown() {
    let picture = RgbaPicture {
        width: 1,
        height: 2,
        bytes: vec![1, 2, 3, 4, 5, 6, 7, 8],
    };
    let pixels = picture.to_image().to_rgba8().unwrap();
    assert_eq!((pixels.width(), pixels.height()), (1, 2));
    assert_eq!(pixels.as_bytes(), &[1, 2, 3, 4, 5, 6, 7, 8]);

    let shown = shown_picture(Ok(picture)).unwrap();
    assert_eq!(shown.size().width, 1);
    assert_eq!(shown.size().height, 2);
}

#[test]
fn decoder_error_is_passed_on() {
    let error = image::load_from_memory(b"").unwrap_err();
    let said = error.to_string();
    assert_eq!(shown_picture(Err(error)).unwrap_err().cause.to_string(), said);
}

#[test]
fn snapshot_that_is_missing_is_empty() {
    let shown = snapshot_or_empty(decode_image_bytes(b"P6\n1 1\n255\n\x01\x02\x03"));
    assert_eq!(shown.to_rgba8().unwrap().as_bytes(), &[1, 2, 3, 255]);
    let shown = snapshot_or_empty(decode_image_bytes(b""));
    assert!(shown.to_rgba8().is_none());
    assert_eq!((shown.size().width, shown.size().height), (0, 0));
}
