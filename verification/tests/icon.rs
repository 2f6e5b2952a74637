use cdg_player::icon::{Icon, IconError};

fn png(img: image::DynamicImage) -> Vec<u8> {
    let mut out = std::io::Cursor::new(Vec::new());
    img.write_to(&mut out, image::ImageFormat::Png).unwrap();
    out.into_inner()
}

#[test]
fn icon_is_decoded() {
    let pixels: Vec<u8> = (0..24).collect();
    let img = image::RgbaImage::from_raw(3, 2, pixels.clone()).unwrap();
    let icon = Icon::decode(&png(image::DynamicImage::ImageRgba8(img))).unwrap();
    assert_eq!((icon.width, icon.height), (3, 2));
    assert_eq!(icon.rgba, pixels);
}

#[test]
fn opaque_image_gets_an_alpha_channel() {
    let img = image::RgbImage::from_raw(1, 2, vec![1, 2, 3, 4, 5, 6]).unwrap();
    let icon = Icon::decode(&png(image::DynamicImage::ImageRgb8(img))).unwrap();
    assert_eq!(icon.rgba, vec![1, 2, 3, 255, 4, 5, 6, 255]);
    let img = image::GrayImage::from_raw(2, 1, vec![7, 9]).unwrap();
    let icon = Icon::decode(&png(image::DynamicImage::ImageLuma8(img))).unwrap();
    assert_eq!(icon.rgba, vec![7, 7, 7, 255, 9, 9, 9, 255]);
}

#[test]
fn no_png_is_no_icon() {
    assert_eq!(Icon::decode(b"GIF89a"), Err(IconError::NotPng));
    assert_eq!(Icon::decode(&[]), Err(IconError::NotPng));
}

#[test]
fn outside_of_the_shape_is_transparent() {
    let mut icon = Icon { width: 2, height: 1, rgba: vec![1, 2, 3, 4, 5, 6, 7, 8] };
    icon.cut_out(&vec![true, false]);
    assert_eq!(icon.rgba, vec![1, 2, 3, 4, 5, 6, 7, 0]);
    icon.cut_out(&vec![false, false]);
    assert_eq!(icon.rgba, vec![1, 2, 3, 0, 5, 6, 7, 0]);
}
