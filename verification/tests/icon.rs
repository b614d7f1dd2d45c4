use vhs_gui::icon::{load_icon, to_rgba};

fn encoded(color: png::ColorType, depth: png::BitDepth, pixels: &[u8]) -> Vec<u8> {
    let mut out = Vec::new();
    let mut encoder = png::Encoder::new(&mut out, 2, 1);
    encoder.set_color(color);
    encoder.set_depth(depth);
    let mut writer = encoder.write_header().unwrap();
    writer.write_image_data(pixels).unwrap();
    writer.finish().unwrap();
    out
}

#[test]
fn an_icon_with_alpha_is_taken_as_it_is() {
    let data = encoded(png::ColorType::Rgba, png::BitDepth::Eight, &[1, 2, 3, 4, 5, 6, 7, 8]);
    let icon = load_icon(&data).unwrap();
    assert_eq!((icon.width, icon.height), (2, 1));
    assert_eq!(icon.rgba, vec![1, 2, 3, 4, 5, 6, 7, 8]);
}

#[test]
fn an_icon_without_alpha_becomes_opaque() {
    let data = encoded(png::ColorType::Rgb, png::BitDepth::Eight, &[1, 2, 3, 4, 5, 6]);
    let icon = load_icon(&data).unwrap();
    assert_eq!(icon.rgba, vec![1, 2, 3, 255, 4, 5, 6, 255]);
}

#[test]
fn an_icon_of_other_colours_is_refused() {
    let data = encoded(png::ColorType::Grayscale, png::BitDepth::Eight, &[1, 2]);
    assert!(load_icon(&data).is_none());
}

#[test]
fn bytes_that_are_no_picture() {
    assert!(load_icon(b"not a picture").is_none());
    assert!(load_icon(&[]).is_none());
    let mut cut = encoded(png::ColorType::Rgb, png::BitDepth::Eight, &[1, 2, 3, 4, 5, 6]);
    cut.truncate(40);
    assert!(load_icon(&cut).is_none());
}

#[test]
fn pixels_are_converted() {
    assert_eq!(to_rgba(6, &vec![9, 8]), Some(vec![9, 8]));
    assert_eq!(to_rgba(2, &vec![1, 2, 3, 4, 5]), Some(vec![1, 2, 3, 255]));
    assert_eq!(to_rgba(2, &Vec::new()), Some(Vec::new()));
    assert_eq!(to_rgba(0, &vec![1]), None);
    assert_eq!(to_rgba(4, &vec![1]), None);
}
