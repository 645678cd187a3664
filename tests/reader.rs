use jean_patrick::reader::{first_image, Image};

#[test]
fn first_image_skips_the_header() {
    let mut file = vec![9u8; 16];
    for k in 0..784 {
        file.push((k % 256) as u8);
    }
    file.push(77);
    let img = first_image(&file).unwrap();
    assert_eq!(img.pixel(0, 0), 0);
    assert_eq!(img.pixel(0, 5), 5);
    assert_eq!(img.pixel(1, 0), 28);
    assert_eq!(img.pixel(27, 27), (783 % 256) as u8);
}

#[test]
fn short_file_has_no_image() {
    assert!(first_image(&[]).is_none());
    assert!(first_image(&vec![0u8; 16 + 783]).is_none());
    assert!(first_image(&vec![0u8; 16 + 784]).is_some());
}

#[test]
fn image_new_keeps_pixels_and_equality() {
    let mut px = Box::new([0u8; 784]);
    px[28 * 3 + 4] = 201;
    let a = Image::new(px.clone());
    let b = Image::new(px);
    assert_eq!(a.pixel(3, 4), 201);
    assert!(a == b.clone());
}

#[test]
fn render_draws_bright_pixels() {
    let mut px = Box::new([0u8; 784]);
    px[0] = 201;
    px[1] = 200;
    px[28 + 27] = 255;
    let drawing: String = Image::new(px).render().into_iter().collect();
    let lines: Vec<&str> = drawing.split('\n').collect();
    assert_eq!(lines.len(), 29);
    assert_eq!(lines[28], "");
    assert_eq!(lines[0], format!("#{}", " ".repeat(27)));
    assert_eq!(lines[1], format!("{}#", " ".repeat(27)));
    assert_eq!(lines[2], " ".repeat(28));
}
