use rbpt::mods::image::{ppm_file_name, ImageRGB};

#[test]
fn getters() {
    let image = ImageRGB::new(10, 5);

    assert_eq!(image.get_width(), 10);
    assert_eq!(image.get_height(), 5);
    assert_eq!(image.get_pixel_count(), 50);
}

#[test]
fn set() {
    let mut image = ImageRGB::new(10, 5);
    image.set_pixel(0, 0, (1, 1, 1));

    assert_eq!(image.get_pixel(0, 0), (1, 1, 1));
}

#[test]
fn new_image_is_white() {
    let image = ImageRGB::new(3, 2);
    for y in 0..2 {
        for x in 0..3 {
            assert_eq!(image.get_pixel(x, y), (255, 255, 255));
        }
    }
}

#[test]
fn set_pixel_changes_one_pixel_only() {
    let mut image = ImageRGB::new(4, 3);
    image.set_pixel(2, 1, (9, 8, 7));
    for y in 0..3 {
        for x in 0..4 {
            let expected = if (x, y) == (2, 1) { (9, 8, 7) } else { (255, 255, 255) };
            assert_eq!(image.get_pixel(x, y), expected);
        }
    }
    assert_eq!(image.get_width(), 4);
    assert_eq!(image.get_height(), 3);
}

#[test]
fn set_pixel_addresses_column_then_row() {
    let mut image = ImageRGB::new(3, 2);
    image.set_pixel(2, 0, (1, 2, 3));
    image.set_pixel(0, 1, (4, 5, 6));
    assert_eq!(image.get_pixel(2, 0), (1, 2, 3));
    assert_eq!(image.get_pixel(0, 1), (4, 5, 6));
}

#[test]
fn image_without_rows_has_height_zero() {
    let image = ImageRGB::new(7, 0);
    assert_eq!(image.get_height(), 0);
}

#[test]
fn image_without_columns() {
    let image = ImageRGB::new(0, 3);
    assert_eq!(image.get_height(), 3);
    assert_eq!(image.get_width(), 0);
    assert_eq!(image.get_pixel_count(), 0);
    assert_eq!(image.to_ppm(), "P3\n0 3\n255\n");
}

#[test]
fn ppm_of_blank_image() {
    let image = ImageRGB::new(2, 1);
    assert_eq!(image.to_ppm(), "P3\n2 1\n255\n255 255 255\n255 255 255\n");
}

#[test]
fn ppm_lists_pixels_row_by_row() {
    let mut image = ImageRGB::new(2, 2);
    image.set_pixel(0, 0, (0, 0, 0));
    image.set_pixel(1, 0, (1, 20, 213));
    image.set_pixel(0, 1, (9, 10, 99));
    image.set_pixel(1, 1, (100, 101, 255));
    let expected = "P3\n2 2\n255\n0 0 0\n1 20 213\n9 10 99\n100 101 255\n";
    assert_eq!(image.to_ppm(), expected);
}

#[test]
fn ppm_header_holds_width_then_height() {
    let image = ImageRGB::new(12, 3);
    let text = image.to_ppm();
    assert!(text.starts_with("P3\n12 3\n255\n"));
    assert_eq!(text.len(), 12 + 36 * 12);
}

#[test]
fn file_name_gets_the_extension() {
    assert_eq!(ppm_file_name("tests_image_save"), "tests_image_save.ppm");
    assert_eq!(ppm_file_name(""), ".ppm");
    assert_eq!(ppm_file_name("ppm"), "ppm.ppm");
    assert_eq!(ppm_file_name("a.pp"), "a.pp.ppm");
    assert_eq!(ppm_file_name("out.PPM"), "out.PPM.ppm");
}

#[test]
fn file_name_with_the_extension_is_kept() {
    assert_eq!(ppm_file_name("out.ppm"), "out.ppm");
    assert_eq!(ppm_file_name(".ppm"), ".ppm");
    assert_eq!(ppm_file_name("dir/scène.ppm"), "dir/scène.ppm");
}

#[test]
fn save() {
    let image = ImageRGB::new(10, 5);

    assert_eq!(ppm_file_name("tests_image_save"), "tests_image_save.ppm");
    let text = image.to_ppm();
    let mut lines = text.lines();
    assert_eq!(lines.next(), Some("P3"));
    assert_eq!(lines.next(), Some("10 5"));
    assert_eq!(lines.next(), Some("255"));
    assert_eq!(lines.clone().count(), 50);
    assert!(lines.all(|line| line == "255 255 255"));
    assert!(text.ends_with('\n'));
}

#[test]
fn clone_keeps_the_pixels() {
    let mut image = ImageRGB::new(3, 2);
    image.set_pixel(1, 1, (5, 6, 7));
    let mut copy = image.clone();
    assert_eq!(copy.get_width(), 3);
    assert_eq!(copy.get_height(), 2);
    assert_eq!(copy.to_ppm(), image.to_ppm());
    copy.set_pixel(0, 0, (0, 0, 0));
    assert_eq!(image.get_pixel(0, 0), (255, 255, 255));
    assert_eq!(copy.get_pixel(1, 1), (5, 6, 7));
}
