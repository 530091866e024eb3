use square_image::naming::derive_output_name;
use square_image::pipeline::JPEG_QUALITY;

#[test]
fn strips_from_first_dot() {
    assert_eq!(derive_output_name("photo.png", "0"), "photo_rust_0.jpg");
    assert_eq!(derive_output_name("archive.tar.gz", "2"), "archive_rust_2.jpg");
}

#[test]
fn name_without_dot_is_kept_whole() {
    assert_eq!(derive_output_name("noext", "1"), "noext_rust_1.jpg");
}

#[test]
fn leading_dot_leaves_empty_stem() {
    assert_eq!(derive_output_name(".hidden", "0"), "_rust_0.jpg");
}

#[test]
fn newline_in_name_is_not_matched() {
    // The stripping pattern cannot cross a newline, so such a name has no
    // match and is kept whole.
    assert_eq!(derive_output_name("a.b\nc", "0"), "a.b\nc_rust_0.jpg");
}

#[test]
fn output_name_differs_from_input() {
    let name = derive_output_name("photo.jpg", "0");
    assert_ne!(name, "photo.jpg");
}

#[test]
fn quality_is_fixed_at_90() {
    assert_eq!(JPEG_QUALITY, 90);
}
