use image_browser::is_image_file;

#[test]
fn extension_case_is_ignored() {
    assert!(is_image_file("a.PNG"));
    assert!(is_image_file("a.png"));
    assert!(is_image_file("photo.JpEg"));
    assert!(is_image_file("x.Tiff"));
}

#[test]
fn names_outside_the_set_are_not_images() {
    assert!(!is_image_file("a.TXT"));
    assert!(!is_image_file("a"));
    assert!(!is_image_file(""));
    assert!(!is_image_file("a."));
    assert!(!is_image_file("archive.png.zip"));
    assert!(!is_image_file("a.pngx"));
}

#[test]
fn every_listed_extension_is_an_image() {
    for ext in ["jpg", "jpeg", "png", "gif", "bmp", "webp", "tiff", "svg"] {
        assert!(is_image_file(&format!("f.{}", ext)));
        assert!(is_image_file(&format!("f.{}", ext.to_uppercase())));
    }
}

#[test]
fn only_the_last_extension_counts() {
    assert!(is_image_file("backup.tar.gif"));
    assert!(!is_image_file("shot.png.bak"));
}

#[test]
fn a_leading_dot_starts_the_extension() {
    assert!(is_image_file(".png"));
    assert!(!is_image_file(".bashrc"));
    assert!(is_image_file(".hidden.png"));
}
