use anvil_udev::paths::is_primary;
use anvil_udev::pointer::{PointerImage, POINTER_HEIGHT, POINTER_WIDTH};
use anvil_udev::session::SessionFd;

fn path(text: &str) -> Option<String> {
    Some(text.to_string())
}

#[test]
fn paths_are_compared_by_their_components() {
    let gpu = path("/dev/dri/card0");
    assert!(is_primary(&path("/dev/dri/card0"), &gpu));
    assert!(is_primary(&path("/dev//dri/./card0"), &gpu));
    assert!(is_primary(&path("/dev/dri/card0/"), &gpu));
    assert!(!is_primary(&path("/dev/dri/card1"), &gpu));
    assert!(!is_primary(&path("dev/dri/card0"), &gpu));
    assert!(!is_primary(&path("/dev/dri/x/../card0"), &gpu));
    assert!(!is_primary(&path("/dev/dri/card0/x"), &gpu));
    assert!(!is_primary(&path("/dev/dri/.card0"), &gpu));
}

#[test]
fn a_leading_dot_counts_in_a_relative_path_only() {
    assert!(!is_primary(&path("./card0"), &path("card0")));
    assert!(is_primary(&path("././/card0/."), &path("./card0")));
    assert!(is_primary(&path("/./card0"), &path("/card0")));
    assert!(is_primary(&path("."), &path("./")));
    assert!(!is_primary(&path("."), &path("")));
    assert!(!is_primary(&path("/"), &path("")));
    assert!(is_primary(&path("//"), &path("/")));
}

#[test]
fn a_missing_path_agrees_with_a_missing_one_only() {
    assert!(is_primary(&None, &None));
    assert!(!is_primary(&None, &path("/dev/dri/card0")));
    assert!(!is_primary(&path("/dev/dri/card0"), &None));
}

#[test]
fn a_pointer_image_has_64_rows_of_64_pixels() {
    let bytes: Vec<u8> = (0..16384u32).map(|i| (i % 251) as u8).collect();
    let image = PointerImage::from_bytes(bytes.clone()).unwrap();
    assert_eq!((image.width, image.height), (64, 64));
    assert_eq!((POINTER_WIDTH, POINTER_HEIGHT), (64, 64));
    assert_eq!(image.pixels, bytes);
}

#[test]
fn a_pointer_image_needs_all_of_its_bytes() {
    assert!(PointerImage::from_bytes(vec![0; 16383]).is_none());
    assert!(PointerImage::from_bytes(vec![]).is_none());
}

#[test]
fn a_pointer_image_keeps_further_bytes() {
    let image = PointerImage::from_bytes(vec![3; 16400]).unwrap();
    assert_eq!(image.pixels.len(), 16400);
}

#[test]
fn a_session_fd_is_its_number() {
    let fd = SessionFd::new(5);
    assert_eq!(fd.as_raw_fd(), 5);
    assert_eq!(fd.clone().as_raw_fd(), 5);
    assert_eq!(SessionFd::new(-1).as_raw_fd(), -1);
}
