use base64::Engine;
use image_browser::image_as_base64;

fn round_trip(bytes: Vec<u8>) {
    let text = image_as_base64(&bytes);
    assert_eq!(text.len(), 4 * ((bytes.len() + 2) / 3));
    let back = base64::engine::general_purpose::STANDARD.decode(text.as_bytes()).unwrap();
    assert_eq!(back, bytes);
}

#[test]
fn round_trip_empty() {
    round_trip(Vec::new());
}

#[test]
fn round_trip_one_byte() {
    round_trip(vec![0xff]);
    assert_eq!(image_as_base64(&vec![0xff]), "/w==");
}

#[test]
fn round_trip_several_megabytes() {
    let bytes: Vec<u8> = (0..3 * 1024 * 1024 + 1).map(|i: u32| (i.wrapping_mul(2654435761) >> 13) as u8).collect();
    round_trip(bytes);
}

#[test]
fn known_encoding() {
    assert_eq!(image_as_base64(&b"Man".to_vec()), "TWFu");
    assert_eq!(image_as_base64(&b"hi".to_vec()), "aGk=");
}
