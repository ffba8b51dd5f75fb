use hal9001::image::{gzip_isize, hex_lower, image_total, is_gzip_magic, ImageChecksum};

#[test]
fn checksum_of_chunks_is_sha256_of_the_whole() {
    let mut c = ImageChecksum::new();
    c.feed(b"a");
    c.feed(b"");
    c.feed(b"bc");
    assert_eq!(c.read_bytes(), 3);
    assert_eq!(c.hex_digest(), "ba7816bf8f01cfea414140de5dae2223b00361a396177a9cb410ff61f20015ad");
}

#[test]
fn checksum_of_nothing() {
    let c = ImageChecksum::new();
    assert_eq!(c.read_bytes(), 0);
    assert_eq!(c.hex_digest(), "e3b0c44298fc1c149afbf4c8996fb92427ae41e4649b934ca495991b7852b855");
}

#[test]
fn hex_is_lowercase_two_digits_per_byte() {
    assert_eq!(hex_lower(&[0x00, 0x0f, 0xa5, 0xff]), "000fa5ff");
    assert_eq!(hex_lower(&[]), "");
}

#[test]
fn gzip_detection_and_declared_size() {
    assert!(is_gzip_magic(&[0x1f, 0x8b]));
    assert!(!is_gzip_magic(&[0x1f]));
    assert!(!is_gzip_magic(&[0x50, 0x4b]));
    assert_eq!(gzip_isize([0x00, 0x10, 0x00, 0x00]), 4096);
    assert_eq!(gzip_isize([0xff, 0xff, 0xff, 0xff]), 4294967295);
    assert_eq!(image_total(true, Some(4096), 100), 4096);
    assert_eq!(image_total(true, None, 100), 100);
    assert_eq!(image_total(false, Some(4096), 100), 100);
}
