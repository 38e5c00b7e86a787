use pathtracer::ppm::encode_ppm;

#[test]
fn one_pixel_image_encodes_exactly() {
    let channels: Vec<u8> = vec![0, 128, 255];
    let out: Vec<u8> = encode_ppm(1, 1, &channels);
    let expected: Vec<u8> = vec![
        80, 51, 10, // magic line
        49, 32, 49, 10, // dimensions line
        50, 53, 53, 10, // maximum channel value line
        48, 32, 49, 50, 56, 32, 50, 53, 53, 32, // the one pixel's channels
    ];
    assert_eq!(out, expected);
}

#[test]
fn header_matches_test_scene_dimensions() {
    let channels: Vec<u8> = vec![0; 3 * 640 * 480];
    let out: Vec<u8> = encode_ppm(640, 480, &channels);
    let header: Vec<u8> = vec![
        80, 51, 10, // magic line
        54, 52, 48, 32, 52, 56, 48, 10, // dimensions line
        50, 53, 53, 10, // maximum channel value line
    ];
    assert_eq!(&out[..header.len()], &header[..]);
}

#[test]
fn encoding_is_reproducible() {
    let mut channels: Vec<u8> = Vec::new();
    let mut i: usize = 0;
    while i < 3 * 4 * 2 {
        channels.push((i * 37 % 256) as u8);
        i += 1;
    }
    let first: Vec<u8> = encode_ppm(4, 2, &channels);
    let second: Vec<u8> = encode_ppm(4, 2, &channels);
    assert_eq!(first, second);
}

#[test]
fn channels_appear_as_spaced_decimals() {
    let channels: Vec<u8> = vec![12, 3, 240];
    let out: Vec<u8> = encode_ppm(1, 1, &channels);
    let body: Vec<u8> = vec![49, 50, 32, 51, 32, 50, 52, 48, 32];
    assert_eq!(&out[out.len() - body.len()..], &body[..]);
}
