use asoby::codec::{base64_encode, compress, compress_fast, decompress};

#[test]
fn base64_pads_short_groups() {
    assert_eq!(base64_encode(b""), "");
    assert_eq!(base64_encode(b"M"), "TQ==");
    assert_eq!(base64_encode(b"Ma"), "TWE=");
    assert_eq!(base64_encode(b"Man"), "TWFu");
    assert_eq!(base64_encode(&[0xfb, 0xff, 0xbf]), "+/+/");
}

#[test]
fn compressing_a_chunk_of_noise_stays_within_twice_its_size() {
    let mut x: u32 = 0x1234_5678;
    let data: Vec<u8> = (0..131072)
        .map(|_| {
            x ^= x << 13;
            x ^= x >> 17;
            x ^= x << 5;
            (x >> 24) as u8
        })
        .collect();
    for stream in [compress(&data), compress_fast(&data)] {
        assert!(!stream.is_empty() && stream.len() <= 262144);
        assert_eq!(decompress(&stream, data.len()), data);
    }
    assert!(!compress(&[]).is_empty());
}
