use perf_client::header::{encode_header, HEADER_LEN};

#[test]
fn header_is_eight_bytes() {
    assert_eq!(HEADER_LEN, 8);
    assert_eq!(encode_header(0).len(), HEADER_LEN);
}

#[test]
fn header_is_big_endian() {
    assert_eq!(encode_header(1024), [0, 0, 0, 0, 0, 0, 4, 0]);
    assert_eq!(encode_header(0x0102_0304_0506_0708), [1, 2, 3, 4, 5, 6, 7, 8]);
}

#[test]
fn header_of_smallest_and_largest_sizes() {
    assert_eq!(encode_header(0), [0; 8]);
    assert_eq!(encode_header(8), [0, 0, 0, 0, 0, 0, 0, 8]);
    assert_eq!(encode_header(u64::MAX), [0xff; 8]);
    assert_eq!(encode_header(1 << 56), [1, 0, 0, 0, 0, 0, 0, 0]);
}

#[test]
fn header_agrees_with_the_standard_encoding() {
    let mut size: u64 = 8;
    for _ in 0..200 {
        assert_eq!(encode_header(size), size.to_be_bytes());
        assert_eq!(u64::from_be_bytes(encode_header(size)), size);
        size = size.wrapping_mul(6364136223846793005).wrapping_add(1442695040888963407);
    }
}
