use engine_gpu::device_memory::{
    dispatch_config_image, header_image, read_results, start_nonce_image, target_image,
    DISPATCH_CONFIG_BUFFER_SIZE, HEADER_BUFFER_SIZE, RESULTS_BUFFER_SIZE,
    START_NONCE_BUFFER_SIZE, TARGET_BUFFER_SIZE,
};
use engine_gpu::uint512::Uint512;
use primitive_types::U512;

fn number(n: U512) -> Uint512 {
    Uint512 { limbs: n.0 }
}

#[test]
fn buffers_have_their_sizes() {
    assert_eq!(HEADER_BUFFER_SIZE, 32);
    assert_eq!(TARGET_BUFFER_SIZE, 64);
    assert_eq!(START_NONCE_BUFFER_SIZE, 64);
    assert_eq!(RESULTS_BUFFER_SIZE, 132);
    assert_eq!(DISPATCH_CONFIG_BUFFER_SIZE, 12);
}

#[test]
fn header_words_are_little_endian() {
    let mut header = [0u8; 32];
    for (i, b) in header.iter_mut().enumerate() {
        *b = (i * 7 + 1) as u8;
    }
    let mut expected: Vec<u8> = Vec::new();
    for chunk in header.chunks(4) {
        let word = u32::from_le_bytes([chunk[0], chunk[1], chunk[2], chunk[3]]);
        expected.extend_from_slice(&word.to_ne_bytes());
    }
    assert_eq!(header_image(&header), expected);
}

#[test]
fn target_words_are_least_significant_first() {
    let target = (U512::from(0x0102030405060708u64) << 448) + U512::from(0x1122334455667788u64);
    let image = target_image(number(target));
    assert_eq!(image.len(), TARGET_BUFFER_SIZE);
    let words: Vec<u32> = image
        .chunks(4)
        .map(|c| u32::from_ne_bytes([c[0], c[1], c[2], c[3]]))
        .collect();
    assert_eq!(words[0], 0x55667788);
    assert_eq!(words[1], 0x11223344);
    assert!(words[2..14].iter().all(|w| *w == 0));
    assert_eq!(words[14], 0x05060708);
    assert_eq!(words[15], 0x01020304);
}

#[test]
fn start_nonce_is_written_byte_by_byte() {
    let image = start_nonce_image(number(U512::from(0x0102u64)));
    assert_eq!(image[0], 2);
    assert_eq!(image[1], 1);
    assert!(image[2..].iter().all(|b| *b == 0));
    assert!(start_nonce_image(number(U512::MAX)).iter().all(|b| *b == 255));
}

#[test]
fn dispatch_config_is_three_words() {
    let image = dispatch_config_image(&[1, 0x01020304, u32::MAX]);
    let mut expected: Vec<u8> = Vec::new();
    for word in [1u32, 0x01020304, u32::MAX] {
        expected.extend_from_slice(&word.to_ne_bytes());
    }
    assert_eq!(image, expected);
}

#[test]
fn clear_flag_means_nothing_found() {
    let mut data = vec![0xabu8; RESULTS_BUFFER_SIZE];
    data[0..4].copy_from_slice(&[0, 0, 0, 0]);
    assert_eq!(read_results(&data), None);
}

#[test]
fn any_flag_byte_means_found() {
    for k in 0..4 {
        let mut data = vec![0u8; RESULTS_BUFFER_SIZE];
        data[k] = 1;
        assert!(read_results(&data).is_some());
    }
}

#[test]
fn nonce_and_hash_are_read_back() {
    let nonce = (U512::from(7u64) << 500) + U512::from(0xdead_beef_0000_0001u64);
    let hash = (U512::from(1u64) << 300) + U512::from(42u64);
    let mut data: Vec<u8> = vec![1, 0, 0, 0];
    data.extend_from_slice(&nonce.to_little_endian());
    data.extend_from_slice(&hash.to_little_endian());
    let found = read_results(&data).unwrap();
    assert_eq!(found.nonce, number(nonce));
    assert_eq!(found.hash, number(hash));
}

#[test]
fn unaligned_results_are_read_too() {
    let nonce = U512::from(0x0102030405060708u64);
    let mut raw: Vec<u8> = vec![9, 1, 0, 0, 0];
    raw.extend_from_slice(&nonce.to_little_endian());
    raw.extend_from_slice(&U512::MAX.to_little_endian());
    let found = read_results(&raw[1..]).unwrap();
    assert_eq!(found.nonce, number(nonce));
    assert_eq!(found.hash, number(U512::MAX));
}
