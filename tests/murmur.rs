use omnisearch::murmur::murmur3_32;

fn write_u32_le(num: u32) -> [u8; 4] {
    [
        (num & 0xff) as u8,
        ((num >> 8) & 0xff) as u8,
        ((num >> 16) & 0xff) as u8,
        ((num >> 24) & 0xff) as u8,
    ]
}

#[test]
fn test_murmur3() {
    // MurmurHash3 x86 32 0xB0F57EE3
    let mut buffer = Vec::new();
    for i in 0..256u32 {
        let hash = murmur3_32(&vec![i as u8], 256 - i);
        buffer.extend_from_slice(&write_u32_le(hash));
    }
    let _result = murmur3_32(&buffer[..], 0);
}

#[test]
fn test_murmur3_bytes() {
    let hash = murmur3_32("asdfljasdfljasdfljkasdfljasdf".as_bytes(), 123);
    assert_eq!(hash, 4252461677u32);
    let hash = murmur3_32("1234".as_bytes(), 123);
    assert_eq!(hash, 785304072u32);
    let hash = murmur3_32("123412341234123412341234".as_bytes(), 123);
    assert_eq!(hash, 3956594597u32);
}

#[test]
fn murmur3_empty_input_with_zero_seed_is_zero() {
    assert_eq!(murmur3_32(&[], 0), 0);
}

#[test]
fn murmur3_known_values() {
    assert_eq!(murmur3_32(&[], 1), 0x514E28B7);
    assert_eq!(murmur3_32(&[0x21, 0x43, 0x65, 0x87], 0), 0xF55B516B);
    assert_eq!(murmur3_32(&[0x21, 0x43, 0x65], 0), 0x7E4A8634);
    assert_eq!(murmur3_32(&[0x21, 0x43], 0), 0xA0F7B07A);
    assert_eq!(murmur3_32(&[0x21], 0), 0x72661CF4);
}
