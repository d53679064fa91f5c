use nakamoto_chain::header::{decode, encode, BlockHeader, HEADER_SIZE};
use nakamoto_chain::store::Error;

fn genesis() -> BlockHeader {
    BlockHeader {
        version: 1,
        prev_blockhash: [0; 32],
        merkle_root: [0; 32],
        time: 1842918273,
        bits: 0x2ffffff,
        nonce: 312143,
    }
}

fn numbered() -> BlockHeader {
    let mut prev_blockhash = [0u8; 32];
    let mut merkle_root = [0u8; 32];
    for i in 0..32 {
        prev_blockhash[i] = i as u8;
        merkle_root[i] = 0xff - i as u8;
    }
    BlockHeader {
        version: -2,
        prev_blockhash,
        merkle_root,
        time: 0x01020304,
        bits: 0xa1b2c3d4,
        nonce: u32::MAX,
    }
}

#[test]
fn test_record_size() {
    assert_eq!(HEADER_SIZE, 80);
    assert_eq!(encode(&genesis()).len(), 80);
    assert_eq!(encode(&numbered()).len(), 80);
}

#[test]
fn test_encode_layout() {
    let bytes = encode(&genesis());
    let mut expected = vec![1u8, 0, 0, 0];
    expected.extend_from_slice(&[0u8; 64]);
    expected.extend_from_slice(&[129, 179, 216, 109]);
    expected.extend_from_slice(&[255, 255, 255, 2]);
    expected.extend_from_slice(&[79, 195, 4, 0]);
    assert_eq!(bytes, expected);
}

#[test]
fn test_encode_field_order_and_endianness() {
    let header = numbered();
    let bytes = encode(&header);
    assert_eq!(&bytes[0..4], &[0xfe, 0xff, 0xff, 0xff]);
    assert_eq!(&bytes[4..36], &header.prev_blockhash[..]);
    assert_eq!(&bytes[36..68], &header.merkle_root[..]);
    assert_eq!(&bytes[68..72], &[0x04, 0x03, 0x02, 0x01]);
    assert_eq!(&bytes[72..76], &[0xd4, 0xc3, 0xb2, 0xa1]);
    assert_eq!(&bytes[76..80], &[0xff, 0xff, 0xff, 0xff]);
}

#[test]
fn test_decode_fields() {
    let mut bytes = vec![0u8; 80];
    bytes[0] = 2;
    bytes[4] = 0xaa;
    bytes[35] = 0xbb;
    bytes[36] = 0xcc;
    bytes[67] = 0xdd;
    bytes[68] = 0x10;
    bytes[69] = 0x20;
    bytes[72] = 0x01;
    bytes[75] = 0x80;
    bytes[79] = 0x7f;
    let header = decode(&bytes).unwrap();
    assert_eq!(header.version, 2);
    assert_eq!(header.prev_blockhash[0], 0xaa);
    assert_eq!(header.prev_blockhash[31], 0xbb);
    assert_eq!(header.merkle_root[0], 0xcc);
    assert_eq!(header.merkle_root[31], 0xdd);
    assert_eq!(header.time, 0x2010);
    assert_eq!(header.bits, 0x80000001);
    assert_eq!(header.nonce, 0x7f000000);
}

#[test]
fn test_round_trip() {
    for header in [genesis(), numbered()] {
        assert_eq!(decode(&encode(&header)).unwrap(), header);
    }
    for version in [i32::MIN, -1, 0, 1, i32::MAX] {
        let header = BlockHeader { version, ..numbered() };
        assert_eq!(decode(&encode(&header)).unwrap(), header);
    }
}

#[test]
fn test_encode_after_decode_gives_the_bytes_back() {
    let mut bytes = Vec::new();
    for i in 0..80u32 {
        bytes.push((i * 7 + 3) as u8);
    }
    let header = decode(&bytes).unwrap();
    assert_eq!(encode(&header), bytes);
}

#[test]
fn test_decode_short_buffer() {
    let bytes = encode(&genesis());
    assert!(matches!(decode(&bytes[..79]), Err(Error::Decoding)));
    assert!(matches!(decode(&bytes[..4]), Err(Error::Decoding)));
    assert!(matches!(decode(&[]), Err(Error::Decoding)));
}

#[test]
fn test_decode_reads_the_first_record_only() {
    let mut bytes = encode(&numbered());
    bytes.extend_from_slice(&[9, 9, 9]);
    assert_eq!(decode(&bytes).unwrap(), numbered());
}
