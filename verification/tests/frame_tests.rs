use chat_server::frame::FrameUtils;

fn read_back(bytes: &[u8]) -> (u8, bool, Vec<u8>, usize) {
    let (frame, n) = FrameUtils::read(bytes).expect("a whole frame");
    (frame.opcode, frame.finished, frame.data, n)
}

#[test]
fn create_short_masked_frame() {
    let bytes = FrameUtils::create(1, true, b"hi".to_vec(), Some([1, 2, 3, 4]));
    assert_eq!(bytes, vec![0x81, 0x82, 1, 2, 3, 4, b'h' ^ 1, b'i' ^ 2]);
}

#[test]
fn create_unmasked_frame_keeps_mask_bit_and_zero_mask() {
    let bytes = FrameUtils::create(2, false, vec![9, 8, 7], None);
    assert_eq!(bytes, vec![0x02, 0x83, 0, 0, 0, 0, 9, 8, 7]);
}

#[test]
fn create_opcode_keeps_low_four_bits() {
    let bytes = FrameUtils::create(0xF9, true, vec![], None);
    assert_eq!(bytes, vec![0x89, 0x80, 0, 0, 0, 0]);
}

#[test]
fn create_sixteen_bit_length() {
    let data = vec![7u8; 300];
    let bytes = FrameUtils::create(1, true, data, Some([0, 0, 0, 0]));
    assert_eq!(&bytes[..4], &[0x81, 254, 0x01, 0x2C]);
    assert_eq!(bytes.len(), 4 + 4 + 300);
}

#[test]
fn create_sixty_four_bit_length() {
    let data = vec![1u8; 70000];
    let bytes = FrameUtils::create(2, true, data, None);
    assert_eq!(&bytes[..10], &[0x82, 255, 0, 0, 0, 0, 0, 0x01, 0x11, 0x70]);
    assert_eq!(bytes.len(), 10 + 4 + 70000);
}

#[test]
fn read_gives_back_what_create_built() {
    for &len in &[0usize, 1, 5, 125, 126, 128, 300, 65535, 65536, 70000] {
        let data: Vec<u8> = (0..len).map(|i| (i * 7 % 251) as u8).collect();
        for mask in [None, Some([0xAA, 0x55, 0x0F, 0xF0])] {
            let mut bytes = FrameUtils::create(0x12, len % 2 == 0, data.clone(), mask);
            let frame_len = bytes.len();
            bytes.extend_from_slice(&[1, 2, 3]);
            let (opcode, finished, payload, n) = read_back(&bytes);
            assert_eq!(opcode, 2);
            assert_eq!(finished, len % 2 == 0);
            assert_eq!(payload, data);
            assert_eq!(n, frame_len);
        }
    }
}

#[test]
fn read_of_a_127_byte_payload_expects_a_sixty_four_bit_length() {
    let data = vec![3u8; 127];
    let bytes = FrameUtils::create(1, true, data, Some([1, 1, 1, 1]));
    assert_eq!(&bytes[..4], &[0x81, 254, 0, 127]);
    // The reader takes a 16-bit length of 127 as the marker of a 64-bit
    // one, read from the mask and payload bytes: it waits for more.
    assert!(FrameUtils::read(&bytes).is_none());
}

#[test]
fn read_waits_for_the_whole_frame() {
    let bytes = FrameUtils::create(1, true, b"hello".to_vec(), Some([5, 6, 7, 8]));
    for cut in 0..bytes.len() {
        assert!(FrameUtils::read(&bytes[..cut]).is_none());
    }
    assert!(FrameUtils::read(&bytes).is_some());
}

#[test]
fn read_client_frame_from_rfc_example() {
    // A masked "Hello" from RFC 6455, section 5.7.
    let bytes = [0x81, 0x85, 0x37, 0xfa, 0x21, 0x3d, 0x7f, 0x9f, 0x4d, 0x51, 0x58];
    let (opcode, finished, data, n) = read_back(&bytes);
    assert_eq!(opcode, 1);
    assert!(finished);
    assert_eq!(data, b"Hello".to_vec());
    assert_eq!(n, 11);
}

#[test]
fn read_unmasked_frame() {
    let bytes = [0x01, 0x03, b'H', b'e', b'l'];
    let (opcode, finished, data, n) = read_back(&bytes);
    assert_eq!(opcode, 1);
    assert!(!finished);
    assert_eq!(data, b"Hel".to_vec());
    assert_eq!(n, 5);
}
