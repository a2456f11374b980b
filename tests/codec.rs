use mtk_uartboot::codec::{compute_checksum, encode_command, read_be, read_le, ByteOrder, ChecksumConfig, Width};
use mtk_uartboot::protocol::{check_frame, check_header, check_upload, chunk_end, Error, ProtocolError, CHUNK_SIZE};
use mtk_uartboot::session::{banner_seen, jump_target, BL2_READY_BANNER, FIP_RECEIVED_BANNER};

fn cfg(width: Width, order: ByteOrder) -> ChecksumConfig {
    ChecksumConfig { width, order }
}

#[test]
fn checksum_16_little_even() {
    let c = cfg(Width::W16, ByteOrder::Little);
    assert_eq!(compute_checksum(&[0x01, 0x02, 0x03, 0x04], c), 0x0602);
}

#[test]
fn checksum_16_little_odd_pads_with_zero() {
    let c = cfg(Width::W16, ByteOrder::Little);
    assert_eq!(compute_checksum(&[0x01, 0x02, 0x03], c), 0x0202);
}

#[test]
fn checksum_16_big() {
    let c = cfg(Width::W16, ByteOrder::Big);
    assert_eq!(compute_checksum(&[0x01, 0x02, 0x03, 0x04], c), 0x0206);
    assert_eq!(compute_checksum(&[0x01, 0x02, 0x03], c), 0x0202);
}

#[test]
fn checksum_32_little() {
    let c = cfg(Width::W32, ByteOrder::Little);
    assert_eq!(compute_checksum(&[1, 2, 3, 4, 5], c), 0x0403_0204);
}

#[test]
fn checksum_8() {
    let c = cfg(Width::W8, ByteOrder::Big);
    assert_eq!(compute_checksum(&[0xf0, 0x0f, 0x11], c), 0xee);
}

#[test]
fn checksum_of_empty_is_zero() {
    let c = cfg(Width::W32, ByteOrder::Big);
    assert_eq!(compute_checksum(&[], c), 0);
}

#[test]
fn reads_fields() {
    let b = [0x12, 0x34, 0x56, 0x78];
    assert_eq!(read_be(&b, 0, 4), 0x1234_5678);
    assert_eq!(read_be(&b, 1, 2), 0x3456);
    assert_eq!(read_le(&b, 0, 4), 0x7856_3412);
    assert_eq!(read_be(&b, 3, 2), 0x7800);
}

#[test]
fn encodes_command_with_arguments() {
    let r = encode_command(0xd7, &[0x0020_1000, 64, 0]);
    assert_eq!(r, vec![0xd7, 0x00, 0x20, 0x10, 0x00, 0, 0, 0, 0x40, 0, 0, 0, 0]);
    assert_eq!(encode_command(0x01, &[]), vec![0x01]);
}

#[test]
fn frame_errors() {
    let sent = [0xfd];
    assert_eq!(check_frame(&sent, &[0xfd, 0x12, 0x34, 0x00], 2), Err(Error::Protocol(ProtocolError::ShortReply)));
    assert_eq!(check_frame(&sent, &[0xfc, 0x12, 0x34, 0x00, 0x00], 2), Err(Error::Protocol(ProtocolError::BadEcho)));
    assert_eq!(check_frame(&sent, &[0xfd, 0x12, 0x34, 0x00, 0x01], 2), Err(Error::Protocol(ProtocolError::BadStatus)));
    assert_eq!(check_frame(&sent, &[0xfd, 0x12, 0x34, 0x00, 0x00], 2), Ok(()));
}

#[test]
fn header_length_disagreement_is_short_write() {
    let sent = [0x03, 0, 0, 0, 8];
    assert_eq!(check_header(&sent, &[0x03, 0, 0, 0, 7, 0, 0], 1), Err(Error::ShortWrite));
    assert_eq!(check_header(&sent, &[0x04, 0, 0, 0, 8, 0, 0], 1), Err(Error::Protocol(ProtocolError::BadEcho)));
    assert_eq!(check_header(&sent, &[0x03, 0, 0, 0, 8, 0], 1), Err(Error::Protocol(ProtocolError::ShortReply)));
    assert_eq!(check_header(&sent, &[0x03, 0, 0, 0, 8, 0, 0], 1), Ok(()));
}

#[test]
fn upload_checks() {
    let c = cfg(Width::W16, ByteOrder::Little);
    let payload = [0x01, 0x02, 0x03, 0x04];
    assert_eq!(check_upload(&payload, 4, 4, &[0x06, 0x02, 0, 0], c), Ok(0x0602));
    assert_eq!(check_upload(&payload, 4, 4, &[0x06, 0x03, 0, 0], c), Err(Error::ChecksumMismatch));
    assert_eq!(check_upload(&payload, 4, 4, &[0x06, 0x02, 0, 1], c), Err(Error::ChecksumMismatch));
    assert_eq!(check_upload(&payload, 4, 3, &[0x06, 0x02, 0, 0], c), Err(Error::ShortWrite));
    assert_eq!(check_upload(&payload, 5, 4, &[0x06, 0x02, 0, 0], c), Err(Error::ShortWrite));
    assert_eq!(check_upload(&payload, 4, 4, &[0x06, 0x02, 0], c), Err(Error::Protocol(ProtocolError::ShortReply)));
}

#[test]
fn chunks_cover_payload() {
    assert_eq!(chunk_end(0, 10), 10);
    assert_eq!(chunk_end(0, 3000), CHUNK_SIZE);
    assert_eq!(chunk_end(2048, 3000), 3000);
    let mut start = 0;
    let mut n = 0;
    while start < 2049 {
        start = chunk_end(start, 2049);
        n += 1;
    }
    assert_eq!((start, n), (2049, 3));
}

#[test]
fn banners() {
    assert!(banner_seen(b"NOTICE:  Starting UART download handshake ...\n", BL2_READY_BANNER.as_bytes()));
    assert!(banner_seen(b"Received FIP 0x1000 bytes\n", FIP_RECEIVED_BANNER.as_bytes()));
    assert!(!banner_seen(b"Starting UART download\n", BL2_READY_BANNER.as_bytes()));
    assert!(!banner_seen(b"", FIP_RECEIVED_BANNER.as_bytes()));
    assert!(banner_seen(b"abc", b""));
}

#[test]
fn jump_goes_to_second_payload_when_present() {
    assert_eq!(jump_target(0x0020_1000, None), 0x0020_1000);
    assert_eq!(jump_target(0x0020_1000, Some(0x0020_0a00)), 0x0020_0a00);
}
