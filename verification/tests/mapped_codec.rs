use ascending_login::gametypes::error::AscendingError;
use ascending_login::socket::buffer::{MByteBufferExt, MBUF_CAPACITY};
use mmap_bytey_byte_buffer::byte_buffer::MByteBuffer;

fn mapped_bytes_of(buffer: &mut MByteBuffer) -> Vec<u8> {
    let cursor = buffer.cursor();
    let bytes = buffer.as_slice().to_vec();
    buffer.move_cursor(cursor).unwrap();
    bytes
}

#[test]
fn capacity_is_that_of_the_mapped_buffer() {
    let buffer = MByteBuffer::new().unwrap();
    assert_eq!(buffer.capacity(), MBUF_CAPACITY);
}

#[test]
fn mapped_new_packet_holds_a_blank_header() {
    let mut buffer = MByteBuffer::new_packet().unwrap();
    assert_eq!(buffer.cursor(), 8);
    assert_eq!(mapped_bytes_of(&mut buffer), vec![0u8; 8]);
}

#[test]
fn new_packet_with_count_holds_header_kind_and_count() {
    let mut buffer = MByteBuffer::new_packet_with_count(0x0103).unwrap();
    assert_eq!(buffer.cursor(), 18);
    let mut expected = vec![0u8; 8];
    expected.extend_from_slice(&[0x03, 0x01]);
    expected.extend_from_slice(&[0u8; 8]);
    assert_eq!(mapped_bytes_of(&mut buffer), expected);
}

#[test]
fn mapped_codec_writes_and_reads_texts() {
    let mut buffer = MByteBuffer::new_packet().unwrap();
    MByteBufferExt::write_str(&mut buffer, "héllo").unwrap();
    MByteBufferExt::write_str(&mut buffer, "").unwrap();
    buffer.write_slice(&[3, 0, 0, 0, 0, 0, 0, 0, 0xff, 0xff, 0xff]).unwrap();
    let mut expected = vec![0u8; 8];
    expected.extend_from_slice(&[6, 0, 0, 0, 0, 0, 0, 0]);
    expected.extend_from_slice("héllo".as_bytes());
    expected.extend_from_slice(&[0u8; 8]);
    expected.extend_from_slice(&[3, 0, 0, 0, 0, 0, 0, 0, 0xff, 0xff, 0xff]);
    assert_eq!(mapped_bytes_of(&mut buffer), expected);
    MByteBufferExt::finish(&mut buffer).unwrap();
    assert_eq!(buffer.cursor(), 0);
    let length = buffer.length();
    assert_eq!(buffer.read_slice(8).unwrap(), ((length - 8) as u64).to_le_bytes());
    assert_eq!(MByteBufferExt::read_str(&mut buffer).unwrap(), "héllo");
    assert_eq!(MByteBufferExt::read_str(&mut buffer).unwrap(), "");
    assert_eq!(MByteBufferExt::read_str(&mut buffer).unwrap(), "");
    assert_eq!(buffer.cursor(), length);
    assert!(matches!(
        MByteBufferExt::read_str(&mut buffer),
        Err(AscendingError::MByteyError { .. })
    ));
}

#[test]
fn mapped_read_str_fails_on_a_text_that_is_cut_short() {
    let mut cut = MByteBuffer::new().unwrap();
    cut.write_slice(&u64::MAX.to_le_bytes()).unwrap();
    cut.write_slice(b"abc").unwrap();
    cut.move_cursor(0).unwrap();
    assert!(matches!(MByteBufferExt::read_str(&mut cut), Err(AscendingError::MByteyError { .. })));
    assert_eq!(cut.cursor(), 8);
}

#[test]
fn write_str_that_does_not_fit_leaves_its_length_behind() {
    let mut buffer = MByteBuffer::new().unwrap();
    buffer.write_slice(&vec![1u8; MBUF_CAPACITY - 10]).unwrap();
    assert!(MByteBufferExt::write_str(&mut buffer, "abc").is_err());
    assert_eq!(buffer.length(), MBUF_CAPACITY - 2);
    let mut full = MByteBuffer::new().unwrap();
    full.write_slice(&vec![1u8; MBUF_CAPACITY - 4]).unwrap();
    assert!(MByteBufferExt::write_str(&mut full, "abc").is_err());
    assert_eq!(full.length(), MBUF_CAPACITY - 4);
}

#[test]
fn mapped_finish_refuses_a_buffer_without_a_header() {
    let mut short = MByteBuffer::new().unwrap();
    short.write_slice(&[1, 2, 3]).unwrap();
    assert!(matches!(MByteBufferExt::finish(&mut short), Err(AscendingError::InvalidPacket)));
    assert_eq!(mapped_bytes_of(&mut short), vec![1, 2, 3]);
    assert_eq!(short.cursor(), 3);
}

#[test]
fn finish_with_count_writes_length_and_count() {
    let mut buffer = MByteBuffer::new_packet_with_count(3).unwrap();
    buffer.write_slice(&[9, 9, 9]).unwrap();
    buffer.finish_with_count(2).unwrap();
    assert_eq!(buffer.cursor(), 0);
    assert_eq!(
        mapped_bytes_of(&mut buffer),
        vec![13, 0, 0, 0, 0, 0, 0, 0, 3, 0, 2, 0, 0, 0, 0, 0, 0, 0, 9, 9, 9]
    );
}

#[test]
fn finish_with_count_refuses_a_buffer_without_room_for_the_count() {
    let mut buffer = MByteBuffer::new_packet().unwrap();
    buffer.write_slice(&[1, 2, 3]).unwrap();
    assert!(matches!(buffer.finish_with_count(1), Err(AscendingError::InvalidPacket)));
    assert_eq!(mapped_bytes_of(&mut buffer), vec![0, 0, 0, 0, 0, 0, 0, 0, 1, 2, 3]);
}
