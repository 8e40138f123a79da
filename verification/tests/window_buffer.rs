use nucleotide_subsequence::error::ScanError;
use nucleotide_subsequence::WindowBuffer;

#[test]
fn slide_evicts_only_at_capacity() {
    let mut buffer = WindowBuffer::initialize(1, 1, 1, b"ab").unwrap();
    assert_eq!(buffer.capacity(), 3);
    assert_eq!(buffer.current_length(), 2);
    buffer.slide(b'c');
    assert_eq!(buffer.slice(0, 3), b"abc");
    buffer.slide(b'd');
    assert_eq!(buffer.current_length(), 3);
    assert_eq!(buffer.slice(0, 3), b"bcd");
    assert_eq!(buffer.slice(1, 2), b"c");
    assert_eq!(buffer.slice(2, 2), b"");
}

#[test]
fn initialize_refuses_a_chunk_shorter_than_the_target() {
    assert!(matches!(
        WindowBuffer::initialize(2, 3, 2, b"ab"),
        Err(ScanError::InsufficientInput)
    ));
    assert!(WindowBuffer::initialize(2, 3, 2, b"abc").is_ok());
}

#[test]
fn slide_keeps_the_most_recent_bytes() {
    let mut buffer = WindowBuffer::initialize(0, 4, 0, b"0123").unwrap();
    for byte in b"456789abcdef".iter() {
        buffer.slide(*byte);
    }
    assert_eq!(buffer.slice(0, 4), b"cdef");
    assert_eq!(buffer.current_length(), 4);
}
