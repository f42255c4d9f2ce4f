use topspin::buffer::{Buffer, DEFAULT_SIZE};
use topspin::codec::{encode, STDERR_TAG, STDOUT_TAG};

const FRAME_MAX: usize = 16;

fn check_buffer(frames: Vec<(u8, usize)>, chunk_sizes: Vec<usize>) -> bool {
    if frames.is_empty() || chunk_sizes.is_empty() {
        return true;
    }
    let mut stream: Vec<u8> = Vec::new();
    for (tag, data_len) in frames {
        let payload = vec![0u8; data_len];
        stream.extend_from_slice(&encode(tag, &payload));
    }
    let mut buffer = Buffer::with_capacity(FRAME_MAX * 2).unwrap();
    let mut pos: usize = 0;
    for size in chunk_sizes {
        let mid = std::cmp::max(size % FRAME_MAX, 1);
        if mid > stream.len() - pos {
            break;
        }
        let mut chunk = &stream[pos..pos + mid];
        pos += mid;
        // Drain the chunk before moving on to the next one.
        while !chunk.is_empty() {
            buffer.advance(0);
            if buffer.full() {
                // The buffer must never fill: it is sized at twice the
                // largest frame.
                return false;
            }
            let n = std::cmp::min(chunk.len(), buffer.available());
            buffer.copy_in(&chunk[..n]);
            buffer.advance(n);
            chunk = &chunk[n..];
            if buffer.read_frame().is_err() {
                // No illegal tag byte can appear in a well-formed stream.
                return false;
            }
        }
    }
    true
}

#[test]
fn test_buffer_debug() {
    let passed = check_buffer(
        vec![(2, 11), (2, 13), (2, 2), (1, 15), (1, 10)],
        vec![40, 7, 19, 45, 84, 11, 6, 13, 0],
    );
    assert!(passed);
}

#[test]
fn new_buffer_has_default_capacity_free() {
    let buffer = Buffer::new();
    assert!(!buffer.full());
    assert_eq!(buffer.available(), DEFAULT_SIZE);
}

#[test]
fn with_capacity_rounds_up_to_power_of_two() {
    assert_eq!(Buffer::with_capacity(0).unwrap().available(), 1);
    assert_eq!(Buffer::with_capacity(1).unwrap().available(), 1);
    assert_eq!(Buffer::with_capacity(5).unwrap().available(), 8);
    assert_eq!(Buffer::with_capacity(32).unwrap().available(), 32);
    assert_eq!(Buffer::with_capacity(33).unwrap().available(), 64);
    assert!(Buffer::with_capacity(usize::MAX).is_none());
}

#[test]
fn frames_come_back_in_order_across_chunks() {
    let mut stream = encode(STDOUT_TAG, b"first");
    stream.extend_from_slice(&encode(STDERR_TAG, b"second"));
    stream.extend_from_slice(&encode(STDOUT_TAG, b""));
    let mut buffer = Buffer::with_capacity(32).unwrap();
    let mut seen: Vec<(u8, Vec<u8>)> = Vec::new();
    for chunk in stream.chunks(3) {
        let mut chunk = chunk;
        while !chunk.is_empty() {
            buffer.advance(0);
            assert!(!buffer.full());
            let n = std::cmp::min(chunk.len(), buffer.available());
            buffer.copy_in(&chunk[..n]);
            buffer.advance(n);
            chunk = &chunk[n..];
            while let Some(frame) = buffer.read_frame().unwrap() {
                seen.push((frame.tag(), frame.payload().clone()));
            }
        }
    }
    assert_eq!(
        seen,
        vec![
            (1u8, b"first".to_vec()),
            (2u8, b"second".to_vec()),
            (1u8, Vec::new()),
        ]
    );
}

#[test]
fn read_frame_surfaces_protocol_violation() {
    let mut bytes = encode(STDOUT_TAG, b"xy");
    bytes[0] = 9;
    let mut buffer = Buffer::with_capacity(32).unwrap();
    buffer.copy_in(&bytes);
    buffer.advance(bytes.len());
    assert!(buffer.read_frame().is_err());
}

#[test]
fn read_frame_waits_for_complete_frame() {
    let bytes = encode(STDERR_TAG, b"abcdef");
    let mut buffer = Buffer::with_capacity(32).unwrap();
    buffer.copy_in(&bytes[..10]);
    buffer.advance(10);
    assert_eq!(buffer.read_frame().unwrap(), None);
    buffer.copy_in(&bytes[10..]);
    buffer.advance(bytes.len() - 10);
    let frame = buffer.read_frame().unwrap().unwrap();
    assert_eq!(frame.payload().as_slice(), b"abcdef");
}

#[test]
fn compaction_reclaims_consumed_space() {
    // Fill the buffer exactly, consume one frame, and commit again: the
    // unconsumed bytes compact to the front and free space reappears.
    let first = encode(STDOUT_TAG, &[1u8; 7]);
    let second = encode(STDOUT_TAG, &[2u8; 7]);
    let mut buffer = Buffer::with_capacity(32).unwrap();
    buffer.copy_in(&first);
    buffer.advance(first.len());
    buffer.copy_in(&second);
    buffer.advance(second.len());
    assert!(buffer.full());
    let frame = buffer.read_frame().unwrap().unwrap();
    assert_eq!(frame.payload(), &vec![1u8; 7]);
    buffer.advance(0);
    assert!(!buffer.full());
    assert_eq!(buffer.available(), first.len());
    let frame = buffer.read_frame().unwrap().unwrap();
    assert_eq!(frame.payload(), &vec![2u8; 7]);
    assert_eq!(buffer.available(), 32);
}

#[test]
fn read_frame_keeps_write_cursor_until_drained() {
    let mut buffer = Buffer::with_capacity(64).unwrap();
    let first = encode(STDOUT_TAG, b"aa");
    let second = encode(STDERR_TAG, b"bb");
    buffer.copy_in(&first);
    buffer.advance(first.len());
    buffer.copy_in(&second);
    buffer.advance(second.len());
    let free = buffer.available();
    // A read that leaves bytes buffered moves only the read cursor.
    buffer.read_frame().unwrap().unwrap();
    assert_eq!(buffer.available(), free);
    // Draining the buffer returns both cursors to the front.
    buffer.read_frame().unwrap().unwrap();
    assert_eq!(buffer.available(), 64);
}
