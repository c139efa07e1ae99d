use singletonzip::{decode, encode, Reader, ZipError};

fn payload_of_length(length: usize) -> Vec<u8> {
    let mut x: u32 = 7;
    (0..length)
        .map(|i| {
            x = x.wrapping_mul(1_664_525).wrapping_add(1_013_904_223);
            // runs of one byte between noise, so that the stream is short
            if i % 4096 < 3000 { 0x55 } else { (x >> 24) as u8 }
        })
        .collect()
}

fn read_in_pieces(source: &[u8], piece: usize) -> Result<Vec<u8>, ZipError> {
    let mut reader = Reader::open(source)?;
    let mut payload = Vec::new();
    let mut buf = vec![0u8; piece];
    loop {
        let len = reader.read(&mut buf)?;
        assert!(len <= piece);
        if len == 0 {
            return Ok(payload);
        }
        payload.extend_from_slice(&buf[..len]);
    }
}

#[test]
fn pieces_of_any_size_give_the_payload_in_order() {
    let payload = payload_of_length(300_000);
    let container = encode(b"pieces", &payload).unwrap();
    for piece in [1usize, 7, 4096, 32 * 1024, 100_000, 1_000_000] {
        assert_eq!(read_in_pieces(&container, piece).unwrap(), payload, "pieces of {}", piece);
    }
}

#[test]
fn what_was_read_is_not_read_again() {
    let payload = payload_of_length(50_000);
    let container = encode(b"rest", &payload).unwrap();
    let mut reader = Reader::open(&container).unwrap();
    let mut front = [0u8; 1000];
    let len = reader.read(&mut front).unwrap();
    assert!(0 < len && len <= 1000);
    assert_eq!(&front[..len], &payload[..len]);
    let mut rest = Vec::new();
    assert_eq!(reader.read_to_end(&mut rest).unwrap(), payload.len() - len);
    assert_eq!(rest, &payload[len..]);
    // nothing is left
    assert_eq!(reader.read(&mut front).unwrap(), 0);
    assert_eq!(reader.read_to_end(&mut rest).unwrap(), 0);
    assert_eq!(rest, &payload[len..]);
}

#[test]
fn empty_buffer_is_filled_with_nothing() {
    let container = encode(b"empty", b"payload").unwrap();
    let mut reader = Reader::open(&container).unwrap();
    assert_eq!(reader.read(&mut []).unwrap(), 0);
    let mut payload = Vec::new();
    assert_eq!(reader.read_to_end(&mut payload).unwrap(), 7);
    assert_eq!(payload, b"payload");
}

#[test]
fn bytes_behind_the_stream_have_no_part_in_the_payload() {
    let payload = payload_of_length(200_000);
    let container = encode(b"cut", &payload).unwrap();
    // the stream ends 22 + 44 + 3 bytes before the end of the container
    let stream_end = container.len() - 22 - 47;
    let cut = &container[..stream_end];
    assert_eq!(decode(cut).unwrap(), payload);
    for piece in [1usize, 7, 4096, 1_000_000] {
        assert_eq!(read_in_pieces(cut, piece).unwrap(), payload, "pieces of {}", piece);
    }
    let mut longer = container.clone();
    longer.extend_from_slice(&[0xab; 1000]);
    assert_eq!(decode(&longer).unwrap(), payload);
}

#[test]
fn stream_that_is_cut_short_fails_however_it_is_read() {
    let payload = payload_of_length(200_000);
    let container = encode(b"short", &payload).unwrap();
    let stream_end = container.len() - 22 - 49;
    for cut in [stream_end - 1, stream_end - 2, stream_end - 100, 55 + 1, 55] {
        let short = &container[..cut];
        assert!(matches!(decode(short), Err(ZipError::Io(_))), "cut at {}", cut);
        for piece in [1usize, 7, 4096, 1_000_000] {
            assert!(matches!(read_in_pieces(short, piece), Err(ZipError::Io(_))), "cut at {}, pieces of {}", cut, piece);
        }
    }
}
