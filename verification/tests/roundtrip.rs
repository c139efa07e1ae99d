use singletonzip::container::patch_back;
use singletonzip::{decode, encode, Reader, Writer};

const ZERO_ZIP: &str = "test.zero.zip";
const SMALL_ZIP: &str = "test.small.txt.zip";
const SMALL_STR: &str = "The quick brown fox jumps over the lazy dog";

struct PcgXshRr {
    state: u64,
}

impl PcgXshRr {
    const INC: u64 = 0x14057B7EF767814F;
    const MUL: u64 = 0x5851F42D4C957F2D;

    fn new(seed: u64) -> Self {
        Self { state: seed.wrapping_add(Self::INC).wrapping_mul(Self::MUL).wrapping_add(Self::INC) }
    }

    fn get(&mut self) -> u32 {
        let x = self.state;
        self.state = x.wrapping_mul(Self::MUL).wrapping_add(Self::INC);

        let count = x >> 59;
        let x = x ^ (x >> 18);
        let x = (x >> 27) as u32;
        x.rotate_right(count as u32)
    }
}

fn random_bytes(length: usize) -> Vec<u8> {
    let mut rng = PcgXshRr::new(0);
    let mut buffer = Vec::with_capacity(length);
    while buffer.len() < length {
        buffer.extend_from_slice(&rng.get().to_ne_bytes());
    }
    buffer.truncate(length);
    buffer
}

fn write_zero() -> Vec<u8> {
    let w = Writer::create(ZERO_ZIP).unwrap();
    w.finish().unwrap().into_container().unwrap()
}

fn write_small() -> Vec<u8> {
    let mut w = Writer::create(SMALL_ZIP).unwrap();
    w.write_all(SMALL_STR.as_bytes()).unwrap();
    w.finish().unwrap().into_container().unwrap()
}

fn read_all(container: &[u8]) -> Vec<u8> {
    let mut r = Reader::open(container).unwrap();
    let mut buf = Vec::new();
    r.read_to_end(&mut buf).unwrap();
    buf
}

fn u16_at(bytes: &[u8], at: usize) -> u16 {
    u16::from_le_bytes([bytes[at], bytes[at + 1]])
}

fn u32_at(bytes: &[u8], at: usize) -> u32 {
    u32::from_le_bytes([bytes[at], bytes[at + 1], bytes[at + 2], bytes[at + 3]])
}

fn u64_at(bytes: &[u8], at: usize) -> u64 {
    let mut field = [0u8; 8];
    field.copy_from_slice(&bytes[at..at + 8]);
    u64::from_le_bytes(field)
}

#[test]
fn zero_write() {
    write_zero();
}

#[test]
fn small_write() {
    write_small();
}

#[test]
fn zero_read() {
    let container = write_zero();
    let mut r = Reader::open(&container).unwrap();
    let mut buf = Vec::new();
    r.read_to_end(&mut buf).unwrap();
    assert!(buf.len() == 0);
}

#[test]
fn small_read() {
    let container = write_small();
    let mut r = Reader::open(&container).unwrap();
    let mut buf = Vec::new();
    r.read_to_end(&mut buf).unwrap();
    let s = String::from_utf8(buf).unwrap();
    assert!(s.eq(SMALL_STR));
}

#[test]
fn empty_payload_has_checksum_zero_and_size_zero() {
    let container = write_zero();
    let n = "test.zero".len();
    assert_eq!(&container[0..4], b"PK\x03\x04");
    assert_eq!(u32_at(&container, 14), 0);
    assert_eq!(u16_at(&container, 26) as usize, n);
    assert_eq!(&container[30..30 + n], b"test.zero");
    assert_eq!(u64_at(&container, 34 + n), 0);
    assert_eq!(read_all(&container), Vec::<u8>::new());
}

#[test]
fn small_container_is_laid_out_as_documented() {
    let container = write_small();
    let name = b"test.small.txt";
    let n = name.len();
    // local header
    assert_eq!(&container[0..4], b"PK\x03\x04");
    assert_eq!(u16_at(&container, 4), 45);
    assert_eq!(u16_at(&container, 6), 0);
    assert_eq!(u16_at(&container, 8), 8);
    assert_eq!(u16_at(&container, 10), 0);
    assert_eq!(u16_at(&container, 12), 0);
    assert_eq!(u32_at(&container, 14), 0x414f_a339);
    assert_eq!(u32_at(&container, 18), 0xffff_ffff);
    assert_eq!(u32_at(&container, 22), 0xffff_ffff);
    assert_eq!(u16_at(&container, 26) as usize, n);
    assert_eq!(u16_at(&container, 28), 20);
    assert_eq!(&container[30..30 + n], name);
    // its extra field
    assert_eq!(u16_at(&container, 30 + n), 1);
    assert_eq!(u16_at(&container, 32 + n), 16);
    assert_eq!(u64_at(&container, 34 + n), 43);
    let compressed_size = u64_at(&container, 42 + n) as usize;
    // the directory stands behind the stream, and takes 44 + n bytes; the
    // end record, 22
    let directory = 50 + n + compressed_size;
    assert_eq!(container.len(), directory + 44 + n + 22);
    assert_eq!(&container[directory..directory + 4], b"PK\x01\x02");
    assert_eq!(u16_at(&container, directory + 4), 45);
    assert_eq!(u16_at(&container, directory + 6), 45);
    assert_eq!(u16_at(&container, directory + 10), 8);
    assert_eq!(u32_at(&container, directory + 16), 0x414f_a339);
    assert_eq!(u32_at(&container, directory + 20) as usize, compressed_size);
    assert_eq!(u32_at(&container, directory + 24), 43);
    assert_eq!(u16_at(&container, directory + 28) as usize, n);
    assert_eq!(u16_at(&container, directory + 30), 0);
    assert_eq!(u16_at(&container, directory + 32), 0);
    assert_eq!(u32_at(&container, directory + 40), 0);
    assert_eq!(&container[directory + 44..directory + 44 + n], name);
    let end = directory + 44 + n;
    assert_eq!(&container[end..end + 4], b"PK\x05\x06");
    assert_eq!(u16_at(&container, end + 4), 0);
    assert_eq!(u16_at(&container, end + 6), 0);
    assert_eq!(u16_at(&container, end + 8), 1);
    assert_eq!(u16_at(&container, end + 10), 1);
    assert_eq!(u32_at(&container, end + 12) as usize, 44 + n);
    assert_eq!(u32_at(&container, end + 16) as usize, directory);
    assert_eq!(u16_at(&container, end + 20), 0);
}

#[test]
fn recorded_sizes_are_those_of_payload_and_stream() {
    let payload = random_bytes(300_000);
    let mut w = Writer::from_stem(Some(b"sizes".to_vec())).unwrap();
    w.write_all(&payload).unwrap();
    let end = w.finish().unwrap();
    assert_eq!(end.uncompressed_size, 300_000);
    // the stream is what stands between the preamble and the directory
    assert_eq!(end.tail.len() as u64, end.directory_offset);
    assert_eq!(end.compressed_size, end.directory_offset - 50 - 5);
    // and it ends with the two bytes that ending a flushed stream adds
    assert_eq!(&end.tail[end.tail.len() - 2..], &[0x03, 0x00]);
}

#[test]
fn stored_checksum_is_the_crc_32_of_the_payload() {
    let payload = random_bytes(70_001);
    let mut w = Writer::from_stem(Some(b"crc".to_vec())).unwrap();
    w.write_all(&payload).unwrap();
    let end = w.finish().unwrap();
    let mut independent = flate2::Crc::new();
    independent.update(&payload);
    assert_eq!(end.crc_32, independent.sum());
    let container = end.into_container().unwrap();
    assert_eq!(u32_at(&container, 14), independent.sum());
    assert_eq!(u32_at(&container, container.len() - 22 - 3 - 44 + 16), independent.sum());
}

#[test]
fn random_payload_comes_back() {
    let payload = random_bytes(1_000_003);
    let mut w = Writer::create("random.dat.zip").unwrap();
    for chunk in payload.chunks(65_536) {
        w.write_all(chunk).unwrap();
    }
    let container = w.finish().unwrap().into_container().unwrap();
    assert_eq!(u64_at(&container, 34 + "random.dat".len()), 1_000_003);
    assert_eq!(read_all(&container), payload);
}

#[test]
fn streamed_container_equals_the_one_completed_in_memory() {
    let payload = random_bytes(200_000);

    let mut buffered = Writer::from_stem(Some(b"stream".to_vec())).unwrap();
    for chunk in payload.chunks(50_000) {
        buffered.write_all(chunk).unwrap();
    }
    let expected = buffered.finish().unwrap().into_container().unwrap();

    // the caller stores what it takes, in order, then the tail; it writes
    // the three values at their offsets and appends the trailer
    let mut streamed = Writer::from_stem(Some(b"stream".to_vec())).unwrap();
    let mut stored = streamed.take_output();
    assert_eq!(stored.len(), 50 + 6);
    for chunk in payload.chunks(50_000) {
        streamed.write_all(chunk).unwrap();
        stored.extend_from_slice(&streamed.take_output());
    }
    assert_eq!(streamed.take_output(), Vec::<u8>::new());
    let end = streamed.finish().unwrap();
    stored.extend_from_slice(&end.tail);
    assert_eq!(stored.len() as u64, end.directory_offset);
    assert_eq!(end.offsets.crc_32, 14);
    assert_eq!(end.offsets.uncompressed_size, 30 + 6 + 4);
    assert_eq!(end.offsets.compressed_size, 30 + 6 + 12);
    assert!(patch_back(&mut stored, end.offsets, end.crc_32, end.uncompressed_size, end.compressed_size));
    stored.extend_from_slice(&end.trailer);
    assert_eq!(stored, expected);

    // once bytes were taken away, the tail alone is no container
    let mut drained = Writer::from_stem(Some(b"stream".to_vec())).unwrap();
    drained.take_output();
    assert!(drained.finish().unwrap().into_container().is_none());
}

#[test]
fn same_payload_under_another_name_differs_in_the_name_only() {
    let payload = random_bytes(10_000);
    let mut one = Writer::create("first/alpha.bin").unwrap();
    one.write_all(&payload).unwrap();
    let one = one.finish().unwrap().into_container().unwrap();
    let mut other = Writer::create("second/omega.bin").unwrap();
    other.write_all(&payload).unwrap();
    let other = other.finish().unwrap().into_container().unwrap();

    assert_eq!(one.len(), other.len());
    let directory = one.len() - 22 - 44 - 5;
    for i in 0..one.len() {
        let in_name = (30..35).contains(&i) || (directory + 44..directory + 49).contains(&i);
        if !in_name {
            assert_eq!(one[i], other[i], "at {}", i);
        }
    }
    assert_eq!(&one[30..35], b"alpha");
    assert_eq!(&other[30..35], b"omega");
    assert_eq!(&one[directory + 44..directory + 49], b"alpha");
    assert_eq!(&other[directory + 44..directory + 49], b"omega");
}

#[test]
fn same_payload_twice_gives_the_same_container() {
    assert_eq!(write_small(), write_small());
}

#[test]
fn payload_is_read_in_pieces() {
    let container = write_small();
    let mut r = Reader::open(&container).unwrap();
    let mut payload = Vec::new();
    let mut piece = [0u8; 7];
    loop {
        let len = r.read(&mut piece).unwrap();
        assert!(len <= 7);
        if len == 0 {
            break;
        }
        payload.extend_from_slice(&piece[..len]);
    }
    assert_eq!(payload, SMALL_STR.as_bytes());
}

#[test]
fn read_to_end_appends_behind_what_is_there() {
    let container = write_small();
    let mut r = Reader::open(&container).unwrap();
    let mut buf = b">> ".to_vec();
    let appended = r.read_to_end(&mut buf).unwrap();
    assert_eq!(appended, 43);
    assert_eq!(buf, format!(">> {}", SMALL_STR).into_bytes());
}

#[test]
fn write_takes_a_front_of_the_buffer_and_flush_keeps_the_payload() {
    let mut w = Writer::from_stem(Some(b"pieces".to_vec())).unwrap();
    let payload = SMALL_STR.as_bytes();
    let mut done = 0;
    while done < payload.len() {
        let len = w.write(&payload[done..]).unwrap();
        assert!(0 < len && len <= payload.len() - done);
        done += len;
        w.flush().unwrap();
    }
    let end = w.finish().unwrap();
    assert_eq!(end.crc_32, 0x414f_a339);
    assert_eq!(end.uncompressed_size, 43);
    let container = end.into_container().unwrap();
    assert_eq!(read_all(&container), payload);
}

#[test]
fn entry_is_named_by_the_stem_of_the_path() {
    let container = Writer::create("some/dir/archive.tar.zip").unwrap().finish().unwrap().into_container().unwrap();
    assert_eq!(u16_at(&container, 26), 11);
    assert_eq!(&container[30..41], b"archive.tar");
    let container = Writer::create("plain").unwrap().finish().unwrap().into_container().unwrap();
    assert_eq!(&container[30..35], b"plain");
    let container = Writer::create(".hidden").unwrap().finish().unwrap().into_container().unwrap();
    assert_eq!(&container[30..37], b".hidden");
}

#[test]
fn decode_gives_back_what_encode_was_given() {
    let payloads: Vec<Vec<u8>> = vec![
        Vec::new(),
        vec![0],
        SMALL_STR.as_bytes().to_vec(),
        vec![0xaa; 100_000],
        random_bytes(100_000),
    ];
    for payload in payloads {
        let container = encode(b"entry", &payload).unwrap();
        assert_eq!(decode(&container).unwrap(), payload);
        assert_eq!(u64_at(&container, 34 + 5), payload.len() as u64);
    }
}

#[test]
fn encode_is_the_writer_in_one_call() {
    assert_eq!(encode(b"test.small.txt", SMALL_STR.as_bytes()).unwrap(), write_small());
    assert_eq!(encode(b"test.zero", &[]).unwrap(), write_zero());
    assert_eq!(decode(&write_small()).unwrap(), SMALL_STR.as_bytes());
}

#[test]
fn compressible_payload_shrinks() {
    let container = encode(b"zeros", &vec![0u8; 1_000_000]).unwrap();
    assert!(container.len() < 10_000);
    assert_eq!(u64_at(&container, 34 + 5), 1_000_000);
    assert_eq!(decode(&container).unwrap(), vec![0u8; 1_000_000]);
}
