use flatestream::reader::ReadOutcome;
use flatestream::stream::{MemorySink, MemorySource};
use flatestream::{DeflateWriter, InflateReader, READ_BUFFER_SIZE};

fn lcg_bytes(n: usize, seed: u64) -> Vec<u8> {
    let mut x = seed;
    let mut v = Vec::with_capacity(n);
    for _ in 0..n {
        x = x
            .wrapping_mul(6364136223846793005)
            .wrapping_add(1442695040888963407);
        v.push((x >> 33) as u8);
    }
    v
}

fn compress(data: &[u8], chunk: usize) -> Vec<u8> {
    let sink = MemorySink::new();
    let mut writer = DeflateWriter::new(sink).unwrap();
    if chunk > 0 {
        for piece in data.chunks(chunk) {
            writer.write(&piece.to_vec()).unwrap();
        }
    }
    writer.close().unwrap();
    writer.into_inner().into_vec()
}

fn decompress(data: &[u8], requested: usize) -> Vec<u8> {
    let source = MemorySource::new(data.to_vec());
    let mut reader = InflateReader::new(source, true).unwrap();
    let mut out: Vec<u8> = Vec::new();
    let mut rounds: usize = 0;
    loop {
        let (bytes, outcome) = reader.read(requested);
        out.extend_from_slice(&bytes);
        match outcome {
            ReadOutcome::More => {}
            ReadOutcome::End => break,
            other => panic!("unexpected read outcome: {:?}", other),
        }
        rounds += 1;
        assert!(rounds < 4 * (data.len() + out.len() + 64), "reader made no progress");
    }
    out
}

#[test]
fn round_trip_small() {
    let data = b"a small piece of text, repeated: a small piece.".to_vec();
    assert!(data.len() <= 64);
    let packed = compress(&data, 7);
    // The stream is wrapped in a zlib container: its header starts 0x78.
    assert_eq!(packed[0], 0x78);
    assert_eq!(decompress(&packed, 16), data);
}

#[test]
fn round_trip_chunk_size_boundary() {
    let mut data = Vec::new();
    while data.len() < READ_BUFFER_SIZE {
        data.push((data.len() % 251) as u8);
    }
    assert_eq!(data.len(), READ_BUFFER_SIZE);
    let packed = compress(&data, READ_BUFFER_SIZE);
    assert_eq!(decompress(&packed, READ_BUFFER_SIZE), data);
}

#[test]
fn round_trip_multi_megabyte() {
    let mut data = Vec::new();
    let noise = lcg_bytes(1 << 12, 11);
    while data.len() < 3_000_000 {
        data.extend_from_slice(b"the quick brown fox jumps over the lazy dog; ");
        data.push(noise[data.len() % noise.len()]);
    }
    let packed = compress(&data, 4096);
    assert!(packed.len() < data.len());
    assert_eq!(decompress(&packed, 4096), data);
}

#[test]
fn round_trip_incompressible_grows_output() {
    // Pseudorandom bytes barely compress, so steps fill their whole output
    // buffer and force the growth loop; nothing may be lost on the way.
    let data = lcg_bytes(300_000, 7);
    let packed = compress(&data, 1024);
    assert!(packed.len() >= data.len() / 2);
    assert_eq!(decompress(&packed, 600), data);
}

#[test]
fn round_trip_empty() {
    let packed = compress(&[], 0);
    assert!(!packed.is_empty());
    assert_eq!(decompress(&packed, 32), Vec::<u8>::new());
}

#[test]
fn round_trip_empty_write() {
    let packed = compress(&[], 1);
    assert_eq!(decompress(&packed, 32), Vec::<u8>::new());
}

#[test]
fn partial_reads_lose_nothing() {
    let data = lcg_bytes(20_000, 3);
    let packed = compress(&data, 512);
    // A requested length far below the available output must still hand the
    // whole content out, without loss or duplication.
    assert_eq!(decompress(&packed, 7), data);
    assert_eq!(decompress(&packed, 1), data);
}
