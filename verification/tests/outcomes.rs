use flatestream::miniz::{code_to_result, mz_error_of_code, MzError, StepOutcome};
use flatestream::reader::ReadOutcome;
use flatestream::stream::{ByteSink, ByteSource, MemorySink, MemorySource};
use flatestream::{DeflateWriter, InflateReader};

#[test]
fn end_of_stream_latches() {
    let sink = MemorySink::new();
    let mut writer = DeflateWriter::new(sink).unwrap();
    writer.write(&b"latch me".to_vec()).unwrap();
    writer.close().unwrap();
    let packed = writer.into_inner().into_vec();

    let mut reader = InflateReader::new(MemorySource::new(packed), true).unwrap();
    let mut out: Vec<u8> = Vec::new();
    let mut rounds = 0;
    loop {
        let (bytes, outcome) = reader.read(4);
        out.extend_from_slice(&bytes);
        match outcome {
            ReadOutcome::More => {}
            ReadOutcome::End => break,
            other => panic!("unexpected read outcome: {:?}", other),
        }
        rounds += 1;
        assert!(rounds < 1000);
    }
    assert_eq!(out, b"latch me".to_vec());
    // Once end-of-stream was reported, every further call reports it again
    // at once and hands out nothing.
    for _ in 0..3 {
        let (bytes, outcome) = reader.read(4);
        assert!(bytes.is_empty());
        assert!(matches!(outcome, ReadOutcome::End));
    }
}

#[test]
fn malformed_input_reports_malformed() {
    // Not a valid zlib stream: the header is rejected, never a silent empty result.
    let garbage = vec![0x12u8, 0x34, 0x56, 0x78, 0x9a, 0xbc, 0xde, 0xf0];
    let mut reader = InflateReader::new(MemorySource::new(garbage), true).unwrap();
    let (bytes, outcome) = reader.read(64);
    assert!(bytes.is_empty());
    assert!(matches!(outcome, ReadOutcome::Malformed));
}

#[test]
fn close_twice_is_idempotent() {
    let sink = MemorySink::new();
    let mut writer = DeflateWriter::new(sink).unwrap();
    writer.write(&b"close me twice".to_vec()).unwrap();
    assert!(writer.close().is_ok());
    let after_first = writer.sink_ref().bytes().clone();
    assert!(writer.close().is_ok());
    assert!(writer.close().is_ok());
    let packed = writer.into_inner().into_vec();
    // The second and third close released nothing again and emitted no second
    // trailing finish sequence.
    assert_eq!(packed, after_first);

    let mut reader = InflateReader::new(MemorySource::new(packed), true).unwrap();
    let mut out: Vec<u8> = Vec::new();
    loop {
        let (bytes, outcome) = reader.read(8);
        out.extend_from_slice(&bytes);
        match outcome {
            ReadOutcome::More => {}
            ReadOutcome::End => break,
            other => panic!("unexpected read outcome: {:?}", other),
        }
    }
    assert_eq!(out, b"close me twice".to_vec());
}

#[test]
fn small_writes_are_batched() {
    // Below the flush threshold nothing is compressed or forwarded yet.
    let sink = MemorySink::new();
    let mut writer = DeflateWriter::new(sink).unwrap();
    writer.write(&b"tiny".to_vec()).unwrap();
    assert!(writer.sink_ref().bytes().is_empty());
    let sink = writer.into_inner();
    assert!(sink.into_vec().is_empty());
}

#[test]
fn explicit_flush_below_minimum_is_a_no_op() {
    let mut writer = DeflateWriter::new(MemorySink::new()).unwrap();
    writer.write(&b"abc".to_vec()).unwrap();
    assert!(writer.flush().is_ok());
    assert!(writer.sink_ref().bytes().is_empty());
}

#[test]
fn empty_source_is_a_fatal_buffer_fault() {
    // With nothing to decompress the codec can make no progress at all: a
    // buffer fault, which is fatal, not a malformed stream.
    let mut reader = InflateReader::new(MemorySource::new(Vec::new()), true).unwrap();
    let (bytes, outcome) = reader.read(16);
    assert!(bytes.is_empty());
    assert!(matches!(outcome, ReadOutcome::Fatal));
}

#[test]
fn truncated_stream_is_a_fatal_buffer_fault() {
    let sink = MemorySink::new();
    let mut writer = DeflateWriter::new(sink).unwrap();
    for _ in 0..64 {
        writer.write(&b"some compressible text ".to_vec()).unwrap();
    }
    writer.close().unwrap();
    let mut packed = writer.into_inner().into_vec();
    packed.truncate(packed.len() / 2);

    let mut reader = InflateReader::new(MemorySource::new(packed), true).unwrap();
    let mut rounds = 0;
    loop {
        let (_, outcome) = reader.read(64);
        match outcome {
            ReadOutcome::More => {}
            ReadOutcome::End => panic!("a truncated stream must not end cleanly"),
            ReadOutcome::Fatal => break,
            other => panic!("unexpected read outcome: {:?}", other),
        }
        rounds += 1;
        assert!(rounds < 10_000);
    }
}

#[test]
fn large_write_drains_the_staging_buffer() {
    // At or above the flush threshold a write runs compression steps until
    // the codec has consumed every staged byte.
    let mut writer = DeflateWriter::new(MemorySink::new()).unwrap();
    writer.write(&vec![7u8; 200]).unwrap();
    assert_eq!(writer.buffer_len(), 0);
}

#[test]
fn memory_source_hands_out_in_order() {
    let mut source = MemorySource::new(vec![1, 2, 3, 4, 5, 6, 7]);
    assert_eq!(source.read_chunk(4).unwrap(), vec![1, 2, 3, 4]);
    assert_eq!(source.read_chunk(100).unwrap(), vec![5, 6, 7]);
    assert_eq!(source.read_chunk(100).unwrap(), Vec::<u8>::new());
    assert_eq!(source.read_chunk(0).unwrap(), Vec::<u8>::new());
}

#[test]
fn memory_sink_appends_in_order() {
    let mut sink = MemorySink::new();
    sink.write_all(&vec![1, 2]).unwrap();
    sink.write_all(&vec![]).unwrap();
    sink.write_all(&vec![3]).unwrap();
    assert_eq!(sink.bytes(), &vec![1, 2, 3]);
    assert_eq!(sink.into_vec(), vec![1, 2, 3]);
}

#[test]
fn fresh_reader_stages_nothing() {
    let reader = InflateReader::new(MemorySource::new(vec![9, 9, 9]), true).unwrap();
    assert_eq!(reader.buffer_len(), 0);
    assert!(reader.buffer_ptr().is_empty());
}

#[test]
fn code_to_result_classes() {
    assert_eq!(code_to_result(0), StepOutcome::Continue);
    assert_eq!(code_to_result(1), StepOutcome::End);
    assert_eq!(code_to_result(2), StepOutcome::Malformed);
    assert_eq!(code_to_result(-1), StepOutcome::Malformed);
    assert_eq!(code_to_result(-2), StepOutcome::Malformed);
    assert_eq!(code_to_result(-3), StepOutcome::Malformed);
    assert_eq!(code_to_result(-6), StepOutcome::Malformed);
    assert_eq!(code_to_result(-4), StepOutcome::Fatal);
    assert_eq!(code_to_result(-5), StepOutcome::Fatal);
    assert_eq!(code_to_result(-10000), StepOutcome::Fatal);
    // Unknown codes are fatal faults, never silently ignored.
    assert_eq!(code_to_result(7), StepOutcome::Fatal);
    assert_eq!(code_to_result(-7), StepOutcome::Fatal);
}

#[test]
fn mz_error_of_code_names() {
    assert_eq!(mz_error_of_code(0), None);
    assert_eq!(mz_error_of_code(1), Some(MzError::StreamEnd));
    assert_eq!(mz_error_of_code(2), Some(MzError::NeedDict));
    assert_eq!(mz_error_of_code(-1), Some(MzError::ErrNo));
    assert_eq!(mz_error_of_code(-2), Some(MzError::StreamError));
    assert_eq!(mz_error_of_code(-3), Some(MzError::DataError));
    assert_eq!(mz_error_of_code(-4), Some(MzError::MemError));
    assert_eq!(mz_error_of_code(-5), Some(MzError::BufError));
    assert_eq!(mz_error_of_code(-6), Some(MzError::VersionError));
    assert_eq!(mz_error_of_code(-10000), Some(MzError::ParamError));
    assert_eq!(mz_error_of_code(99), None);
}
