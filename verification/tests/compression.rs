use bench_kernels::buffer::pattern_buffer;
use bench_kernels::compression::{
    compress, compress_rounds, finished_or_error, rust_compression, written_or_error,
    CompressionError,
};
use std::io::Read;

fn inflate(stream: &[u8]) -> Vec<u8> {
    let mut decoder = flate2::read::GzDecoder::new(stream);
    let mut out = Vec::new();
    decoder.read_to_end(&mut out).unwrap();
    out
}

#[test]
fn compressed_pattern_buffer_inflates_to_itself() {
    let data = pattern_buffer(10000);
    let stream = compress(&data).unwrap();
    assert_ne!(stream, data);
    assert!(stream.len() < data.len());
    assert_eq!(inflate(&stream), data);
}

#[test]
fn stream_is_gzip_at_the_default_level() {
    let stream = compress(&pattern_buffer(10000)).unwrap();
    assert_eq!(&stream[..4], &[0x1f, 0x8b, 8, 0]);
    assert_eq!(&stream[4..8], &[0, 0, 0, 0]);
    assert_eq!(stream[8], 0);
    let size = &stream[stream.len() - 4..];
    assert_eq!(size, &10000u32.to_le_bytes());
}

#[test]
fn compression_is_repeatable() {
    let data = pattern_buffer(10000);
    assert_eq!(compress(&data).unwrap(), compress(&data).unwrap());
}

#[test]
fn empty_input_gives_an_empty_member() {
    let stream = compress(&[]).unwrap();
    assert!(stream.len() >= 18);
    assert_eq!(inflate(&stream), Vec::<u8>::new());
}

#[test]
fn compress_rounds_returns_the_last_stream() {
    let data = pattern_buffer(10000);
    assert_eq!(compress_rounds(&data, 0), Ok(None));
    let once = compress(&data).unwrap();
    assert_eq!(compress_rounds(&data, 1), Ok(Some(once.clone())));
    assert_eq!(compress_rounds(&data, 50), Ok(Some(once)));
}

#[test]
fn encoder_errors_become_library_errors() {
    let failure = || std::io::Error::new(std::io::ErrorKind::Other, "failed");
    assert_eq!(written_or_error(Err(failure())), Err(CompressionError::Write));
    assert_eq!(written_or_error(Ok(())), Ok(()));
    assert_eq!(finished_or_error(Err(failure())), Err(CompressionError::Finish));
    assert_eq!(finished_or_error(Ok(vec![9, 9])), Ok(vec![9, 9]));
}

#[test]
fn compression_workload_returns_the_stream() {
    let data = pattern_buffer(10000);
    let stream = rust_compression().unwrap();
    assert_eq!(inflate(&stream), data);
    assert_eq!(stream, compress(&data).unwrap());
}
