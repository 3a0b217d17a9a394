//! Compression throughput: one buffer, compressed to a gzip stream over and
//! over, each time with a fresh encoder at the default level.

use vstd::prelude::*;
use flate2::write::GzEncoder;
use flate2::Compression;
use std::io::Write;
use crate::buffer::{pattern, pattern_buffer, BUFFER_LEN};

verus! {

/// Number of streams that the workload produces.
pub const COMPRESSION_ROUNDS: u32 = 50;

/// A gzip encoder of the `flate2` crate that writes into a vector, at the
/// default level. What is inside it is the crate's own matter: the library
/// knows an encoder by the bytes that it has taken.
#[verifier::external_body]
pub struct Encoder {
    inner: GzEncoder<Vec<u8>>,
}

/// The error of std's input and output.
#[verifier::external_type_specification]
#[verifier::external_body]
pub struct ExIoError(std::io::Error);

/// The bytes that an encoder has taken; nothing once a write to it has
/// failed.
pub uninterp spec fn encoder_input(encoder: Encoder) -> Option<Seq<u8>>;

/// Whether a fresh encoder takes `input` when it is written to it in one
/// piece. The encoder passes the bytes to its deflate stream and what that
/// emits to the vector, which takes everything; the write fails where the
/// stream reports an error, and that depends on the bytes alone.
pub uninterp spec fn write_taken(input: Seq<u8>) -> bool;

/// What finishing yields for an encoder that has taken `input` in one
/// piece: the gzip stream of `input` at the default level, or nothing where
/// the deflate stream reports an error. Which of the two depends on the
/// bytes alone.
pub uninterp spec fn gzip_stream(input: Seq<u8>) -> Option<Seq<u8>>;

/// `GzEncoder::new` over an empty vector, with `Compression::default`: an
/// encoder that has taken nothing.
#[verifier::external_body]
fn encoder_new() -> (encoder: Encoder)
    ensures
        encoder_input(encoder) == Some(Seq::<u8>::empty()),
{
    Encoder { inner: GzEncoder::new(Vec::new(), Compression::default()) }
}

/// `Write::write_all` on a fresh `GzEncoder`: it succeeds where a fresh
/// encoder takes `data`, and the encoder has then taken `data`.
#[verifier::external_body]
fn encoder_write_all(encoder: &mut Encoder, data: &[u8]) -> (outcome: Result<(), std::io::Error>)
    requires
        encoder_input(*old(encoder)) == Some(Seq::<u8>::empty()),
    ensures
        outcome is Ok <==> write_taken(data@),
        outcome is Ok ==> encoder_input(*final(encoder)) == Some(data@),
        outcome is Err ==> encoder_input(*final(encoder)) is None,
{
    encoder.inner.write_all(data)
}

/// `GzEncoder::finish` on an encoder no write to which has failed: the
/// finished stream of what it has taken, or an error where there is none.
#[verifier::external_body]
fn encoder_finish(encoder: Encoder) -> (outcome: Result<Vec<u8>, std::io::Error>)
    requires
        encoder_input(encoder) is Some,
    ensures
        outcome matches Ok(stream) ==> gzip_stream(encoder_input(encoder)->0) == Some(stream@),
        outcome is Err ==> gzip_stream(encoder_input(encoder)->0) is None,
{
    encoder.inner.finish()
}

/// Why no stream was produced.
#[derive(Clone, Copy, Debug, PartialEq, Eq, Structural)]
pub enum CompressionError {
    /// The encoder did not take the data.
    Write,
    /// The encoder did not finish its stream.
    Finish,
}

/// Turns what writing returned into the library's own result: any error
/// into `Write`.
pub fn written_or_error(outcome: Result<(), std::io::Error>) -> (written: Result<
    (),
    CompressionError,
>)
    ensures
        outcome is Ok ==> written == Ok::<(), CompressionError>(()),
        outcome is Err ==> written == Err::<(), CompressionError>(CompressionError::Write),
{
    match outcome {
        Ok(_) => Ok(()),
        Err(_) => Err(CompressionError::Write),
    }
}

/// Turns what finishing returned into the library's own result: the stream
/// as it is, and any error into `Finish`.
pub fn finished_or_error(outcome: Result<Vec<u8>, std::io::Error>) -> (stream: Result<
    Vec<u8>,
    CompressionError,
>)
    ensures
        outcome matches Ok(bytes) ==> stream == Ok::<Vec<u8>, CompressionError>(bytes),
        outcome is Err ==> stream == Err::<Vec<u8>, CompressionError>(CompressionError::Finish),
{
    match outcome {
        Ok(bytes) => Ok(bytes),
        Err(_) => Err(CompressionError::Finish),
    }
}

/// What compressing `input` gives: the error `Write` where a fresh encoder
/// does not take it, the error `Finish` where the encoder takes it and does
/// not finish, and else the finished stream.
pub open spec fn compressed(input: Seq<u8>) -> Result<Seq<u8>, CompressionError> {
    if !write_taken(input) {
        Err(CompressionError::Write)
    } else {
        match gzip_stream(input) {
            Some(stream) => Ok(stream),
            None => Err(CompressionError::Finish),
        }
    }
}

/// Compresses `data` to a gzip stream with a fresh encoder at the default
/// level: writes all of it, then finishes the stream.
///
/// Whether the encoder fails depends on `data` alone; the result is what
/// the encoder gives for it, stream or error.
pub fn compress(data: &[u8]) -> (stream: Result<Vec<u8>, CompressionError>)
    ensures
        stream matches Ok(bytes) ==> compressed(data@) == Ok::<Seq<u8>, CompressionError>(bytes@),
        stream matches Err(error) ==> compressed(data@) == Err::<Seq<u8>, CompressionError>(error),
{
    let mut encoder = encoder_new();
    match written_or_error(encoder_write_all(&mut encoder, data)) {
        Err(error) => Err(error),
        Ok(_) => finished_or_error(encoder_finish(encoder)),
    }
}

/// Compresses `data` `rounds` times, each time afresh, and stops at the
/// first failure. Returns the last stream; with no round, none.
pub fn compress_rounds(data: &[u8], rounds: u32) -> (last: Result<
    Option<Vec<u8>>,
    CompressionError,
>)
    ensures
        rounds == 0 ==> last == Ok::<Option<Vec<u8>>, CompressionError>(None),
        last matches Ok(None) ==> rounds == 0,
        last matches Ok(Some(bytes)) ==> compressed(data@) == Ok::<Seq<u8>, CompressionError>(
            bytes@,
        ),
        last matches Err(error) ==> compressed(data@) == Err::<Seq<u8>, CompressionError>(error),
{
    let mut last: Option<Vec<u8>> = None;
    for round in 0..rounds
        invariant
            round == 0 <==> last is None,
            last matches Some(bytes) ==> compressed(data@) == Ok::<Seq<u8>, CompressionError>(
                bytes@,
            ),
    {
        match compress(data) {
            Ok(bytes) => {
                last = Some(bytes);
            },
            Err(error) => {
                return Err(error);
            },
        }
    }
    Ok(last)
}

/// The compression workload: compresses the pattern buffer of 10000 bytes
/// 50 times and returns the last stream. The first failure of the encoder
/// ends the workload and is returned; the result is what compressing the
/// buffer gives, stream or error.
pub fn rust_compression() -> (stream: Result<Vec<u8>, CompressionError>)
    ensures
        stream matches Ok(bytes) ==> compressed(pattern(10000)) == Ok::<
            Seq<u8>,
            CompressionError,
        >(bytes@),
        stream matches Err(error) ==> compressed(pattern(10000)) == Err::<
            Seq<u8>,
            CompressionError,
        >(error),
{
    let data: Vec<u8> = pattern_buffer(BUFFER_LEN);
    match compress_rounds(data.as_slice(), COMPRESSION_ROUNDS) {
        Ok(last) => Ok(last.unwrap()),
        Err(error) => Err(error),
    }
}

} // verus!
