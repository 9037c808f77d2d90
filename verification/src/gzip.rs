//! Gzip streams in memory.

use crate::system::{self, IoErrorKind};
use flate2::read::GzDecoder;
use flate2::write::GzEncoder;
use flate2::Compression;
use std::io::{Read, Write};
use vstd::prelude::*;

verus! {

/// Declares `flate2::read::GzDecoder`, a stream of decompressed bytes.
#[verifier::external_type_specification]
#[verifier::external_body]
#[verifier::reject_recursive_types(R)]
pub struct ExGzDecoder<R>(GzDecoder<R>);

/// Holds a `flate2::write::GzEncoder` that compresses into memory.
#[verifier::external_body]
pub struct Compressor {
    encoder: GzEncoder<Vec<u8>>,
}

/// The plain bytes of the gzip member at the start of `data`, as far as they can be
/// decompressed, and the kind of failure that its damage leads to, if it is damaged.
pub uninterp spec fn gunzip(data: Seq<u8>) -> (Seq<u8>, Option<IoErrorKind>);

/// The plain bytes that lie ahead of a decoder, as far as they can be decompressed.
pub uninterp spec fn unread(decoder: GzDecoder<&[u8]>) -> Seq<u8>;

/// The kind of failure that lies ahead of a decoder, or `None` if what lies ahead is
/// intact to the end of its gzip member.
pub uninterp spec fn damage(decoder: GzDecoder<&[u8]>) -> Option<IoErrorKind>;

/// The plain bytes that a compressor has been given.
pub uninterp spec fn accepted(compressor: Compressor) -> Seq<u8>;

/// The compressed bytes that have been taken out of a compressor.
pub uninterp spec fn taken(compressor: Compressor) -> Seq<u8>;

/// The compressed bytes that a compressor has put out and that have not been taken yet.
pub uninterp spec fn ready(compressor: Compressor) -> Seq<u8>;

/// Calls `flate2::read::GzDecoder::new`. Claims that what the decoder will hand out is
/// a function of `data`; it reads the first gzip member there and nothing behind it.
#[verifier::external_body]
pub(crate) fn decoder<'a>(data: &'a [u8]) -> (decoder: GzDecoder<&'a [u8]>)
    ensures
        (unread(decoder), damage(decoder)) == gunzip(data@),
{
    GzDecoder::new(data)
}

/// Calls `read` of `flate2::read::GzDecoder` with a buffer of `limit` bytes. Claims that
/// the bytes that come are the next ones, that none come only at the end of an intact
/// member, and that a read fails only where the member is damaged, with the kind that goes
/// with the damage: an unexpected end where the member is cut off, else another kind. After
/// how many bytes the failure comes, and what the decoder holds then, is left open.
#[verifier::external_body]
pub(crate) fn read(decoder: &mut GzDecoder<&[u8]>, limit: usize) -> (r: Result<
    Vec<u8>,
    std::io::Error,
>)
    requires
        0 < limit <= 65536,
    ensures
        match r {
            Ok(chunk) => {
                &&& chunk@.len() <= limit
                &&& unread(*old(decoder)) == chunk@ + unread(*final(decoder))
                &&& damage(*final(decoder)) == damage(*old(decoder))
                &&& chunk@.len() == 0 ==> unread(*old(decoder)).len() == 0 && damage(
                    *old(decoder),
                ) is None
            },
            Err(error) => damage(*old(decoder)) == Some(system::io_error_kind(error)),
        },
{
    let mut chunk: Vec<u8> = vec![0; limit];
    let count = decoder.read(&mut chunk)?;
    chunk.truncate(count);
    Ok(chunk)
}

/// Calls `flate2::write::GzEncoder::new` on an empty vector, with the default level of
/// compression. Claims that nothing has been given to the encoder or taken out of it, and
/// that it has put out nothing yet.
#[verifier::external_body]
pub(crate) fn compressor() -> (compressor: Compressor)
    ensures
        accepted(compressor) == Seq::<u8>::empty(),
        taken(compressor) == Seq::<u8>::empty(),
        ready(compressor) == Seq::<u8>::empty(),
{
    Compressor { encoder: GzEncoder::new(Vec::new(), Compression::default()) }
}

/// Calls `write_all` of `flate2::write::GzEncoder`. Claims that it succeeds, since the
/// vector behind the encoder takes every write, that the encoder then has been given
/// `bytes` too, and that what it puts out comes behind what is ready. How much it puts out
/// is left open.
#[verifier::external_body]
pub(crate) fn write_all(compressor: &mut Compressor, bytes: &[u8]) -> (r: Result<
    (),
    std::io::Error,
>)
    ensures
        r is Ok,
        accepted(*final(compressor)) == accepted(*old(compressor)) + bytes@,
        taken(*final(compressor)) == taken(*old(compressor)),
        ready(*old(compressor)).is_prefix_of(ready(*final(compressor))),
{
    compressor.encoder.write_all(bytes)
}

/// Calls `flate2::write::GzEncoder::get_mut` and takes what the vector there holds.
/// Claims that all the bytes that are ready come out, and count as taken, and that what
/// the encoder has been given stays the same.
#[verifier::external_body]
pub(crate) fn take_output(compressor: &mut Compressor) -> (output: Vec<u8>)
    ensures
        accepted(*final(compressor)) == accepted(*old(compressor)),
        output@ == ready(*old(compressor)),
        ready(*final(compressor)) == Seq::<u8>::empty(),
        taken(*final(compressor)) == taken(*old(compressor)) + output@,
{
    std::mem::take(compressor.encoder.get_mut())
}

/// Calls `flate2::write::GzEncoder::finish`. Claims that it succeeds, since the vector
/// behind the encoder takes every write, that what had been taken out and what comes now
/// are, together, an intact gzip member of what the encoder had been given, and that what
/// was ready comes first.
#[verifier::external_body]
pub(crate) fn finish(compressor: Compressor) -> (r: Result<Vec<u8>, std::io::Error>)
    ensures
        r is Ok,
        r matches Ok(output) ==> {
            &&& gunzip(taken(compressor) + output@).0 == accepted(compressor)
            &&& gunzip(taken(compressor) + output@).1 is None
            &&& ready(compressor).is_prefix_of(output@)
        },
{
    compressor.encoder.finish()
}

} // verus!
