//! Typed values over the non-volatile key-value map.
//!
//! Every value lives in the flash map under a one-byte key, as the bytes that
//! `sequential_storage`'s `Value` codec produces for its type. Storing a value
//! encodes it; fetching a key yields the stored bytes (or nothing) and is
//! decoded here, with a missing key reading as zero.

use sequential_storage::map::SerializationError;
use sequential_storage::map::Value;
use vstd::bytes::*;
use vstd::prelude::*;

verus! {

/// First flash address of the key-value map.
pub const NVS_FLASH_START: u32 = 0x9000;

/// Flash address one past the end of the key-value map.
pub const NVS_FLASH_END: u32 = 0xE000;

/// Size of the scratch buffer the map works in.
pub const NVS_SCRATCH_LEN: usize = 256;

/// `sequential_storage::map::SerializationError`, the codec's error, carried
/// opaquely.
#[verifier::external_type_specification]
#[verifier::external_body]
pub struct ExSerializationError(SerializationError);

/// Why a stored value could not be read back as the requested type.
#[derive(Debug, Clone, Copy, PartialEq, Eq, Structural)]
pub enum NvsError {
    /// The stored bytes are too few for the requested type.
    Serialization,
}

/// `<u8 as Value>::serialize_into`: with room for one byte it writes `value`
/// into the first byte of `buffer` and returns `Ok(1)`; with an empty buffer it
/// fails and writes nothing.
#[verifier::external_body]
fn u8_serialize_into(value: u8, buffer: &mut [u8]) -> (r: Result<usize, SerializationError>)
    ensures
        r is Ok <==> old(buffer)@.len() >= 1,
        r matches Ok(n) ==> n == 1 && final(buffer)@ == seq![value] + old(buffer)@.skip(1),
        r is Err ==> final(buffer)@ == old(buffer)@,
{
    <u8 as Value>::serialize_into(&value, buffer)
}

/// `<u16 as Value>::serialize_into`: with room for two bytes it writes the
/// little-endian bytes of `value` at the start of `buffer` and returns `Ok(2)`;
/// otherwise it fails and writes nothing.
#[verifier::external_body]
fn u16_serialize_into(value: u16, buffer: &mut [u8]) -> (r: Result<usize, SerializationError>)
    ensures
        r is Ok <==> old(buffer)@.len() >= 2,
        r matches Ok(n) ==> n == 2 && final(buffer)@ == spec_u16_to_le_bytes(value) + old(buffer)@.skip(2),
        r is Err ==> final(buffer)@ == old(buffer)@,
{
    <u16 as Value>::serialize_into(&value, buffer)
}

/// `<u32 as Value>::serialize_into`: with room for four bytes it writes the
/// little-endian bytes of `value` at the start of `buffer` and returns `Ok(4)`;
/// otherwise it fails and writes nothing.
#[verifier::external_body]
fn u32_serialize_into(value: u32, buffer: &mut [u8]) -> (r: Result<usize, SerializationError>)
    ensures
        r is Ok <==> old(buffer)@.len() >= 4,
        r matches Ok(n) ==> n == 4 && final(buffer)@ == spec_u32_to_le_bytes(value) + old(buffer)@.skip(4),
        r is Err ==> final(buffer)@ == old(buffer)@,
{
    <u32 as Value>::serialize_into(&value, buffer)
}

/// `<u64 as Value>::serialize_into`: with room for eight bytes it writes the
/// little-endian bytes of `value` at the start of `buffer` and returns `Ok(8)`;
/// otherwise it fails and writes nothing.
#[verifier::external_body]
fn u64_serialize_into(value: u64, buffer: &mut [u8]) -> (r: Result<usize, SerializationError>)
    ensures
        r is Ok <==> old(buffer)@.len() >= 8,
        r matches Ok(n) ==> n == 8 && final(buffer)@ == spec_u64_to_le_bytes(value) + old(buffer)@.skip(8),
        r is Err ==> final(buffer)@ == old(buffer)@,
{
    <u64 as Value>::serialize_into(&value, buffer)
}

/// `<u8 as Value>::deserialize_from`: succeeds exactly when `buffer` holds at
/// least one byte, and then returns its first byte and the length 1.
#[verifier::external_body]
fn u8_deserialize_from(buffer: &[u8]) -> (r: Result<(u8, usize), SerializationError>)
    ensures
        r is Ok <==> buffer@.len() >= 1,
        r matches Ok((v, n)) ==> n == 1 && v == buffer@[0],
{
    <u8 as Value>::deserialize_from(buffer)
}

/// `<u16 as Value>::deserialize_from`: succeeds exactly when `buffer` holds at
/// least two bytes, and then returns the little-endian value of the first two
/// and the length 2.
#[verifier::external_body]
fn u16_deserialize_from(buffer: &[u8]) -> (r: Result<(u16, usize), SerializationError>)
    ensures
        r is Ok <==> buffer@.len() >= 2,
        r matches Ok((v, n)) ==> n == 2 && v == spec_u16_from_le_bytes(buffer@.take(2)),
{
    <u16 as Value>::deserialize_from(buffer)
}

/// `<u32 as Value>::deserialize_from`: succeeds exactly when `buffer` holds at
/// least four bytes, and then returns the little-endian value of the first four
/// and the length 4.
#[verifier::external_body]
fn u32_deserialize_from(buffer: &[u8]) -> (r: Result<(u32, usize), SerializationError>)
    ensures
        r is Ok <==> buffer@.len() >= 4,
        r matches Ok((v, n)) ==> n == 4 && v == spec_u32_from_le_bytes(buffer@.take(4)),
{
    <u32 as Value>::deserialize_from(buffer)
}

/// `<u64 as Value>::deserialize_from`: succeeds exactly when `buffer` holds at
/// least eight bytes, and then returns the little-endian value of the first
/// eight and the length 8.
#[verifier::external_body]
fn u64_deserialize_from(buffer: &[u8]) -> (r: Result<(u64, usize), SerializationError>)
    ensures
        r is Ok <==> buffer@.len() >= 8,
        r matches Ok((v, n)) ==> n == 8 && v == spec_u64_from_le_bytes(buffer@.take(8)),
{
    <u64 as Value>::deserialize_from(buffer)
}

/// The stored bytes of a fetch, if the key was present.
pub open spec fn fetched_bytes(stored: Option<&[u8]>) -> Option<Seq<u8>> {
    match stored {
        Some(b) => Some(b@),
        None => None,
    }
}

/// What a `u8` read of a key gives: zero for a missing key, else the first
/// stored byte.
pub open spec fn read_u8(stored: Option<Seq<u8>>) -> Result<u8, NvsError> {
    match stored {
        None => Ok(0),
        Some(b) => if b.len() >= 1 { Ok(b[0]) } else { Err(NvsError::Serialization) },
    }
}

/// What a `u16` read of a key gives: zero for a missing key, else the
/// little-endian value of the first two stored bytes.
pub open spec fn read_u16(stored: Option<Seq<u8>>) -> Result<u16, NvsError> {
    match stored {
        None => Ok(0),
        Some(b) => if b.len() >= 2 {
            Ok(spec_u16_from_le_bytes(b.take(2)))
        } else {
            Err(NvsError::Serialization)
        },
    }
}

/// What a `u32` read of a key gives: zero for a missing key, else the
/// little-endian value of the first four stored bytes.
pub open spec fn read_u32(stored: Option<Seq<u8>>) -> Result<u32, NvsError> {
    match stored {
        None => Ok(0),
        Some(b) => if b.len() >= 4 {
            Ok(spec_u32_from_le_bytes(b.take(4)))
        } else {
            Err(NvsError::Serialization)
        },
    }
}

/// What a `u64` read of a key gives: zero for a missing key, else the
/// little-endian value of the first eight stored bytes.
pub open spec fn read_u64(stored: Option<Seq<u8>>) -> Result<u64, NvsError> {
    match stored {
        None => Ok(0),
        Some(b) => if b.len() >= 8 {
            Ok(spec_u64_from_le_bytes(b.take(8)))
        } else {
            Err(NvsError::Serialization)
        },
    }
}

/// The bytes under which a `u8` is stored.
pub fn encode_u8(value: u8) -> (bytes: Vec<u8>)
    ensures
        bytes@ == seq![value],
{
    let mut buf: Vec<u8> = vec![0u8; 1];
    let _ = u8_serialize_into(value, buf.as_mut_slice());
    assert(buf@ =~= seq![value]);
    buf
}

/// The bytes under which a `u16` is stored: its little-endian bytes.
pub fn encode_u16(value: u16) -> (bytes: Vec<u8>)
    ensures
        bytes@ == spec_u16_to_le_bytes(value),
{
    let mut buf: Vec<u8> = vec![0u8; 2];
    let _ = u16_serialize_into(value, buf.as_mut_slice());
    assert(buf@ =~= spec_u16_to_le_bytes(value));
    buf
}

/// The bytes under which a `u32` is stored: its little-endian bytes.
pub fn encode_u32(value: u32) -> (bytes: Vec<u8>)
    ensures
        bytes@ == spec_u32_to_le_bytes(value),
{
    let mut buf: Vec<u8> = vec![0u8; 4];
    let _ = u32_serialize_into(value, buf.as_mut_slice());
    assert(buf@ =~= spec_u32_to_le_bytes(value));
    buf
}

/// The bytes under which a `u64` is stored: its little-endian bytes.
pub fn encode_u64(value: u64) -> (bytes: Vec<u8>)
    ensures
        bytes@ == spec_u64_to_le_bytes(value),
{
    let mut buf: Vec<u8> = vec![0u8; 8];
    let _ = u64_serialize_into(value, buf.as_mut_slice());
    assert(buf@ =~= spec_u64_to_le_bytes(value));
    buf
}

/// Reads a `u8` from what a fetch of its key returned.
pub fn decode_u8(stored: Option<&[u8]>) -> (r: Result<u8, NvsError>)
    ensures
        r == read_u8(fetched_bytes(stored)),
{
    match stored {
        None => Ok(0),
        Some(b) => match u8_deserialize_from(b) {
            Ok((v, _)) => Ok(v),
            Err(_) => Err(NvsError::Serialization),
        },
    }
}

/// Reads a `u16` from what a fetch of its key returned.
pub fn decode_u16(stored: Option<&[u8]>) -> (r: Result<u16, NvsError>)
    ensures
        r == read_u16(fetched_bytes(stored)),
{
    match stored {
        None => Ok(0),
        Some(b) => match u16_deserialize_from(b) {
            Ok((v, _)) => Ok(v),
            Err(_) => Err(NvsError::Serialization),
        },
    }
}

/// Reads a `u32` from what a fetch of its key returned.
pub fn decode_u32(stored: Option<&[u8]>) -> (r: Result<u32, NvsError>)
    ensures
        r == read_u32(fetched_bytes(stored)),
{
    match stored {
        None => Ok(0),
        Some(b) => match u32_deserialize_from(b) {
            Ok((v, _)) => Ok(v),
            Err(_) => Err(NvsError::Serialization),
        },
    }
}

/// Reads a `u64` from what a fetch of its key returned.
pub fn decode_u64(stored: Option<&[u8]>) -> (r: Result<u64, NvsError>)
    ensures
        r == read_u64(fetched_bytes(stored)),
{
    match stored {
        None => Ok(0),
        Some(b) => match u64_deserialize_from(b) {
            Ok((v, _)) => Ok(v),
            Err(_) => Err(NvsError::Serialization),
        },
    }
}

/// What a blob read leaves in `out`, and its length: the first
/// `min(stored length, out length)` stored bytes over the start of `out`, or
/// nothing for a missing key.
pub open spec fn blob_read(stored: Option<Seq<u8>>, out: Seq<u8>) -> (Seq<u8>, nat) {
    match stored {
        None => (out, 0),
        Some(b) => {
            let n = if b.len() <= out.len() { b.len() } else { out.len() };
            (b.take(n as int) + out.skip(n as int), n)
        },
    }
}

/// Copies what a fetch of a blob key returned into `out`, as much as fits, and
/// returns how many bytes were copied; a missing key copies nothing.
pub fn copy_blob(stored: Option<&[u8]>, out: &mut [u8]) -> (n: usize)
    ensures
        final(out)@ == blob_read(fetched_bytes(stored), old(out)@).0,
        n == blob_read(fetched_bytes(stored), old(out)@).1,
        n <= old(out)@.len(),
        final(out)@.len() == old(out)@.len(),
        forall|i: int| n <= i < old(out)@.len() ==> final(out)@[i] == old(out)@[i],
        stored is None ==> n == 0,
        stored matches Some(b) ==> {
            &&& n <= b@.len()
            &&& (n == b@.len() || n == old(out)@.len())
            &&& forall|i: int| 0 <= i < n ==> final(out)@[i] == b@[i]
        },
{
    proof {
        law_blob_read_copies_what_fits(fetched_bytes(stored), old(out)@);
    }
    match stored {
        None => 0,
        Some(blob) => {
            let len = if blob.len() <= out.len() { blob.len() } else { out.len() };
            let mut i: usize = 0;
            while i < len
                invariant
                    len <= blob@.len(),
                    len <= old(out)@.len(),
                    i <= len,
                    out@.len() == old(out)@.len(),
                    forall|j: int| 0 <= j < i ==> out@[j] == blob@[j],
                    forall|j: int| i <= j < out@.len() ==> out@[j] == old(out)@[j],
                decreases len - i,
            {
                out[i] = blob[i];
                i = i + 1;
            }
            assert(out@ =~= blob@.take(len as int) + old(out)@.skip(len as int));
            len
        },
    }
}

/// A read of a key that holds no item gives zero, whatever the width.
pub proof fn law_missing_key_reads_zero()
    ensures
        read_u8(None) == Ok::<u8, NvsError>(0),
        read_u16(None) == Ok::<u16, NvsError>(0),
        read_u32(None) == Ok::<u32, NvsError>(0),
        read_u64(None) == Ok::<u64, NvsError>(0),
{
}

/// A read of a key with the width it was stored with gives back the stored value.
pub proof fn law_read_gives_back_stored(a: u8, b: u16, c: u32, d: u64)
    ensures
        read_u8(Some(seq![a])) == Ok::<u8, NvsError>(a),
        read_u16(Some(spec_u16_to_le_bytes(b))) == Ok::<u16, NvsError>(b),
        read_u32(Some(spec_u32_to_le_bytes(c))) == Ok::<u32, NvsError>(c),
        read_u64(Some(spec_u64_to_le_bytes(d))) == Ok::<u64, NvsError>(d),
{
    lemma_auto_spec_u16_to_from_le_bytes();
    lemma_auto_spec_u32_to_from_le_bytes();
    lemma_auto_spec_u64_to_from_le_bytes();
    assert(spec_u16_to_le_bytes(b).take(2) =~= spec_u16_to_le_bytes(b));
    assert(spec_u32_to_le_bytes(c).take(4) =~= spec_u32_to_le_bytes(c));
    assert(spec_u64_to_le_bytes(d).take(8) =~= spec_u64_to_le_bytes(d));
}

/// A read of a key with a wider type than the value stored under it fails.
pub proof fn law_wider_read_fails(a: u8, b: u16, c: u32)
    ensures
        read_u16(Some(seq![a])) == Err::<u16, NvsError>(NvsError::Serialization),
        read_u32(Some(seq![a])) == Err::<u32, NvsError>(NvsError::Serialization),
        read_u64(Some(seq![a])) == Err::<u64, NvsError>(NvsError::Serialization),
        read_u32(Some(spec_u16_to_le_bytes(b))) == Err::<u32, NvsError>(NvsError::Serialization),
        read_u64(Some(spec_u16_to_le_bytes(b))) == Err::<u64, NvsError>(NvsError::Serialization),
        read_u64(Some(spec_u32_to_le_bytes(c))) == Err::<u64, NvsError>(NvsError::Serialization),
{
    lemma_auto_spec_u16_to_from_le_bytes();
    lemma_auto_spec_u32_to_from_le_bytes();
}

/// A blob read into a buffer at least as long as the stored blob gives the
/// whole blob back, and its length.
pub proof fn law_blob_read_gives_back_stored(blob: Seq<u8>, out: Seq<u8>)
    requires
        blob.len() <= out.len(),
    ensures
        blob_read(Some(blob), out).1 == blob.len(),
        blob_read(Some(blob), out).0.take(blob.len() as int) == blob,
        blob_read(Some(blob), out).0.len() == out.len(),
{
    let r = blob_read(Some(blob), out).0;
    assert(blob.take(blob.len() as int) =~= blob);
    assert(r.take(blob.len() as int) =~= blob);
}

/// A blob read copies as many bytes as fit: the count is the smaller of the
/// stored length and the buffer length (so never more than either), the
/// buffer starts with that many stored bytes and keeps the rest of its old
/// contents; a missing key copies nothing.
pub proof fn law_blob_read_copies_what_fits(stored: Option<Seq<u8>>, out: Seq<u8>)
    ensures
        blob_read(stored, out).1 <= out.len(),
        blob_read(stored, out).0.len() == out.len(),
        forall|i: int|
            blob_read(stored, out).1 <= i < out.len() ==> #[trigger] blob_read(stored, out).0[i]
                == out[i],
        stored is None ==> blob_read(stored, out).1 == 0,
        stored matches Some(b) ==> {
            &&& blob_read(stored, out).1 <= b.len()
            &&& (blob_read(stored, out).1 == b.len() || blob_read(stored, out).1 == out.len())
            &&& forall|i: int|
                0 <= i < blob_read(stored, out).1 ==> #[trigger] blob_read(stored, out).0[i]
                    == b[i]
        },
{
    if let Some(b) = stored {
        let n = blob_read(stored, out).1;
        let r = blob_read(stored, out).0;
        assert(r == b.take(n as int) + out.skip(n as int));
        assert forall|i: int| 0 <= i < n implies #[trigger] r[i] == b[i] by {
            assert(r[i] == b.take(n as int)[i]);
        }
        assert forall|i: int| n <= i < out.len() implies #[trigger] r[i] == out[i] by {
            assert(r[i] == out.skip(n as int)[i - n]);
        }
    }
}

/// A fixed-width read succeeds exactly when the stored item holds at least
/// that many bytes, and then gives the value whose stored bytes are the
/// item's leading bytes.
pub proof fn law_read_gives_value_of_leading_bytes(b: Seq<u8>)
    ensures
        read_u8(Some(b)) is Ok <==> b.len() >= 1,
        read_u16(Some(b)) is Ok <==> b.len() >= 2,
        read_u32(Some(b)) is Ok <==> b.len() >= 4,
        read_u64(Some(b)) is Ok <==> b.len() >= 8,
        read_u8(Some(b)) matches Ok(v) ==> seq![v] == b.take(1),
        read_u16(Some(b)) matches Ok(v) ==> spec_u16_to_le_bytes(v) == b.take(2),
        read_u32(Some(b)) matches Ok(v) ==> spec_u32_to_le_bytes(v) == b.take(4),
        read_u64(Some(b)) matches Ok(v) ==> spec_u64_to_le_bytes(v) == b.take(8),
{
    lemma_auto_spec_u16_to_from_le_bytes();
    lemma_auto_spec_u32_to_from_le_bytes();
    lemma_auto_spec_u64_to_from_le_bytes();
    if b.len() >= 1 {
        assert(seq![b[0]] =~= b.take(1));
    }
}

} // verus!
